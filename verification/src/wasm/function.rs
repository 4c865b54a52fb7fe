//! The translation of a function.
use vstd::prelude::*;
use crate::span::SourceSpan;
use crate::types::{Immediate, ScalarType};
use crate::wasm::builder::{self, Built, FunctionBuilder};
use crate::wasm::control::WasmError;
use crate::wasm::debug_info::LocalDecl;
use crate::wasm::ir::{BlockId, Event, Value};
use crate::wasm::operator::{self, ir_type, FuncEnv, Operator};
use crate::wasm::readiness::is_ready;
use crate::wasm::state::{ControlStackFrame, FuncTranslationState, Trans};
use crate::wasm::translate::{self, translate_operator};

verus! {

/// The first `n` values become the variables from `first` on.
pub open spec fn defined(b: Built, first: int, values: Seq<Value>, n: int) -> Built
    decreases n,
{
    if n <= 0 {
        b
    } else {
        defined(b, first, values, n - 1).step(
            Event::DefVar { var: (first + n - 1) as u32, value: values[n - 1] },
            0,
        )
    }
}

/// Makes variables of the parameters of the function, and counts them.
pub fn declare_parameters(builder: &mut FunctionBuilder, entry_block: BlockId) -> (n: u32)
    requires
        entry_block.index < old(builder)@.blocks.len(),
        old(builder)@.params(entry_block).len() < u32::MAX,
    ensures
        n == old(builder)@.params(entry_block).len(),
        final(builder)@ == defined(
            old(builder)@,
            0,
            old(builder)@.params(entry_block),
            n as int,
        ),
{
    let values = builder::copy_values(builder.block_params(entry_block).as_slice());
    let mut i: usize = 0;
    while i < values.len()
        invariant
            i <= values@.len() < u32::MAX,
            builder@ == defined(old(builder)@, 0, values@, i as int),
        decreases values@.len() - i,
    {
        builder.push(Event::DefVar { var: i as u32, value: values[i] });
        i = i + 1;
    }
    i as u32
}

/// The zero of a type.
pub open spec fn zero_of(ty: ScalarType) -> Immediate {
    match ty {
        ScalarType::I64 => Immediate::I64(0),
        ScalarType::Felt => Immediate::Felt(0),
        _ => Immediate::I32(0),
    }
}

/// One value becomes `n` variables from `first` on.
pub open spec fn all_defined(b: Built, first: int, value: Value, n: int) -> Built {
    defined(b, first, Seq::new(n as nat, |i: int| value), n)
}

/// A group of locals, which all start as zero.
pub open spec fn group_declared(b: Built, decl: LocalDecl, first: int) -> (
    Built,
    Result<(), WasmError>,
) {
    match operator::scalar_of(decl.ty) {
        None => (b, Err(WasmError::UnsupportedType)),
        Some(ty) => {
            let (b, zero) = b.imm(zero_of(ty));
            (all_defined(b, first, zero, decl.count as int), Ok(()))
        },
    }
}

/// How many locals the first `n` groups declare.
pub open spec fn count_declared(decls: Seq<LocalDecl>, n: int) -> nat
    decreases n,
{
    if n <= 0 {
        0
    } else {
        count_declared(decls, n - 1) + decls[n - 1].count as nat
    }
}

/// The first `n` groups of locals, up to the first one whose type cannot be translated.
pub open spec fn groups_declared(b: Built, decls: Seq<LocalDecl>, first: int, n: int) -> (
    Built,
    Result<(), WasmError>,
)
    decreases n,
{
    if n <= 0 {
        (b, Ok(()))
    } else {
        let (b, result) = groups_declared(b, decls, first, n - 1);
        if result is Err {
            (b, result)
        } else {
            group_declared(b, decls[n - 1], first + count_declared(decls, n - 1))
        }
    }
}

proof fn defined_keeps(b: Built, first: int, values: Seq<Value>, n: int)
    ensures
        defined(b, first, values, n).next == b.next,
        defined(b, first, values, n).blocks == b.blocks,
    decreases n,
{
    if n > 0 {
        defined_keeps(b, first, values, n - 1);
    }
}

proof fn groups_take_values(b: Built, decls: Seq<LocalDecl>, first: int, n: int)
    requires
        0 <= n,
    ensures
        groups_declared(b, decls, first, n).0.next <= b.next + n,
    decreases n,
{
    if n > 0 {
        groups_take_values(b, decls, first, n - 1);
        let (b1, _) = groups_declared(b, decls, first, n - 1);
        if let Some(ty) = operator::scalar_of(decls[n - 1].ty) {
            let (b2, zero) = b1.imm(zero_of(ty));
            let count = decls[n - 1].count;
            defined_keeps(
                b2,
                first + count_declared(decls, n - 1),
                Seq::new(count as nat, |i: int| zero),
                count as int,
            );
        }
    }
}

proof fn errors_stay(b: Built, decls: Seq<LocalDecl>, first: int, n: int, m: int)
    requires
        0 <= n <= m,
        groups_declared(b, decls, first, n).1 is Err,
    ensures
        groups_declared(b, decls, first, m) == groups_declared(b, decls, first, n),
    decreases m - n,
{
    if n < m {
        errors_stay(b, decls, first, n, m - 1);
    }
}

proof fn counts_add_up(decls: Seq<LocalDecl>, n: int, m: int)
    requires
        0 <= n <= m,
    ensures
        count_declared(decls, n) <= count_declared(decls, m),
    decreases m - n,
{
    if n < m {
        counts_add_up(decls, n, m - 1);
    }
}

/// Declares a group of locals of one type, which all start as zero, from `next_local` on.
pub fn declare_locals(builder: &mut FunctionBuilder, decl: LocalDecl, next_local: &mut u32) -> (result:
    Result<(), WasmError>)
    requires
        old(builder)@.next < u32::MAX,
        *old(next_local) + decl.count <= u32::MAX,
    ensures
        (final(builder)@, result) == group_declared(old(builder)@, decl, *old(next_local) as int),
        *final(next_local) == *old(next_local) + if result is Ok {
            decl.count as int
        } else {
            0
        },
{
    let ty = match ir_type(decl.ty) {
        None => return Err(WasmError::UnsupportedType),
        Some(ty) => ty,
    };
    let zero = match ty {
        ScalarType::I64 => Immediate::I64(0),
        ScalarType::Felt => Immediate::Felt(0),
        _ => Immediate::I32(0),
    };
    let init = builder.imm(zero);
    let ghost start = builder@;
    let ghost values = Seq::new(decl.count as nat, |i: int| init);
    let mut i: u32 = 0;
    while i < decl.count
        invariant
            i <= decl.count,
            values == Seq::new(decl.count as nat, |i: int| init),
            builder@ == defined(start, *old(next_local) as int, values, i as int),
            *next_local == *old(next_local) + i,
            *old(next_local) + decl.count <= u32::MAX,
        decreases decl.count - i,
    {
        builder.push(Event::DefVar { var: *next_local, value: init });
        *next_local = *next_local + 1;
        i = i + 1;
    }
    Ok(())
}

/// Declares the locals of a function, from `num_params` on.
pub fn parse_local_decls(builder: &mut FunctionBuilder, decls: &Vec<LocalDecl>, num_params: u32) -> (
result: Result<(), WasmError>)
    requires
        old(builder)@.next + decls@.len() <= u32::MAX,
        num_params + count_declared(decls@, decls@.len() as int) <= u32::MAX,
    ensures
        (final(builder)@, result) == groups_declared(
            old(builder)@,
            decls@,
            num_params as int,
            decls@.len() as int,
        ),
{
    let mut next_local: u32 = num_params;
    let mut i: usize = 0;
    while i < decls.len()
        invariant
            i <= decls@.len(),
            old(builder)@.next + decls@.len() <= u32::MAX,
            num_params + count_declared(decls@, decls@.len() as int) <= u32::MAX,
            next_local == num_params + count_declared(decls@, i as int),
            (builder@, Ok::<(), WasmError>(())) == groups_declared(
                old(builder)@,
                decls@,
                num_params as int,
                i as int,
            ),
        decreases decls@.len() - i,
    {
        proof {
            groups_take_values(old(builder)@, decls@, num_params as int, i as int);
            counts_add_up(decls@, i + 1, decls@.len() as int);
        }
        match declare_locals(builder, decls[i], &mut next_local) {
            Err(e) => {
                proof {
                    errors_stay(
                        old(builder)@,
                        decls@,
                        num_params as int,
                        i + 1,
                        decls@.len() as int,
                    );
                }
                return Err(e);
            },
            Ok(_) => {},
        }
        i = i + 1;
    }
    Ok(())
}

/// An operator, and where it stems from.
pub struct BodyOperator {
    pub op: Operator,
    pub span: SourceSpan,
}

/// The last position among the first `n` operators that is known.
pub open spec fn last_valid_span(ops: Seq<BodyOperator>, n: int) -> SourceSpan
    decreases n,
{
    if n <= 0 {
        SourceSpan::unknown_span()
    } else if ops[n - 1].span != SourceSpan::unknown_span() {
        ops[n - 1].span
    } else {
        last_valid_span(ops, n - 1)
    }
}

/// The position of the last `end` among the first `n` operators.
pub open spec fn end_span(ops: Seq<BodyOperator>, n: int) -> SourceSpan
    decreases n,
{
    if n <= 0 {
        SourceSpan::unknown_span()
    } else if ops[n - 1].op is End {
        ops[n - 1].span
    } else {
        end_span(ops, n - 1)
    }
}

/// What an operator makes of the state.
pub open spec fn stepped(env: &FuncEnv, op: Operator, t: Trans) -> (Trans, Result<(), WasmError>) {
    if t.reachable {
        translate::translated(env, op, t)
    } else {
        translate::skipped(env, op, t)
    }
}

/// What an operator needs of the state.
pub open spec fn step_ready(env: &FuncEnv, op: Operator, t: Trans) -> bool {
    if t.reachable {
        translate::ready(env, op, t)
    } else {
        translate::ready_unreachable(env, op, t)
    }
}

/// The state after the first `n` operators, up to the first one that cannot be translated. An
/// operator whose position is not known takes that of the last one before it whose is.
pub open spec fn run(env: &FuncEnv, t: Trans, ops: Seq<BodyOperator>, n: int) -> (
    Trans,
    Result<(), WasmError>,
)
    decreases n,
{
    if n <= 0 {
        (t, Ok(()))
    } else {
        let (before, result) = run(env, t, ops, n - 1);
        if result is Err {
            (before, result)
        } else {
            stepped(env, ops[n - 1].op, before.does(Event::At(last_valid_span(ops, n))))
        }
    }
}

/// The operator at `i` finds what it needs, if those before it can be translated.
pub open spec fn op_ready(env: &FuncEnv, t: Trans, ops: Seq<BodyOperator>, i: int) -> bool {
    run(env, t, ops, i).1 is Ok ==> step_ready(
        env,
        ops[i].op,
        run(env, t, ops, i).0.does(Event::At(last_valid_span(ops, i + 1))),
    )
}

/// Every operator finds what it needs, as those of a valid function do.
pub open spec fn valid_body(env: &FuncEnv, t: Trans, ops: Seq<BodyOperator>) -> bool {
    forall|i: int| 0 <= i < ops.len() ==> #[trigger] op_ready(env, t, ops, i)
}

/// The state after a body: where its end can be reached, it returns the value on the stack.
pub open spec fn finished(env: &FuncEnv, t: Trans, ops: Seq<BodyOperator>) -> (
    Trans,
    Result<(), WasmError>,
) {
    let (t, result) = run(env, t, ops, ops.len() as int);
    if result is Err {
        (t, result)
    } else if t.reachable {
        (
            Trans {
                stack: Seq::empty(),
                ..t.does(Event::At(end_span(ops, ops.len() as int))).does(
                    Event::Ret {
                        value: if t.stack.len() > 0 {
                            Some(t.stack[0])
                        } else {
                            None
                        },
                    },
                )
            },
            Ok(()),
        )
    } else {
        (Trans { stack: Seq::empty(), ..t }, Ok(()))
    }
}

proof fn run_errors_stay(env: &FuncEnv, t: Trans, ops: Seq<BodyOperator>, n: int, m: int)
    requires
        0 <= n <= m,
        run(env, t, ops, n).1 is Err,
    ensures
        run(env, t, ops, m) == run(env, t, ops, n),
    decreases m - n,
{
    if n < m {
        run_errors_stay(env, t, ops, n, m - 1);
    }
}

/// Translates the body of a function.
pub fn parse_function_body(
    env: &FuncEnv,
    ops: &Vec<BodyOperator>,
    builder: &mut FunctionBuilder,
    state: &mut FuncTranslationState,
) -> (result: Result<(), WasmError>)
    requires
        old(state).control_stack@.len() == 1,
        valid_body(env, old(state).with(&*old(builder)), ops@),
    ensures
        (final(state).with(&*final(builder)), result) == finished(
            env,
            old(state).with(&*old(builder)),
            ops@,
        ),
{
    let ghost start = state.with(builder);
    let mut end = SourceSpan::unknown();
    let mut last_valid = SourceSpan::unknown();
    let mut i: usize = 0;
    while i < ops.len()
        invariant
            i <= ops@.len(),
            start == old(state).with(&*old(builder)),
            valid_body(env, start, ops@),
            end == end_span(ops@, i as int),
            last_valid == last_valid_span(ops@, i as int),
            (state.with(builder), Ok::<(), WasmError>(())) == run(env, start, ops@, i as int),
        decreases ops@.len() - i,
    {
        let span = ops[i].span;
        if span != SourceSpan::unknown() {
            last_valid = span;
        }
        if let Operator::End = &ops[i].op {
            end = span;
        }
        assert(last_valid == last_valid_span(ops@, i + 1));
        assert(op_ready(env, start, ops@, i as int));
        match translate_operator(env, &ops[i].op, builder, state, last_valid) {
            Err(e) => {
                proof {
                    run_errors_stay(env, start, ops@, i + 1, ops@.len() as int);
                }
                return Err(e);
            },
            Ok(_) => {},
        }
        i = i + 1;
    }
    if state.reachable {
        let value = if state.stack.len() > 0 {
            Some(state.stack[0])
        } else {
            None
        };
        builder.push(Event::At(end));
        builder.push(Event::Ret { value });
    }
    state.stack = Vec::new();
    assert(state.with(builder) =~= finished(env, start, ops@).0);
    Ok(())
}

/// The state at the start of a body: in a block with the parameters, which are variables, with
/// a block for the results at the end.
pub open spec fn entered(params: Seq<ScalarType>, results: Seq<ScalarType>) -> Trans {
    let (b, entry) = (Built { log: Seq::empty(), next: 0, blocks: Seq::empty() }).create_block(
        params,
    );
    let b = b.step(Event::SwitchToBlock { block: entry }, 0);
    let b = b.step(Event::SealBlock { block: entry }, 0);
    let b = defined(b, 0, b.params(entry), params.len() as int);
    let (b, exit) = b.create_block(results);
    Trans {
        b,
        stack: Seq::empty(),
        control: seq![
            ControlStackFrame::Block {
                destination: exit,
                num_param_values: 0,
                num_return_values: results.len() as usize,
                original_stack_size: 0,
                exit_is_branched_to: false,
            },
        ],
        reachable: true,
    }
}

/// The state after the locals of a function, which follow its parameters.
pub open spec fn locals_entered(
    params: Seq<ScalarType>,
    results: Seq<ScalarType>,
    decls: Seq<LocalDecl>,
) -> (Trans, Result<(), WasmError>) {
    let t = entered(params, results);
    let (b, result) = groups_declared(t.b, decls, params.len() as int, decls.len() as int);
    (Trans { b, ..t }, result)
}

/// The translation of a function.
pub open spec fn function_translated(
    env: &FuncEnv,
    params: Seq<ScalarType>,
    results: Seq<ScalarType>,
    decls: Seq<LocalDecl>,
    ops: Seq<BodyOperator>,
) -> (Trans, Result<(), WasmError>) {
    let (t, result) = locals_entered(params, results, decls);
    if result is Err {
        (t, result)
    } else {
        finished(env, t, ops)
    }
}

/// A function has a valid body, and no more locals than there are numbers for.
pub open spec fn function_valid(
    env: &FuncEnv,
    params: Seq<ScalarType>,
    results: Seq<ScalarType>,
    decls: Seq<LocalDecl>,
    ops: Seq<BodyOperator>,
) -> bool {
    &&& params.len() + results.len() + decls.len() < u32::MAX
    &&& params.len() + count_declared(decls, decls.len() as int) <= u32::MAX
    &&& valid_body(env, locals_entered(params, results, decls).0, ops)
}

/// Starts a function: its parameters and locals become variables.
fn enter_function(
    state: &mut FuncTranslationState,
    params: &Vec<ScalarType>,
    results: &Vec<ScalarType>,
    decls: &Vec<LocalDecl>,
) -> (started: (FunctionBuilder, Result<(), WasmError>))
    requires
        params@.len() + results@.len() + decls@.len() < u32::MAX,
        params@.len() + count_declared(decls@, decls@.len() as int) <= u32::MAX,
    ensures
        (final(state).with(&started.0), started.1) == locals_entered(params@, results@, decls@),
{
    let mut builder = FunctionBuilder::new();
    let entry = builder.create_block_with_params(params.as_slice());
    builder.push(Event::SwitchToBlock { block: entry });
    builder.push(Event::SealBlock { block: entry });
    let ghost at_entry = builder@;
    let num_params = declare_parameters(&mut builder, entry);
    proof {
        defined_keeps(at_entry, 0, at_entry.params(entry), num_params as int);
    }
    let exit = builder.create_block_with_params(results.as_slice());
    state.initialize(results.len(), exit);
    assert(state.with(&builder) =~= entered(params@, results@));
    let declared = parse_local_decls(&mut builder, decls, num_params);
    assert(state.with(&builder) =~= locals_entered(params@, results@, decls@).0);
    (builder, declared)
}

/// Whether there are numbers for the locals of a function.
fn locals_fit(
    params: &Vec<ScalarType>,
    results: &Vec<ScalarType>,
    decls: &Vec<LocalDecl>,
) -> (b: bool)
    ensures
        b == (params@.len() + results@.len() + decls@.len() < u32::MAX && params@.len()
            + count_declared(decls@, decls@.len() as int) <= u32::MAX),
{
    let max: u128 = u32::MAX as u128;
    if params.len() as u128 + results.len() as u128 + decls.len() as u128 >= max {
        return false;
    }
    let mut declared: u128 = params.len() as u128;
    let mut i: usize = 0;
    while i < decls.len()
        invariant
            i <= decls@.len(),
            max == u32::MAX,
            declared == params@.len() + count_declared(decls@, i as int),
            declared <= max,
        decreases decls@.len() - i,
    {
        declared = declared + decls[i].count as u128;
        if declared > max {
            proof {
                counts_add_up(decls@, i + 1, decls@.len() as int);
            }
            return false;
        }
        i = i + 1;
    }
    true
}

/// Whether a function has a valid body, and no more locals than there are numbers for. The body is
/// translated for it, and what comes out is dropped.
pub fn is_valid_function(
    env: &FuncEnv,
    params: &Vec<ScalarType>,
    results: &Vec<ScalarType>,
    decls: &Vec<LocalDecl>,
    ops: &Vec<BodyOperator>,
) -> (b: bool)
    ensures
        b == function_valid(env, params@, results@, decls@, ops@),
{
    if !locals_fit(params, results, decls) {
        return false;
    }
    let mut state = FuncTranslationState::new();
    let (mut builder, _) = enter_function(&mut state, params, results, decls);
    let ghost start = state.with(&builder);
    let mut last_valid = SourceSpan::unknown();
    let mut i: usize = 0;
    while i < ops.len()
        invariant
            i <= ops@.len(),
            start == locals_entered(params@, results@, decls@).0,
            params@.len() + results@.len() + decls@.len() < u32::MAX,
            params@.len() + count_declared(decls@, decls@.len() as int) <= u32::MAX,
            last_valid == last_valid_span(ops@, i as int),
            (state.with(&builder), Ok::<(), WasmError>(())) == run(env, start, ops@, i as int),
            forall|j: int| 0 <= j < i ==> #[trigger] op_ready(env, start, ops@, j),
        decreases ops@.len() - i,
    {
        let span = ops[i].span;
        if span != SourceSpan::unknown() {
            last_valid = span;
        }
        assert(last_valid == last_valid_span(ops@, i + 1));
        assert(run(env, start, ops@, i as int).1 is Ok);
        if !is_ready(env, &ops[i].op, &state, &builder, last_valid) {
            assert(!op_ready(env, start, ops@, i as int));
            return false;
        }
        assert(op_ready(env, start, ops@, i as int));
        match translate_operator(env, &ops[i].op, &mut builder, &mut state, last_valid) {
            Err(_) => {
                assert forall|j: int| 0 <= j < ops@.len() implies #[trigger] op_ready(
                    env,
                    start,
                    ops@,
                    j,
                ) by {
                    if j > i {
                        run_errors_stay(env, start, ops@, i + 1, j);
                    }
                }
                return true;
            },
            Ok(_) => {},
        }
        i = i + 1;
    }
    true
}

/// Translates functions.
pub struct FuncTranslator {
    pub state: FuncTranslationState,
}

impl FuncTranslator {
    /// A new translator.
    pub fn new() -> (translator: FuncTranslator)
        ensures
            translator.state.stack@.len() == 0,
            translator.state.control_stack@.len() == 0,
            translator.state.reachable,
    {
        FuncTranslator { state: FuncTranslationState::new() }
    }

    /// Translates a function with the given signature, locals and body.
    pub fn translate_body(
        &mut self,
        env: &FuncEnv,
        params: &Vec<ScalarType>,
        results: &Vec<ScalarType>,
        decls: &Vec<LocalDecl>,
        ops: &Vec<BodyOperator>,
    ) -> (function: Result<FunctionBuilder, WasmError>)
        requires
            function_valid(env, params@, results@, decls@, ops@),
        ensures
            match function {
                Ok(builder) => {
                    let (t, result) = function_translated(
                        env,
                        params@,
                        results@,
                        decls@,
                        ops@,
                    );
                    result is Ok && t == final(self).state.with(&builder)
                },
                Err(e) => function_translated(env, params@, results@, decls@, ops@).1 == Err::<
                    (),
                    WasmError,
                >(e),
            },
    {
        let (mut builder, declared) = enter_function(&mut self.state, params, results, decls);
        if let Err(e) = declared {
            return Err(e);
        }
        match parse_function_body(env, ops, &mut builder, &mut self.state) {
            Err(e) => Err(e),
            Ok(_) => Ok(builder),
        }
    }
}

/// The first candidate that is there.
pub open spec fn first_found(candidates: Seq<Option<String>>, from: int) -> Option<String>
    decreases candidates.len() - from,
{
    if from < 0 || from >= candidates.len() {
        None
    } else if candidates[from] is Some {
        candidates[from]
    } else {
        first_found(candidates, from + 1)
    }
}

/// Chooses among the files that a path may stand for. An absolute path stands for itself. A
/// relative one is looked for under each prefix in turn, and then in the current directory. Each
/// candidate is given by its canonical path, or is none if there is no such file.
pub fn resolve_source_path<'a>(
    is_relative: bool,
    itself: &'a Option<String>,
    under_prefixes: &'a Vec<Option<String>>,
    in_current_dir: &'a Option<String>,
) -> (path: &'a Option<String>)
    ensures
        *path == if !is_relative {
            *itself
        } else if first_found(under_prefixes@, 0) is Some {
            first_found(under_prefixes@, 0)
        } else {
            *in_current_dir
        },
{
    if !is_relative {
        return itself;
    }
    let mut i: usize = 0;
    while i < under_prefixes.len()
        invariant
            is_relative,
            i <= under_prefixes@.len(),
            first_found(under_prefixes@, 0) == first_found(under_prefixes@, i as int),
        decreases under_prefixes@.len() - i,
    {
        if under_prefixes[i].is_some() {
            return &under_prefixes[i];
        }
        i = i + 1;
    }
    in_current_dir
}

} // verus!
