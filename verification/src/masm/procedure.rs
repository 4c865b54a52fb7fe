//! Procedures, and the modules that hold them.
use vstd::prelude::*;
use vstd::string::*;
use crate::hir::library_path;
use crate::hir::types::{CallConv, Type};
use crate::masm::artifact::{self, RuntimePaths};
use crate::masm::emit::InvokeSet;
use crate::masm::inst::{self, Block, Instruction, InvocationTarget, Op};
use crate::masm::stack::{Operand, OperandStack, ValueRef};
use crate::span::SourceSpan;
use crate::text::{self, chars_of, same_text, string_of};
use crate::types::ScalarType;

verus! {

/// Who can see a function.
#[derive(Clone, Copy, PartialEq, Eq, Debug, Structural)]
pub enum FunctionVisibility {
    Public,
    Internal,
    Private,
}

/// Who can see a procedure.
#[derive(Clone, Copy, PartialEq, Eq, Debug, Structural)]
pub enum ProcedureVisibility {
    Public,
    Private,
}

/// How a function is called, and what it takes and returns.
pub struct FunctionType {
    pub cc: CallConv,
    pub params: Vec<Type>,
    pub results: Vec<Type>,
}

/// A function, without its body.
pub struct FunctionDecl {
    pub name: String,
    pub span: SourceSpan,
    pub visibility: FunctionVisibility,
    pub signature: FunctionType,
    pub locals: Vec<ScalarType>,
}

/// A function needs more storage for its locals than a procedure can have.
#[derive(Clone, Copy, PartialEq, Eq, Debug, Structural)]
pub struct TooManyLocals {}

/// How many elements the locals take.
pub open spec fn locals_size(locals: Seq<ScalarType>) -> nat
    decreases locals.len(),
{
    if locals.len() == 0 {
        0
    } else {
        locals_size(locals.drop_last()) + locals.last().felts()
    }
}

/// The character that stands for `c` in the name of a procedure.
pub open spec fn name_char(c: char) -> char {
    if c == '-' || c == ':' || c == '/' || c == '@' {
        '_'
    } else {
        c
    }
}

/// The name of the procedure for a function: of a name of the component model what follows the
/// last `#`, and underscores in place of characters that are not allowed.
pub open spec fn procedure_name(name: Seq<char>) -> Seq<char> {
    let name = artifact::underscored(name);
    if name.contains('#') {
        library_path::after_hash(name)
    } else {
        name.map_values(|c: char| name_char(c))
    }
}

proof fn after_hash_is_where(s: Seq<char>, at: int)
    requires
        0 <= at < s.len(),
        s[at] == '#',
        forall|i: int| at < i < s.len() ==> s[i] != '#',
    ensures
        library_path::after_hash(s) == s.skip(at + 1),
    decreases s.len(),
{
    if at < s.len() - 1 {
        assert(s[s.len() - 1] != '#');
        assert(s.drop_last()[at] == '#');
        after_hash_is_where(s.drop_last(), at);
        assert(s.skip(at + 1) =~= s.drop_last().skip(at + 1).push(s.last()));
    } else {
        assert(s.skip(at + 1) =~= Seq::<char>::empty());
    }
}

/// The name of the procedure for a function.
pub fn sanitize_name(name: &str) -> (out: String)
    ensures
        out@ == procedure_name(name@),
{
    let given = chars_of(name);
    let mut s: Vec<char> = Vec::new();
    let mut hash: Option<usize> = None;
    let mut i: usize = 0;
    while i < given.len()
        invariant
            i <= given@.len(),
            s@ == artifact::underscored(given@.take(i as int)),
            match hash {
                Some(at) => at < i && s@[at as int] == '#' && forall|j: int|
                    at < j < i ==> s@[j] != '#',
                None => forall|j: int| 0 <= j < i ==> s@[j] != '#',
            },
        decreases given@.len() - i,
    {
        let c = given[i];
        assert(given@.take(i + 1) == given@.take(i as int).push(c));
        if c == '#' {
            hash = Some(i);
        }
        s.push(
            if c == '-' {
                '_'
            } else {
                c
            },
        );
        i = i + 1;
        assert(s@ =~= artifact::underscored(given@.take(i as int)));
    }
    assert(given@.take(given@.len() as int) == given@);
    match hash {
        Some(at) => {
            proof {
                after_hash_is_where(s@, at as int);
                assert(s@.contains('#'));
            }
            let len: usize = s.len();
            let out = text::substring(&s, at + 1, len);
            assert(out@ =~= s@.skip(at + 1));
            out
        },
        None => {
            assert(!s@.contains('#'));
            let mut out: Vec<char> = Vec::new();
            let mut k: usize = 0;
            while k < s.len()
                invariant
                    k <= s@.len(),
                    out@ == s@.take(k as int).map_values(|c: char| name_char(c)),
                decreases s@.len() - k,
            {
                let c = s[k];
                assert(s@.take(k + 1) == s@.take(k as int).push(c));
                out.push(
                    if c == '-' || c == ':' || c == '/' || c == '@' {
                        '_'
                    } else {
                        c
                    },
                );
                k = k + 1;
                assert(out@ =~= s@.take(k as int).map_values(|c: char| name_char(c)));
            }
            assert(s@.take(s@.len() as int) == s@);
            string_of(out.as_slice())
        },
    }
}

/// Builds the procedure for a function.
pub struct MasmFunctionBuilder {
    pub span: SourceSpan,
    pub name: String,
    pub signature: FunctionType,
    pub visibility: ProcedureVisibility,
    pub num_locals: u16,
}

/// A procedure.
pub struct Procedure {
    pub span: SourceSpan,
    pub name: String,
    /// Its type, if that is known
    pub signature: Option<FunctionType>,
    pub visibility: ProcedureVisibility,
    pub num_locals: u16,
    pub body: Block,
    /// The procedures that its body invokes
    pub invoked: InvokeSet,
}

proof fn sizes_add_up(locals: Seq<ScalarType>, n: int)
    requires
        0 <= n <= locals.len(),
    ensures
        locals_size(locals.take(n)) <= locals_size(locals),
    decreases locals.len() - n,
{
    if n < locals.len() {
        assert(locals.take(n + 1).drop_last() == locals.take(n));
        sizes_add_up(locals, n + 1);
    } else {
        assert(locals.take(n) == locals);
    }
}

impl MasmFunctionBuilder {
    /// A builder for the procedure of a function. A function that is visible in its component is
    /// public.
    pub fn new(function: FunctionDecl) -> (builder: Result<Self, TooManyLocals>)
        ensures
            match builder {
                Ok(builder) => {
                    &&& locals_size(function.locals@) <= u16::MAX
                    &&& builder.span == function.span
                    &&& builder.name@ == procedure_name(function.name@)
                    &&& builder.signature == function.signature
                    &&& builder.visibility == match function.visibility {
                        FunctionVisibility::Private => ProcedureVisibility::Private,
                        _ => ProcedureVisibility::Public,
                    }
                    &&& builder.num_locals == locals_size(function.locals@)
                },
                Err(_) => locals_size(function.locals@) > u16::MAX,
            },
    {
        let name = sanitize_name(function.name.as_str());
        let visibility = match function.visibility {
            FunctionVisibility::Public => ProcedureVisibility::Public,
            FunctionVisibility::Internal => ProcedureVisibility::Public,
            FunctionVisibility::Private => ProcedureVisibility::Private,
        };
        let mut size: usize = 0;
        let mut i: usize = 0;
        while i < function.locals.len()
            invariant
                i <= function.locals@.len(),
                size == locals_size(function.locals@.take(i as int)),
                size <= u16::MAX,
            decreases function.locals@.len() - i,
        {
            assert(function.locals@.take(i + 1).drop_last() == function.locals@.take(i as int));
            size = size + function.locals[i].size_in_felts();
            i = i + 1;
            if size > 0xffff {
                proof {
                    sizes_add_up(function.locals@, i as int);
                }
                return Err(TooManyLocals {  });
            }
        }
        assert(function.locals@.take(function.locals@.len() as int) == function.locals@);
        Ok(
            MasmFunctionBuilder {
                span: function.span,
                name,
                signature: function.signature,
                visibility,
                num_locals: size as u16,
            },
        )
    }

    /// The procedure of a function, given the code of its body and what that invokes. An export
    /// of a component first runs the initializer of the component, if there is one, and at its
    /// end leaves no more on the stack than a call may.
    pub fn build(
        self,
        init: Option<InvocationTarget>,
        body: Vec<Op>,
        invoked: InvokeSet,
        paths: RuntimePaths,
    ) -> (procedure: Procedure)
        ensures
            procedure.span == self.span,
            procedure.name == self.name,
            procedure.signature == Some(self.signature),
            procedure.invoked == invoked,
            procedure.visibility == self.visibility,
            procedure.num_locals == self.num_locals,
            procedure.body.span == self.span,
            procedure.body.ops@ == (if self.signature.cc == CallConv::CanonLift {
                inst::line(SourceSpan::unknown_span(), artifact::main_head(init)) + body@
                    + inst::line(
                    SourceSpan::unknown_span(),
                    seq![Instruction::Exec(InvocationTarget::Path(paths.truncate_stack))],
                )
            } else {
                body@
            }),
    {
        let span = SourceSpan::unknown();
        let cc = self.signature.cc;
        let mut ops: Vec<Op> = Vec::new();
        if cc == CallConv::CanonLift {
            if let Some(init) = init {
                ops.push(Op::Inst(span, Instruction::Exec(init)));
            }
            assert(ops@ =~= inst::line(span, artifact::main_head(init)));
        }
        let mut rest = body;
        ops.append(&mut rest);
        let ghost middle = ops@;
        if cc == CallConv::CanonLift {
            ops.push(
                Op::Inst(
                    span,
                    Instruction::Exec(InvocationTarget::Path(paths.truncate_stack)),
                ),
            );
            assert(ops@ =~= middle + inst::line(
                span,
                seq![Instruction::Exec(InvocationTarget::Path(paths.truncate_stack))],
            ));
        } else {
            assert(ops@ =~= body@);
        }
        Procedure {
            span: self.span,
            name: self.name,
            signature: Some(self.signature),
            visibility: self.visibility,
            num_locals: self.num_locals,
            body: Block { span: self.span, ops },
            invoked,
        }
    }
}

/// The stack on entry to a function: the first argument is on top.
pub fn entry_stack(args: &Vec<ValueRef>) -> (stack: OperandStack)
    ensures
        stack@ == args@.map_values(|value: ValueRef| Operand::Value(value)),
{
    let ghost all = args@.map_values(|value: ValueRef| Operand::Value(value));
    let mut stack = OperandStack::new();
    let mut i: usize = args.len();
    while i > 0
        invariant
            i <= args@.len(),
            all == args@.map_values(|value: ValueRef| Operand::Value(value)),
            stack@ == all.skip(i as int),
        decreases i,
    {
        i = i - 1;
        stack.push(Operand::Value(args[i]));
        assert(stack@ =~= all.skip(i as int));
    }
    assert(all.skip(0) == all);
    stack
}

/// A procedure of that name is defined already.
#[derive(Clone, Copy, PartialEq, Eq, Debug, Structural)]
pub struct DuplicateProcedure {}

/// A module of procedures.
pub struct MasmModule {
    pub path: String,
    pub procedures: Vec<Procedure>,
}

/// A procedure has the given name.
pub open spec fn defines(procedures: Seq<Procedure>, name: Seq<char>) -> bool {
    exists|i: int| 0 <= i < procedures.len() && (#[trigger] procedures[i]).name@ == name
}

/// No two procedures have the same name.
pub open spec fn distinct(procedures: Seq<Procedure>) -> bool {
    forall|i: int, j: int|
        0 <= i < j < procedures.len() ==> (#[trigger] procedures[i]).name@ != (
        #[trigger] procedures[j]).name@
}

pub(crate) proof fn adding_keeps_names(procedures: Seq<Procedure>, procedure: Procedure)
    requires
        distinct(procedures),
    ensures
        distinct(procedures.push(procedure)) <==> !defines(procedures, procedure.name@),
{
    let now = procedures.push(procedure);
    let n = procedures.len() as int;
    if defines(procedures, procedure.name@) {
        let i = choose|i: int|
            0 <= i < n && (#[trigger] procedures[i]).name@ == procedure.name@;
        assert(now[i].name@ == now[n].name@);
    } else {
        assert forall|i: int, j: int| 0 <= i < j < now.len() implies (#[trigger] now[i]).name@ != (
        #[trigger] now[j]).name@ by {
            assert(now[i] == procedures[i]);
            if j < n {
                assert(now[j] == procedures[j]);
            }
        }
    }
}

pub(crate) proof fn prefixes_are_distinct(procedures: Seq<Procedure>, more: Seq<Procedure>)
    requires
        distinct(procedures + more),
    ensures
        distinct(procedures),
{
    assert forall|i: int, j: int| 0 <= i < j < procedures.len() implies (
    #[trigger] procedures[i]).name@ != (#[trigger] procedures[j]).name@ by {
        assert((procedures + more)[i] == procedures[i] && (procedures + more)[j] == procedures[j]);
    }
}

impl MasmModule {
    /// A module without procedures.
    pub fn new(path: String) -> (module: MasmModule)
        ensures
            module.path == path,
            module.procedures@.len() == 0,
    {
        MasmModule { path, procedures: Vec::new() }
    }

    /// Defines a procedure, unless there is one of the same name.
    pub fn define_procedure(&mut self, procedure: Procedure) -> (result: Result<
        (),
        DuplicateProcedure,
    >)
        ensures
            final(self).path == old(self).path,
            match result {
                Ok(_) => !defines(old(self).procedures@, procedure.name@) && final(
                    self).procedures@ == old(self).procedures@.push(procedure),
                Err(_) => defines(old(self).procedures@, procedure.name@) && final(self).procedures
                    == old(self).procedures,
            },
    {
        let mut i: usize = 0;
        while i < self.procedures.len()
            invariant
                i <= self.procedures@.len(),
                *self == *old(self),
                forall|j: int|
                    0 <= j < i ==> (#[trigger] self.procedures@[j]).name@ != procedure.name@,
            decreases self.procedures@.len() - i,
        {
            if same_text(self.procedures[i].name.as_str(), procedure.name.as_str()) {
                return Err(DuplicateProcedure {  });
            }
            i = i + 1;
        }
        self.procedures.push(procedure);
        Ok(())
    }

    fn define_all(&mut self, procedures: Vec<Procedure>) -> (result: Result<(), DuplicateProcedure>)
        requires
            distinct(old(self).procedures@),
        ensures
            final(self).path == old(self).path,
            match result {
                Ok(_) => {
                    &&& final(self).procedures@ == old(self).procedures@ + procedures@
                    &&& distinct(final(self).procedures@)
                },
                Err(_) => !distinct(old(self).procedures@ + procedures@),
            },
    {
        let ghost first = self.procedures@;
        let ghost more = procedures@;
        assert(first + more.take(0) =~= first);
        for procedure in iter: procedures.into_iter()
            invariant
                iter.seq() == more,
                self.path == old(self).path,
                self.procedures@ == first + more.take(iter.index() as int),
                distinct(self.procedures@),
                first == old(self).procedures@,
        {
            let ghost i = iter.index() as int;
            let ghost done = self.procedures@;
            proof {
                adding_keeps_names(done, procedure);
                assert(first + more.take(i + 1) =~= done.push(procedure));
                assert(first + more =~= done.push(procedure) + more.skip(i + 1));
                if distinct(first + more) {
                    prefixes_are_distinct(done.push(procedure), more.skip(i + 1));
                }
            }
            match self.define_procedure(procedure) {
                Err(e) => {
                    return Err(e);
                },
                Ok(_) => {},
            }
        }
        assert(more.take(more.len() as int) =~= more);
        Ok(())
    }
}

/// A part of a module.
pub enum ModuleItem {
    Function(Procedure),
    /// A global variable, and the code that computes its initial value and stores it; there is
    /// none for a declaration
    GlobalVariable { initializer: Option<Vec<Op>> },
    /// A data segment, which the component initializes
    Segment,
}

/// The procedures of the first `n` parts of a module.
pub open spec fn functions_of(items: Seq<ModuleItem>, n: int) -> Seq<Procedure>
    decreases n,
{
    if n <= 0 {
        Seq::empty()
    } else {
        match items[n - 1] {
            ModuleItem::Function(procedure) => functions_of(items, n - 1).push(procedure),
            _ => functions_of(items, n - 1),
        }
    }
}

/// The code that initializes the global variables among the first `n` parts of a module.
pub open spec fn initializers_of(items: Seq<ModuleItem>, n: int) -> Seq<Op>
    decreases n,
{
    if n <= 0 {
        Seq::empty()
    } else {
        match items[n - 1] {
            ModuleItem::GlobalVariable { initializer: Some(code) } => initializers_of(items, n - 1)
                + code@,
            _ => initializers_of(items, n - 1),
        }
    }
}

proof fn later_names_stay(first: Seq<Procedure>, items: Seq<ModuleItem>, n: int)
    requires
        0 <= n <= items.len(),
    ensures
        distinct(first + functions_of(items, items.len() as int)) ==> distinct(
            first + functions_of(items, n),
        ),
    decreases items.len() - n,
{
    if n < items.len() {
        later_names_stay(first, items, n + 1);
        let now = first + functions_of(items, n);
        let next = first + functions_of(items, n + 1);
        if distinct(next) {
            let more = next.skip(now.len() as int);
            assert(next =~= now + more);
            prefixes_are_distinct(now, more);
        }
    }
}

/// Builds a module, and the code that initializes its global variables.
pub struct MasmModuleBuilder {
    pub module: MasmModule,
    pub init_body: Vec<Op>,
}

impl MasmModuleBuilder {
    /// Defines the procedure of a function.
    pub fn define_function(&mut self, procedure: Procedure) -> (result: Result<
        (),
        DuplicateProcedure,
    >)
        ensures
            final(self).module.path == old(self).module.path,
            final(self).init_body == old(self).init_body,
            match result {
                Ok(_) => !defines(old(self).module.procedures@, procedure.name@) && final(
                    self).module.procedures@ == old(self).module.procedures@.push(procedure),
                Err(_) => defines(old(self).module.procedures@, procedure.name@) && final(
                    self).module.procedures == old(self).module.procedures,
            },
    {
        self.module.define_procedure(procedure)
    }

    /// Appends the code that initializes a global variable; a declaration needs none.
    pub fn emit_global_variable_initializer(&mut self, initializer: Option<Vec<Op>>)
        ensures
            final(self).module == old(self).module,
            final(self).init_body@ == match initializer {
                Some(code) => old(self).init_body@ + code@,
                None => old(self).init_body@,
            },
    {
        if let Some(code) = initializer {
            let mut code = code;
            self.init_body.append(&mut code);
        }
    }

    /// Adds the parts of a module.
    pub fn build(&mut self, items: Vec<ModuleItem>) -> (result: Result<(), DuplicateProcedure>)
        requires
            distinct(old(self).module.procedures@),
        ensures
            final(self).module.path == old(self).module.path,
            ({
                let n = items@.len() as int;
                let all = old(self).module.procedures@ + functions_of(items@, n);
                match result {
                    Ok(_) => {
                        &&& distinct(all)
                        &&& final(self).module.procedures@ == all
                        &&& final(self).init_body@ == old(self).init_body@ + initializers_of(
                            items@,
                            n,
                        )
                    },
                    Err(_) => !distinct(all),
                }
            }),
    {
        let ghost all = items@;
        let ghost first = self.module.procedures@;
        let ghost begun = self.init_body@;
        assert(first + functions_of(all, 0) =~= first);
        assert(begun + initializers_of(all, 0) =~= begun);
        for item in iter: items.into_iter()
            invariant
                iter.seq() == all,
                self.module.path == old(self).module.path,
                distinct(self.module.procedures@),
                self.module.procedures@ == first + functions_of(all, iter.index() as int),
                self.init_body@ == begun + initializers_of(all, iter.index() as int),
                first == old(self).module.procedures@,
                begun == old(self).init_body@,
        {
            let ghost i = iter.index() as int;
            let ghost done = self.module.procedures@;
            assert(item == all[i]);
            match item {
                ModuleItem::Function(procedure) => {
                    proof {
                        adding_keeps_names(done, procedure);
                        assert(first + functions_of(all, i + 1) =~= done.push(procedure));
                        later_names_stay(first, all, i + 1);
                    }
                    match self.define_function(procedure) {
                        Err(e) => {
                            return Err(e);
                        },
                        Ok(_) => {},
                    }
                },
                ModuleItem::GlobalVariable { initializer } => {
                    self.emit_global_variable_initializer(initializer);
                    assert(self.init_body@ =~= begun + initializers_of(all, i + 1));
                },
                ModuleItem::Segment => {},
            }
        }
        Ok(())
    }

    /// Adds the functions of an interface.
    pub fn build_from_interface(&mut self, procedures: Vec<Procedure>) -> (result: Result<
        (),
        DuplicateProcedure,
    >)
        requires
            distinct(old(self).module.procedures@),
        ensures
            final(self).module.path == old(self).module.path,
            final(self).init_body == old(self).init_body,
            ({
                let all = old(self).module.procedures@ + procedures@;
                match result {
                    Ok(_) => distinct(all) && final(self).module.procedures@ == all,
                    Err(_) => !distinct(all),
                }
            }),
    {
        self.module.define_all(procedures)
    }
}

} // verus!
