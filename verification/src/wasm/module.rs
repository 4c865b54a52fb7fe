//! The translation of a module.
use vstd::prelude::*;
use crate::symbol::{Interner, Symbol};
use crate::text::{self, chars_of, find_from, push_decimal};
use crate::types::{Immediate, ScalarType};
use crate::wasm::builder::{Built, FunctionBuilder};
use crate::wasm::control::WasmError;
use crate::wasm::debug_info::LocalDecl;
use crate::wasm::function::{self, is_valid_function, BodyOperator, FuncTranslator};
use crate::wasm::operator::{self, ir_type, FuncEnv, ValType};

verus! {

/// Who can see an item.
#[derive(Clone, Copy, PartialEq, Eq, Debug, Hash, Structural)]
pub enum Visibility {
    Public,
    Private,
}

/// Why a module cannot be translated.
#[derive(Clone, Copy, PartialEq, Eq, Debug, Structural)]
pub enum ModuleError {
    /// The type of the global of this index cannot be translated
    UnsupportedType(u32),
    /// The initial value of the global of this index is no constant
    InvalidInitializer(u32),
    /// The name of the global of this index is taken
    DuplicateName(u32),
    /// The offset of the data segment of this index is no constant
    InvalidOffset(u32),
    /// A function cannot be translated
    Function(WasmError),
}

/// A global of a module.
pub struct GlobalSource {
    pub name: Option<Symbol>,
    pub ty: ValType,
    pub exported: bool,
    /// The initial value; none if it is no constant
    pub init: Option<Immediate>,
}

/// A global variable.
#[derive(Clone, Copy, PartialEq, Eq, Debug, Structural)]
pub struct GlobalVariable {
    pub name: Symbol,
    pub visibility: Visibility,
    pub ty: ScalarType,
    pub init: Immediate,
}

/// A data segment of a module.
pub struct DataSegmentSource {
    pub name: Symbol,
    /// The offset; none if it is no constant
    pub offset: Option<i32>,
    pub data: Vec<u8>,
}

/// Bytes that are in memory when a program starts.
pub struct DataSegment {
    pub offset: u32,
    pub init: Vec<u8>,
    pub readonly: bool,
}

/// The name of a global: its own, or else its index after `gv`.
pub open spec fn global_name(global: GlobalSource, index: int, interner: &Interner) -> Seq<char> {
    match global.name {
        Some(name) => interner.text(name),
        None => "gv"@ + text::decimal(index as nat),
    }
}

/// The names that are given are known.
pub open spec fn globals_known(globals: Seq<GlobalSource>, interner: &Interner) -> bool {
    forall|i: int|
        0 <= i < globals.len() ==> ((#[trigger] globals[i]).name matches Some(name)
            ==> interner.knows(name))
}

/// Two of the first globals up to the given one have the same name, or the given one has a name
/// that is taken.
pub open spec fn name_taken(
    taken: Seq<Seq<char>>,
    globals: Seq<GlobalSource>,
    index: int,
    interner: &Interner,
) -> bool {
    let name = global_name(globals[index], index, interner);
    taken.contains(name) || exists|j: int|
        0 <= j < index && global_name(#[trigger] globals[j], j, interner) == name
}

/// What is wrong with the global of the given index, if anything.
pub open spec fn global_flaw(
    taken: Seq<Seq<char>>,
    globals: Seq<GlobalSource>,
    index: int,
    interner: &Interner,
) -> Option<ModuleError> {
    if globals[index].init is None {
        Some(ModuleError::InvalidInitializer(index as u32))
    } else if operator::scalar_of(globals[index].ty) is None {
        Some(ModuleError::UnsupportedType(index as u32))
    } else if name_taken(taken, globals, index, interner) {
        Some(ModuleError::DuplicateName(index as u32))
    } else {
        None
    }
}

/// What is wrong with the first of the first `n` globals with which something is.
pub open spec fn globals_flaw(
    taken: Seq<Seq<char>>,
    globals: Seq<GlobalSource>,
    n: int,
    interner: &Interner,
) -> Option<ModuleError>
    decreases n,
{
    if n <= 0 {
        None
    } else if globals_flaw(taken, globals, n - 1, interner) is Some {
        globals_flaw(taken, globals, n - 1, interner)
    } else {
        global_flaw(taken, globals, n - 1, interner)
    }
}

/// `variable` is the variable for the global of the given index.
pub open spec fn is_global(
    variable: GlobalVariable,
    global: GlobalSource,
    index: int,
    before: &Interner,
    after: &Interner,
) -> bool {
    &&& after.knows(variable.name)
    &&& after.text(variable.name) == global_name(global, index, before)
    &&& variable.visibility == if global.exported {
        Visibility::Public
    } else {
        Visibility::Private
    }
    &&& operator::scalar_of(global.ty) == Some(variable.ty)
    &&& global.init == Some(variable.init)
}

proof fn global_flaws_stay(
    taken: Seq<Seq<char>>,
    globals: Seq<GlobalSource>,
    n: int,
    m: int,
    interner: &Interner,
)
    requires
        0 <= n <= m,
        globals_flaw(taken, globals, n, interner) is Some,
    ensures
        globals_flaw(taken, globals, m, interner) == globals_flaw(taken, globals, n, interner),
    decreases m - n,
{
    if n < m {
        global_flaws_stay(taken, globals, n, m - 1, interner);
    }
}

/// The texts of symbols.
pub open spec fn symbol_texts(symbols: Seq<Symbol>, interner: &Interner) -> Seq<Seq<char>> {
    symbols.map_values(|s: Symbol| interner.text(s))
}

/// Every symbol is known.
pub open spec fn all_known(symbols: Seq<Symbol>, interner: &Interner) -> bool {
    forall|i: int| 0 <= i < symbols.len() ==> interner.knows(#[trigger] symbols[i])
}

fn holds_symbol(symbols: &Vec<Symbol>, symbol: Symbol) -> (b: bool)
    ensures
        b == symbols@.contains(symbol),
{
    let mut i: usize = 0;
    while i < symbols.len()
        invariant
            i <= symbols@.len(),
            forall|j: int| 0 <= j < i ==> symbols@[j] != symbol,
        decreases symbols@.len() - i,
    {
        if symbols[i] == symbol {
            return true;
        }
        i = i + 1;
    }
    false
}

fn holds_global(globals: &Vec<GlobalVariable>, name: Symbol) -> (b: bool)
    ensures
        b == exists|j: int| 0 <= j < globals@.len() && (#[trigger] globals@[j]).name == name,
{
    let mut i: usize = 0;
    while i < globals.len()
        invariant
            i <= globals@.len(),
            forall|j: int| 0 <= j < i ==> (#[trigger] globals@[j]).name != name,
        decreases globals@.len() - i,
    {
        if globals[i].name == name {
            return true;
        }
        i = i + 1;
    }
    false
}

/// Declares the globals of a module, in which the given names are taken.
pub fn build_globals(
    taken: &Vec<Symbol>,
    globals: &Vec<GlobalSource>,
    interner: &mut Interner,
) -> (variables: Result<Vec<GlobalVariable>, ModuleError>)
    requires
        old(interner).wf(),
        old(interner)@.len() + globals@.len() < u32::MAX,
        globals_known(globals@, old(interner)),
        all_known(taken@, old(interner)),
    ensures
        final(interner).wf(),
        final(interner).extends(old(interner)),
        final(interner)@.len() <= old(interner)@.len() + globals@.len(),
        match variables {
            Ok(variables) => {
                &&& globals_flaw(
                    symbol_texts(taken@, old(interner)),
                    globals@,
                    globals@.len() as int,
                    old(interner),
                ) is None
                &&& variables@.len() == globals@.len()
                &&& forall|i: int|
                    0 <= i < variables@.len() ==> is_global(
                        #[trigger] variables@[i],
                        globals@[i],
                        i,
                        old(interner),
                        final(interner),
                    )
            },
            Err(e) => globals_flaw(
                symbol_texts(taken@, old(interner)),
                globals@,
                globals@.len() as int,
                old(interner),
            ) == Some(e),
        },
{
    let mut variables: Vec<GlobalVariable> = Vec::new();
    let ghost texts = symbol_texts(taken@, old(interner));
    let ghost first = *interner;
    let mut i: usize = 0;
    while i < globals.len()
        invariant
            i <= globals@.len(),
            first == *old(interner),
            texts == symbol_texts(taken@, &first),
            first@.len() + globals@.len() < u32::MAX,
            globals_known(globals@, &first),
            all_known(taken@, &first),
            interner.wf(),
            interner.extends(&first),
            interner@.len() <= first@.len() + i,
            variables@.len() == i,
            globals_flaw(texts, globals@, i as int, &first) is None,
            forall|j: int|
                0 <= j < i ==> is_global(
                    #[trigger] variables@[j],
                    globals@[j],
                    j,
                    &first,
                    interner,
                ),
        decreases globals@.len() - i,
    {
        let global = &globals[i];
        let ghost before = *interner;
        assert(globals@[i as int].name matches Some(name) ==> first.knows(name));
        let name = match global.name {
            Some(name) => name,
            None => {
                let mut out = String::new();
                out.append("gv");
                push_decimal(&mut out, i as u64);
                interner.intern(out.as_str())
            },
        };
        proof {
            if let Some(given) = global.name {
                assert(interner@[given.index as int] == first@[given.index as int]);
            }
        }
        assert(interner.text(name) == global_name(*global, i as int, &first));
        let init = match global.init {
            None => {
                proof {
                    global_flaws_stay(texts, globals@, i + 1, globals@.len() as int, &first);
                }
                return Err(ModuleError::InvalidInitializer(i as u32));
            },
            Some(init) => init,
        };
        let ty = match ir_type(global.ty) {
            None => {
                proof {
                    global_flaws_stay(texts, globals@, i + 1, globals@.len() as int, &first);
                }
                return Err(ModuleError::UnsupportedType(i as u32));
            },
            Some(ty) => ty,
        };
        let duplicate = holds_symbol(taken, name) || holds_global(&variables, name);
        proof {
            let wanted = interner.text(name);
            if texts.contains(wanted) {
                let k = choose|k: int| 0 <= k < texts.len() && texts[k] == wanted;
                assert(first.knows(taken@[k]));
                assert(interner@[taken@[k].index as int] == first@[taken@[k].index as int]);
                assert(taken@[k] == name);
            }
            if taken@.contains(name) {
                let k = choose|k: int| 0 <= k < taken@.len() && taken@[k] == name;
                assert(first.knows(taken@[k]));
                assert(interner@[taken@[k].index as int] == first@[taken@[k].index as int]);
                assert(texts[k] == wanted);
            }
            assert forall|j: int| 0 <= j < i implies ((#[trigger] variables@[j]).name == name
                <==> global_name(globals@[j], j, &first) == wanted) by {
                assert(is_global(variables@[j], globals@[j], j, &first, &before));
                assert(interner@[variables@[j].name.index as int]
                    == before@[variables@[j].name.index as int]);
            }
            if exists|j: int|
                0 <= j < i && global_name(#[trigger] globals@[j], j, &first) == wanted {
                let j = choose|j: int|
                    0 <= j < i && global_name(#[trigger] globals@[j], j, &first) == wanted;
                assert(variables@[j].name == name);
            }
            if exists|j: int| 0 <= j < i && (#[trigger] variables@[j]).name == name {
                let j = choose|j: int| 0 <= j < i && (#[trigger] variables@[j]).name == name;
                assert(global_name(globals@[j], j, &first) == wanted);
            }
            assert(duplicate == name_taken(texts, globals@, i as int, &first));
        }
        if duplicate {
            proof {
                global_flaws_stay(texts, globals@, i + 1, globals@.len() as int, &first);
            }
            return Err(ModuleError::DuplicateName(i as u32));
        }
        let visibility = if global.exported {
            Visibility::Public
        } else {
            Visibility::Private
        };
        let ghost done = variables@;
        variables.push(GlobalVariable { name, visibility, ty, init });
        assert forall|j: int| 0 <= j < i + 1 implies is_global(
            #[trigger] variables@[j],
            globals@[j],
            j,
            &first,
            interner,
        ) by {
            if j < i {
                assert(variables@[j] == done[j]);
                assert(is_global(done[j], globals@[j], j, &first, &before));
                assert(interner@[done[j].name.index as int] == before@[done[j].name.index as int]);
            }
        }
        i = i + 1;
    }
    Ok(variables)
}

/// The names of the data segments are known.
pub open spec fn segments_known(segments: Seq<DataSegmentSource>, interner: &Interner) -> bool {
    forall|i: int| 0 <= i < segments.len() ==> interner.knows((#[trigger] segments[i]).name)
}

/// The first of the first `n` data segments whose offset is no constant.
pub open spec fn segments_flaw(segments: Seq<DataSegmentSource>, n: int) -> Option<ModuleError>
    decreases n,
{
    if n <= 0 {
        None
    } else if segments_flaw(segments, n - 1) is Some {
        segments_flaw(segments, n - 1)
    } else if segments[n - 1].offset is None {
        Some(ModuleError::InvalidOffset((n - 1) as u32))
    } else {
        None
    }
}

proof fn segment_flaws_stay(segments: Seq<DataSegmentSource>, n: int, m: int)
    requires
        0 <= n <= m,
        segments_flaw(segments, n) is Some,
    ensures
        segments_flaw(segments, m) == segments_flaw(segments, n),
    decreases m - n,
{
    if n < m {
        segment_flaws_stay(segments, n, m - 1);
    }
}

/// `segment` is the segment for a data segment of a module. It is read-only if the name holds
/// `.rodata`.
pub open spec fn is_segment(
    segment: DataSegment,
    source: DataSegmentSource,
    interner: &Interner,
) -> bool {
    &&& source.offset matches Some(offset) && segment.offset == offset as u32
    &&& segment.init@ == source.data@
    &&& segment.readonly == (text::place_from(
        interner.text(source.name),
        ".rodata"@,
        0,
    ) is Some)
}

fn copy_bytes(bytes: &Vec<u8>) -> (copy: Vec<u8>)
    ensures
        copy@ == bytes@,
{
    let mut copy: Vec<u8> = Vec::new();
    let mut i: usize = 0;
    while i < bytes.len()
        invariant
            i <= bytes@.len(),
            copy@ == bytes@.take(i as int),
        decreases bytes@.len() - i,
    {
        copy.push(bytes[i]);
        assert(bytes@.take(i + 1) == bytes@.take(i as int).push(bytes@[i as int]));
        i = i + 1;
    }
    assert(bytes@.take(bytes@.len() as int) == bytes@);
    copy
}

/// Declares the data segments of a module.
pub fn build_data_segments(sources: &Vec<DataSegmentSource>, interner: &Interner) -> (segments: Result<
    Vec<DataSegment>,
    ModuleError,
>)
    requires
        segments_known(sources@, interner),
        sources@.len() <= u32::MAX,
    ensures
        match segments {
            Ok(segments) => {
                &&& segments_flaw(sources@, sources@.len() as int) is None
                &&& segments@.len() == sources@.len()
                &&& forall|i: int|
                    0 <= i < segments@.len() ==> is_segment(
                        #[trigger] segments@[i],
                        sources@[i],
                        interner,
                    )
            },
            Err(e) => segments_flaw(sources@, sources@.len() as int) == Some(e),
        },
{
    let mut segments: Vec<DataSegment> = Vec::new();
    let pattern = chars_of(".rodata");
    let mut i: usize = 0;
    while i < sources.len()
        invariant
            i <= sources@.len() <= u32::MAX,
            pattern@ == ".rodata"@,
            segments_known(sources@, interner),
            segments_flaw(sources@, i as int) is None,
            segments@.len() == i,
            forall|j: int|
                0 <= j < i ==> is_segment(#[trigger] segments@[j], sources@[j], interner),
        decreases sources@.len() - i,
    {
        let source = &sources[i];
        assert(interner.knows(sources@[i as int].name));
        let name = chars_of(interner.as_str(source.name));
        let readonly = find_from(&name, &pattern, 0).is_some();
        let offset = match source.offset {
            None => {
                proof {
                    segment_flaws_stay(sources@, i + 1, sources@.len() as int);
                }
                return Err(ModuleError::InvalidOffset(i as u32));
            },
            Some(offset) => offset as u32,
        };
        segments.push(DataSegment { offset, init: copy_bytes(&source.data), readonly });
        i = i + 1;
    }
    Ok(segments)
}

/// A function of a module.
pub struct FunctionInput {
    pub name: Symbol,
    pub env: FuncEnv,
    pub params: Vec<ScalarType>,
    pub results: Vec<ScalarType>,
    pub decls: Vec<LocalDecl>,
    pub ops: Vec<BodyOperator>,
    /// Whether the body stands for a function that is linked later
    pub is_stub: bool,
}

impl FunctionInput {
    /// The body of the function is valid.
    pub open spec fn valid(&self) -> bool {
        function::function_valid(
            &self.env,
            self.params@,
            self.results@,
            self.decls@,
            self.ops@,
        )
    }

    /// Whether the body of the function is valid.
    pub fn is_valid(&self) -> (b: bool)
        ensures
            b == self.valid(),
    {
        is_valid_function(&self.env, &self.params, &self.results, &self.decls, &self.ops)
    }

    /// What the function is translated to.
    pub open spec fn translated(&self) -> (Built, Result<(), WasmError>) {
        let (t, result) = function::function_translated(
            &self.env,
            self.params@,
            self.results@,
            self.decls@,
            self.ops@,
        );
        (t.b, result)
    }
}

/// A translated function.
pub struct IrFunction {
    pub name: Symbol,
    pub body: FunctionBuilder,
}

/// A translated module.
pub struct IrModule {
    pub globals: Vec<GlobalVariable>,
    pub segments: Vec<DataSegment>,
    pub functions: Vec<IrFunction>,
}

/// The names and bodies of functions.
pub open spec fn bodies(functions: Seq<IrFunction>) -> Seq<(Symbol, Built)> {
    functions.map_values(|f: IrFunction| (f.name, f.body@))
}

/// The first `n` functions, without those that are linked later, up to the first one that cannot
/// be translated.
pub open spec fn functions_translated(inputs: Seq<FunctionInput>, n: int) -> Result<
    Seq<(Symbol, Built)>,
    WasmError,
>
    decreases n,
{
    if n <= 0 {
        Ok(Seq::empty())
    } else {
        match functions_translated(inputs, n - 1) {
            Err(e) => Err(e),
            Ok(before) => if inputs[n - 1].is_stub {
                Ok(before)
            } else {
                match inputs[n - 1].translated() {
                    (body, Ok(_)) => Ok(before.push((inputs[n - 1].name, body))),
                    (_, Err(e)) => Err(e),
                }
            },
        }
    }
}

proof fn function_errors_stay(inputs: Seq<FunctionInput>, n: int, m: int)
    requires
        0 <= n <= m,
        functions_translated(inputs, n) is Err,
    ensures
        functions_translated(inputs, m) == functions_translated(inputs, n),
    decreases m - n,
{
    if n < m {
        function_errors_stay(inputs, n, m - 1);
    }
}

/// Translates the functions of a module that are not linked later.
pub fn translate_functions(inputs: &Vec<FunctionInput>) -> (functions: Result<
    Vec<IrFunction>,
    WasmError,
>)
    requires
        forall|i: int| 0 <= i < inputs@.len() ==> (#[trigger] inputs@[i]).valid(),
    ensures
        match functions {
            Ok(functions) => functions_translated(inputs@, inputs@.len() as int) == Ok::<
                Seq<(Symbol, Built)>,
                WasmError,
            >(bodies(functions@)),
            Err(e) => functions_translated(inputs@, inputs@.len() as int) == Err::<
                Seq<(Symbol, Built)>,
                WasmError,
            >(e),
        },
{
    let mut functions: Vec<IrFunction> = Vec::new();
    let mut translator = FuncTranslator::new();
    let mut i: usize = 0;
    assert(bodies(functions@) == Seq::<(Symbol, Built)>::empty());
    while i < inputs.len()
        invariant
            i <= inputs@.len(),
            forall|i: int| 0 <= i < inputs@.len() ==> (#[trigger] inputs@[i]).valid(),
            functions_translated(inputs@, i as int) == Ok::<Seq<(Symbol, Built)>, WasmError>(
                bodies(functions@),
            ),
        decreases inputs@.len() - i,
    {
        let input = &inputs[i];
        assert(inputs@[i as int].valid());
        if !input.is_stub {
            match translator.translate_body(
                &input.env,
                &input.params,
                &input.results,
                &input.decls,
                &input.ops,
            ) {
                Err(e) => {
                    proof {
                        function_errors_stay(inputs@, i + 1, inputs@.len() as int);
                    }
                    return Err(e);
                },
                Ok(body) => {
                    let ghost before = functions@;
                    functions.push(IrFunction { name: input.name, body });
                    assert(bodies(functions@) == bodies(before).push((input.name, body@)));
                },
            }
        }
        i = i + 1;
    }
    Ok(functions)
}

/// Why a module cannot be translated: for its globals, for its data segments, or for one of its
/// functions.
pub open spec fn module_flaw(
    globals: Seq<GlobalSource>,
    segments: Seq<DataSegmentSource>,
    inputs: Seq<FunctionInput>,
    interner: &Interner,
) -> Option<ModuleError> {
    let taken = symbol_texts(inputs.map_values(|input: FunctionInput| input.name), interner);
    let globals_flaw = globals_flaw(taken, globals, globals.len() as int, interner);
    let segments_flaw = segments_flaw(segments, segments.len() as int);
    if globals_flaw is Some {
        globals_flaw
    } else if segments_flaw is Some {
        segments_flaw
    } else {
        match functions_translated(inputs, inputs.len() as int) {
            Err(e) => Some(ModuleError::Function(e)),
            Ok(_) => None,
        }
    }
}

/// The module is the translation of its globals, data segments and functions.
pub open spec fn is_module(
    module: IrModule,
    globals: Seq<GlobalSource>,
    segments: Seq<DataSegmentSource>,
    inputs: Seq<FunctionInput>,
    before: &Interner,
    after: &Interner,
) -> bool {
    &&& module.globals@.len() == globals.len()
    &&& forall|i: int|
        0 <= i < globals.len() ==> is_global(
            #[trigger] module.globals@[i],
            globals[i],
            i,
            before,
            after,
        )
    &&& module.segments@.len() == segments.len()
    &&& forall|i: int|
        0 <= i < segments.len() ==> is_segment(
            #[trigger] module.segments@[i],
            segments[i],
            before,
        )
    &&& functions_translated(inputs, inputs.len() as int) == Ok::<Seq<(Symbol, Built)>, WasmError>(
        bodies(module.functions@),
    )
}

/// Translates a module: its globals, its data segments and its functions.
pub fn build_ir_module(
    globals: &Vec<GlobalSource>,
    segments: &Vec<DataSegmentSource>,
    inputs: &Vec<FunctionInput>,
    interner: &mut Interner,
) -> (module: Result<IrModule, ModuleError>)
    requires
        old(interner).wf(),
        old(interner)@.len() + globals@.len() < u32::MAX,
        segments@.len() <= u32::MAX,
        globals_known(globals@, old(interner)),
        segments_known(segments@, old(interner)),
        forall|i: int|
            0 <= i < inputs@.len() ==> (#[trigger] inputs@[i]).valid() && old(interner).knows(
                inputs@[i].name,
            ),
    ensures
        final(interner).wf(),
        final(interner).extends(old(interner)),
        final(interner)@.len() <= old(interner)@.len() + globals@.len(),
        match module {
            Ok(module) => module_flaw(globals@, segments@, inputs@, old(interner)) is None
                && is_module(module, globals@, segments@, inputs@, old(interner), final(interner)),
            Err(e) => module_flaw(globals@, segments@, inputs@, old(interner)) == Some(e),
        },
{
    let ghost names = inputs@.map_values(|input: FunctionInput| input.name);
    let mut taken: Vec<Symbol> = Vec::new();
    let mut i: usize = 0;
    while i < inputs.len()
        invariant
            i <= inputs@.len(),
            names == inputs@.map_values(|input: FunctionInput| input.name),
            taken@ == names.take(i as int),
        decreases inputs@.len() - i,
    {
        taken.push(inputs[i].name);
        assert(names.take(i + 1) == names.take(i as int).push(names[i as int]));
        i = i + 1;
    }
    assert(names.take(names.len() as int) == names);
    assert(all_known(taken@, interner)) by {
        assert forall|i: int| 0 <= i < taken@.len() implies interner.knows(#[trigger] taken@[i]) by {
            assert(taken@[i] == inputs@[i].name);
        }
    }
    let ghost first = *interner;
    let globals_built = match build_globals(&taken, globals, interner) {
        Err(e) => return Err(e),
        Ok(built) => built,
    };
    assert(segments_known(segments@, interner)) by {
        assert forall|i: int| 0 <= i < segments@.len() implies interner.knows(
            (#[trigger] segments@[i]).name,
        ) by {
            assert(first.knows(segments@[i].name));
        }
    }
    let segments_built = match build_data_segments(segments, interner) {
        Err(e) => return Err(e),
        Ok(built) => built,
    };
    assert forall|i: int| 0 <= i < segments@.len() implies is_segment(
        #[trigger] segments_built@[i],
        segments@[i],
        &first,
    ) by {
        assert(is_segment(segments_built@[i], segments@[i], interner));
        assert(first.knows(segments@[i].name));
        assert(interner@[segments@[i].name.index as int]
            == first@[segments@[i].name.index as int]);
    }
    match translate_functions(inputs) {
        Err(e) => Err(ModuleError::Function(e)),
        Ok(functions) => Ok(
            IrModule { globals: globals_built, segments: segments_built, functions },
        ),
    }
}

/// What a module may be named after.
pub struct ModuleNames {
    /// The name that the module gives itself
    pub own: Option<Symbol>,
    /// The name of where the module stems from
    pub fallback: Symbol,
    /// The name that the user wants
    pub wanted: Option<Symbol>,
}

impl ModuleNames {
    /// The name of the module: that which the user wants, else its own, else that of where it
    /// stems from.
    pub open spec fn chosen(self) -> Symbol {
        match (self.wanted, self.own) {
            (Some(name), _) => name,
            (None, Some(name)) => name,
            (None, None) => self.fallback,
        }
    }
}

/// A component that was made of one module.
pub struct IrComponent {
    pub namespace: &'static str,
    pub name: &'static str,
    pub version: &'static str,
    /// The name of the module of the component
    pub module_name: Symbol,
    pub module: IrModule,
}

/// Translates a module as the only one of a component, which gets the name `root_ns:root@1.0.0`.
pub fn translate_module_as_component(
    names: ModuleNames,
    globals: &Vec<GlobalSource>,
    segments: &Vec<DataSegmentSource>,
    inputs: &Vec<FunctionInput>,
    interner: &mut Interner,
) -> (component: Result<IrComponent, ModuleError>)
    requires
        old(interner).wf(),
        old(interner)@.len() + globals@.len() < u32::MAX,
        segments@.len() <= u32::MAX,
        globals_known(globals@, old(interner)),
        segments_known(segments@, old(interner)),
        forall|i: int|
            0 <= i < inputs@.len() ==> (#[trigger] inputs@[i]).valid() && old(interner).knows(
                inputs@[i].name,
            ),
    ensures
        final(interner).wf(),
        final(interner).extends(old(interner)),
        final(interner)@.len() <= old(interner)@.len() + globals@.len(),
        match component {
            Ok(component) => {
                &&& module_flaw(globals@, segments@, inputs@, old(interner)) is None
                &&& component.namespace@ == "root_ns"@
                &&& component.name@ == "root"@
                &&& component.version@ == "1.0.0"@
                &&& component.module_name == names.chosen()
                &&& is_module(
                    component.module,
                    globals@,
                    segments@,
                    inputs@,
                    old(interner),
                    final(interner),
                )
            },
            Err(e) => module_flaw(globals@, segments@, inputs@, old(interner)) == Some(e),
        },
{
    let module = build_ir_module(globals, segments, inputs, interner)?;
    let module_name = match (names.wanted, names.own) {
        (Some(name), _) => name,
        (None, Some(name)) => name,
        (None, None) => names.fallback,
    };
    Ok(
        IrComponent {
            namespace: "root_ns",
            name: "root",
            version: "1.0.0",
            module_name,
            module,
        },
    )
}

} // verus!
