//! Attributes that carry debug information.
use vstd::prelude::*;
use vstd::string::*;
use crate::hir::types::Type;
use crate::symbol::{Interner, Symbol};
use crate::text::{self, push_decimal, push_signed};

verus! {

/// The compilation unit that debug information belongs to.
#[derive(Clone, Copy, PartialEq, Eq, Debug, Hash, Structural)]
pub struct DICompileUnitAttr {
    pub language: Symbol,
    pub file: Symbol,
    pub directory: Option<Symbol>,
    pub producer: Option<Symbol>,
    pub optimized: bool,
}

/// The symbol is known, if there is one.
pub open spec fn knows_opt(interner: &Interner, symbol: Option<Symbol>) -> bool {
    symbol matches Some(symbol) ==> interner.knows(symbol)
}

/// `label` and the text of the symbol, if there is one.
pub open spec fn symbol_part(interner: &Interner, label: Seq<char>, symbol: Option<Symbol>) -> Seq<
    char,
> {
    match symbol {
        Some(symbol) => label + interner.text(symbol),
        None => Seq::empty(),
    }
}

/// `label` and the number, if there is one.
pub open spec fn number_part(label: Seq<char>, number: Option<u32>) -> Seq<char> {
    match number {
        Some(number) => label + text::decimal(number as nat),
        None => Seq::empty(),
    }
}

/// `label`, if the flag is set.
pub open spec fn flag_part(label: Seq<char>, flag: bool) -> Seq<char> {
    if flag {
        label
    } else {
        Seq::empty()
    }
}

fn push_symbol(out: &mut String, interner: &Interner, label: &str, symbol: Option<Symbol>)
    requires
        knows_opt(interner, symbol),
    ensures
        final(out)@ == old(out)@ + symbol_part(interner, label@, symbol),
{
    if let Some(symbol) = symbol {
        out.append(label);
        out.append(interner.as_str(symbol));
    }
    assert(out@ == old(out)@ + symbol_part(interner, label@, symbol));
}

fn push_number(out: &mut String, label: &str, number: Option<u32>)
    ensures
        final(out)@ == old(out)@ + number_part(label@, number),
{
    if let Some(number) = number {
        out.append(label);
        push_decimal(out, number as u64);
    }
    assert(out@ == old(out)@ + number_part(label@, number));
}

fn push_flag(out: &mut String, label: &str, flag: bool)
    ensures
        final(out)@ == old(out)@ + flag_part(label@, flag),
{
    if flag {
        out.append(label);
    }
    assert(out@ == old(out)@ + flag_part(label@, flag));
}

impl DICompileUnitAttr {
    /// A unit of which only the language and the file are known.
    pub fn new(language: Symbol, file: Symbol) -> (attr: Self)
        ensures
            attr == (DICompileUnitAttr {
                language,
                file,
                directory: None,
                producer: None,
                optimized: false,
            }),
    {
        DICompileUnitAttr { language, file, directory: None, producer: None, optimized: false }
    }

    /// The symbols of the attribute are known.
    pub open spec fn known(self, interner: &Interner) -> bool {
        &&& interner.knows(self.language)
        &&& interner.knows(self.file)
        &&& knows_opt(interner, self.directory)
        &&& knows_opt(interner, self.producer)
    }

    /// The attribute as text.
    pub open spec fn rendered(self, interner: &Interner) -> Seq<char> {
        "di.compile_unit(language = "@ + interner.text(self.language) + ", file = "@
            + interner.text(self.file) + symbol_part(interner, ", directory = "@, self.directory)
            + symbol_part(interner, ", producer = "@, self.producer) + flag_part(
            ", optimized"@,
            self.optimized,
        ) + ")"@
    }

    /// The attribute as text.
    pub fn render(&self, interner: &Interner) -> (out: String)
        requires
            self.known(interner),
        ensures
            out@ == self.rendered(interner),
    {
        let mut out = String::new();
        out.append("di.compile_unit(language = ");
        out.append(interner.as_str(self.language));
        out.append(", file = ");
        out.append(interner.as_str(self.file));
        push_symbol(&mut out, interner, ", directory = ", self.directory);
        push_symbol(&mut out, interner, ", producer = ", self.producer);
        push_flag(&mut out, ", optimized", self.optimized);
        out.append(")");
        assert(out@ == self.rendered(interner));
        out
    }
}

/// A function, as a scope of debug information.
#[derive(Clone, Copy, PartialEq, Eq, Debug, Hash, Structural)]
pub struct DISubprogramAttr {
    pub name: Symbol,
    pub linkage_name: Option<Symbol>,
    pub file: Symbol,
    pub line: u32,
    pub column: Option<u32>,
    pub is_definition: bool,
    pub is_local: bool,
}

impl DISubprogramAttr {
    /// The definition of a function.
    pub fn new(name: Symbol, file: Symbol, line: u32, column: Option<u32>) -> (attr: Self)
        ensures
            attr == (DISubprogramAttr {
                name,
                linkage_name: None,
                file,
                line,
                column,
                is_definition: true,
                is_local: false,
            }),
    {
        DISubprogramAttr {
            name,
            linkage_name: None,
            file,
            line,
            column,
            is_definition: true,
            is_local: false,
        }
    }

    /// The symbols of the attribute are known.
    pub open spec fn known(self, interner: &Interner) -> bool {
        &&& interner.knows(self.name)
        &&& interner.knows(self.file)
        &&& knows_opt(interner, self.linkage_name)
    }

    /// The attribute as text.
    pub open spec fn rendered(self, interner: &Interner) -> Seq<char> {
        "di.subprogram(name = "@ + interner.text(self.name) + ", file = "@ + interner.text(
            self.file,
        ) + ", line = "@ + text::decimal(self.line as nat) + number_part(
            ", column = "@,
            self.column,
        ) + symbol_part(interner, ", linkage = "@, self.linkage_name) + flag_part(
            ", definition"@,
            self.is_definition,
        ) + flag_part(", local"@, self.is_local) + ")"@
    }

    /// The attribute as text.
    pub fn render(&self, interner: &Interner) -> (out: String)
        requires
            self.known(interner),
        ensures
            out@ == self.rendered(interner),
    {
        let mut out = String::new();
        out.append("di.subprogram(name = ");
        out.append(interner.as_str(self.name));
        out.append(", file = ");
        out.append(interner.as_str(self.file));
        out.append(", line = ");
        push_decimal(&mut out, self.line as u64);
        push_number(&mut out, ", column = ", self.column);
        push_symbol(&mut out, interner, ", linkage = ", self.linkage_name);
        push_flag(&mut out, ", definition", self.is_definition);
        push_flag(&mut out, ", local", self.is_local);
        out.append(")");
        assert(out@ == self.rendered(interner));
        out
    }
}

/// A local variable.
#[derive(PartialEq, Eq, Debug, Hash)]
pub struct DILocalVariableAttr {
    pub name: Symbol,
    /// The number of the parameter, from zero, if the variable is one
    pub arg_index: Option<u32>,
    pub file: Symbol,
    pub line: u32,
    pub column: Option<u32>,
    pub ty: Option<Type>,
}

impl DILocalVariableAttr {
    /// A variable of which only the name and the position are known.
    pub fn new(name: Symbol, file: Symbol, line: u32, column: Option<u32>) -> (attr: Self)
        ensures
            attr == (DILocalVariableAttr { name, arg_index: None, file, line, column, ty: None }),
    {
        DILocalVariableAttr { name, arg_index: None, file, line, column, ty: None }
    }

    /// The same variable.
    pub fn duplicate(&self) -> (copy: Self)
        ensures
            copy == *self,
    {
        let ty = match &self.ty {
            Some(ty) => Some(ty.duplicate()),
            None => None,
        };
        DILocalVariableAttr {
            name: self.name,
            arg_index: self.arg_index,
            file: self.file,
            line: self.line,
            column: self.column,
            ty,
        }
    }

    /// Whether the two variables are the same.
    pub fn is_same(&self, other: &Self) -> (b: bool)
        ensures
            b == (*self == *other),
    {
        let same_ty = match (&self.ty, &other.ty) {
            (Some(a), Some(b)) => a.is_same(b),
            (None, None) => true,
            _ => false,
        };
        same_ty && self.name == other.name && self.arg_index == other.arg_index && self.file
            == other.file && self.line == other.line && self.column == other.column
    }

    /// The symbols of the attribute are known.
    pub open spec fn known(self, interner: &Interner) -> bool {
        interner.knows(self.name) && interner.knows(self.file)
    }

    /// The attribute as text.
    pub open spec fn rendered(self, interner: &Interner) -> Seq<char> {
        "di.local_variable(name = "@ + interner.text(self.name) + ", file = "@ + interner.text(
            self.file,
        ) + ", line = "@ + text::decimal(self.line as nat) + number_part(
            ", column = "@,
            self.column,
        ) + number_part(", arg = "@, self.arg_index) + (match self.ty {
            Some(ty) => ", ty = "@ + ty.rendered(),
            None => Seq::empty(),
        }) + ")"@
    }

    /// The attribute as text.
    pub fn render(&self, interner: &Interner) -> (out: String)
        requires
            self.known(interner),
        ensures
            out@ == self.rendered(interner),
    {
        let mut out = String::new();
        out.append("di.local_variable(name = ");
        out.append(interner.as_str(self.name));
        out.append(", file = ");
        out.append(interner.as_str(self.file));
        out.append(", line = ");
        push_decimal(&mut out, self.line as u64);
        push_number(&mut out, ", column = ", self.column);
        push_number(&mut out, ", arg = ", self.arg_index);
        if let Some(ty) = &self.ty {
            out.append(", ty = ");
            out.append(ty.render().as_str());
        }
        out.append(")");
        assert(out@ == self.rendered(interner));
        out
    }
}

impl Clone for DILocalVariableAttr {
    fn clone(&self) -> (copy: Self)
        ensures
            copy == *self,
    {
        self.duplicate()
    }
}

/// An operation of an expression that says where a variable is.
#[derive(Clone, Copy, PartialEq, Eq, Debug, Hash, Structural)]
pub enum DIExpressionOp {
    /// The variable is in a WebAssembly local
    WasmLocal(u32),
    /// The variable is in a WebAssembly global
    WasmGlobal(u32),
    /// The variable is on the WebAssembly operand stack
    WasmStack(u32),
    /// An unsigned constant
    ConstU64(u64),
    /// A signed constant
    ConstS64(i64),
    /// Adds an unsigned constant to the top of the stack
    PlusUConst(u64),
    /// Subtracts the top two values of the stack
    Minus,
    /// Adds the top two values of the stack
    Plus,
    /// Reads the address on top of the stack
    Deref,
    /// The value on the stack is the value of the variable
    StackValue,
    /// A piece of a variable
    Piece(u64),
    /// A piece of a variable, in bits
    BitPiece { size: u64, offset: u64 },
    /// An operation that is not supported
    Unsupported(Symbol),
}

impl DIExpressionOp {
    /// The symbols of the operation are known.
    pub open spec fn known(self, interner: &Interner) -> bool {
        self matches DIExpressionOp::Unsupported(name) ==> interner.knows(name)
    }

    /// The operation as text.
    pub open spec fn rendered(self, interner: &Interner) -> Seq<char> {
        match self {
            DIExpressionOp::WasmLocal(n) => "DW_OP_WASM_local "@ + text::decimal(n as nat),
            DIExpressionOp::WasmGlobal(n) => "DW_OP_WASM_global "@ + text::decimal(n as nat),
            DIExpressionOp::WasmStack(n) => "DW_OP_WASM_stack "@ + text::decimal(n as nat),
            DIExpressionOp::ConstU64(n) => "DW_OP_constu "@ + text::decimal(n as nat),
            DIExpressionOp::ConstS64(n) => "DW_OP_consts "@ + text::signed(n as int),
            DIExpressionOp::PlusUConst(n) => "DW_OP_plus_uconst "@ + text::decimal(n as nat),
            DIExpressionOp::Minus => "DW_OP_minus"@,
            DIExpressionOp::Plus => "DW_OP_plus"@,
            DIExpressionOp::Deref => "DW_OP_deref"@,
            DIExpressionOp::StackValue => "DW_OP_stack_value"@,
            DIExpressionOp::Piece(n) => "DW_OP_piece "@ + text::decimal(n as nat),
            DIExpressionOp::BitPiece { size, offset } => "DW_OP_bit_piece "@ + text::decimal(
                size as nat,
            ) + " "@ + text::decimal(offset as nat),
            DIExpressionOp::Unsupported(name) => interner.text(name),
        }
    }

    fn push_to(&self, out: &mut String, interner: &Interner)
        requires
            self.known(interner),
        ensures
            final(out)@ == old(out)@ + self.rendered(interner),
    {
        match self {
            DIExpressionOp::WasmLocal(n) => {
                out.append("DW_OP_WASM_local ");
                push_decimal(out, *n as u64);
            },
            DIExpressionOp::WasmGlobal(n) => {
                out.append("DW_OP_WASM_global ");
                push_decimal(out, *n as u64);
            },
            DIExpressionOp::WasmStack(n) => {
                out.append("DW_OP_WASM_stack ");
                push_decimal(out, *n as u64);
            },
            DIExpressionOp::ConstU64(n) => {
                out.append("DW_OP_constu ");
                push_decimal(out, *n as u64);
            },
            DIExpressionOp::ConstS64(n) => {
                out.append("DW_OP_consts ");
                push_signed(out, *n);
            },
            DIExpressionOp::PlusUConst(n) => {
                out.append("DW_OP_plus_uconst ");
                push_decimal(out, *n as u64);
            },
            DIExpressionOp::Minus => out.append("DW_OP_minus"),
            DIExpressionOp::Plus => out.append("DW_OP_plus"),
            DIExpressionOp::Deref => out.append("DW_OP_deref"),
            DIExpressionOp::StackValue => out.append("DW_OP_stack_value"),
            DIExpressionOp::Piece(n) => {
                out.append("DW_OP_piece ");
                push_decimal(out, *n as u64);
            },
            DIExpressionOp::BitPiece { size, offset } => {
                out.append("DW_OP_bit_piece ");
                push_decimal(out, *size);
                out.append(" ");
                push_decimal(out, *offset);
            },
            DIExpressionOp::Unsupported(name) => out.append(interner.as_str(*name)),
        }
        assert(out@ == old(out)@ + self.rendered(interner));
    }
}

/// An expression that says where a variable is, or what its value is.
#[derive(PartialEq, Eq, Debug, Hash)]
pub struct DIExpressionAttr {
    pub operations: Vec<DIExpressionOp>,
}

impl DIExpressionAttr {
    /// An expression without operations.
    pub fn new() -> (attr: Self)
        ensures
            attr.operations@ == Seq::<DIExpressionOp>::empty(),
    {
        DIExpressionAttr { operations: Vec::new() }
    }

    /// An expression of the given operations.
    pub fn with_ops(operations: Vec<DIExpressionOp>) -> (attr: Self)
        ensures
            attr.operations == operations,
    {
        DIExpressionAttr { operations }
    }

    /// Whether the expression has no operations.
    pub fn is_empty(&self) -> (b: bool)
        ensures
            b == (self.operations@.len() == 0),
    {
        self.operations.len() == 0
    }

    /// Whether the two expressions have the same operations.
    pub fn is_same(&self, other: &Self) -> (b: bool)
        ensures
            b == (self.operations@ == other.operations@),
    {
        if self.operations.len() != other.operations.len() {
            return false;
        }
        let mut i: usize = 0;
        while i < self.operations.len()
            invariant
                i <= self.operations@.len() == other.operations@.len(),
                forall|j: int| 0 <= j < i ==> self.operations@[j] == other.operations@[j],
            decreases self.operations@.len() - i,
        {
            if self.operations[i] != other.operations[i] {
                return false;
            }
            i = i + 1;
        }
        assert(self.operations@ == other.operations@);
        true
    }

    /// A copy of the expression.
    pub fn duplicate(&self) -> (copy: Self)
        ensures
            copy.operations@ == self.operations@,
    {
        let mut operations: Vec<DIExpressionOp> = Vec::new();
        let mut i: usize = 0;
        while i < self.operations.len()
            invariant
                i <= self.operations@.len(),
                operations@ == self.operations@.take(i as int),
            decreases self.operations@.len() - i,
        {
            operations.push(self.operations[i]);
            i = i + 1;
        }
        assert(self.operations@.take(self.operations@.len() as int) == self.operations@);
        DIExpressionAttr { operations }
    }

    /// The symbols of the expression are known.
    pub open spec fn known(&self, interner: &Interner) -> bool {
        forall|i: int|
            0 <= i < self.operations@.len() ==> (#[trigger] self.operations@[i]).known(interner)
    }

    /// The texts of the operations.
    pub open spec fn parts(&self, interner: &Interner) -> Seq<Seq<char>> {
        self.operations@.map_values(|op: DIExpressionOp| op.rendered(interner))
    }

    /// The attribute as text.
    pub open spec fn rendered(&self, interner: &Interner) -> Seq<char> {
        "di.expression("@ + text::joined(self.parts(interner), ", "@) + ")"@
    }

    /// The attribute as text.
    pub fn render(&self, interner: &Interner) -> (out: String)
        requires
            self.known(interner),
        ensures
            out@ == self.rendered(interner),
    {
        let mut out = String::new();
        out.append("di.expression(");
        let ghost all = self.parts(interner);
        let mut i: usize = 0;
        assert(all.take(0) == Seq::<Seq<char>>::empty());
        while i < self.operations.len()
            invariant
                i <= self.operations@.len(),
                self.known(interner),
                all == self.parts(interner),
                out@ == "di.expression("@ + text::joined(all.take(i as int), ", "@),
            decreases self.operations@.len() - i,
        {
            assert(all.take(i + 1).drop_last() == all.take(i as int));
            assert(all.take(i + 1).last() == self.operations@[i as int].rendered(interner));
            if i > 0 {
                out.append(", ");
            }
            self.operations[i].push_to(&mut out, interner);
            i = i + 1;
            assert(out@ == "di.expression("@ + text::joined(all.take(i as int), ", "@));
        }
        assert(all.take(all.len() as int) == all);
        out.append(")");
        out
    }
}

impl Default for DIExpressionAttr {
    fn default() -> (attr: Self)
        ensures
            attr.operations@ == Seq::<DIExpressionOp>::empty(),
    {
        Self::new()
    }
}

} // verus!
