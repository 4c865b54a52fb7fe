//! How items are put out.
use vstd::prelude::*;
use vstd::string::*;
use crate::hir::print::{self, FileLineCol, render_source_location};
use crate::session::output::{OutputMode, OutputType};
use crate::span::SourceSpan;
use crate::text::{self, push_decimal};

verus! {

/// What can be put out.
#[derive(Clone, Copy, PartialEq, Eq, Debug, Structural)]
pub enum EmittedItem {
    /// The text of the intermediate representation
    Text,
    /// A module of Miden Assembly
    Module,
    /// A library
    Library,
    /// A program
    Program,
    /// A package
    Package,
    /// A program or a library
    MastArtifact,
}

impl EmittedItem {
    /// The type of output that the item is.
    pub open spec fn type_in(self, mode: OutputMode) -> OutputType {
        match self {
            EmittedItem::Text => OutputType::Hir,
            EmittedItem::Module => OutputType::Masm,
            EmittedItem::Package => match mode {
                OutputMode::Text => OutputType::Mast,
                OutputMode::Binary => OutputType::Masp,
            },
            EmittedItem::Library | EmittedItem::Program | EmittedItem::MastArtifact => match mode {
                OutputMode::Text => OutputType::Mast,
                OutputMode::Binary => OutputType::Masl,
            },
        }
    }

    /// The type of output that the item is.
    pub fn output_type(&self, mode: OutputMode) -> (ty: OutputType)
        ensures
            ty == self.type_in(mode),
    {
        match self {
            EmittedItem::Text => OutputType::Hir,
            EmittedItem::Module => OutputType::Masm,
            EmittedItem::Package => match mode {
                OutputMode::Text => OutputType::Mast,
                OutputMode::Binary => OutputType::Masp,
            },
            EmittedItem::Library | EmittedItem::Program | EmittedItem::MastArtifact => match mode {
                OutputMode::Text => OutputType::Mast,
                OutputMode::Binary => OutputType::Masl,
            },
        }
    }

    /// Whether the item can be put out in the given mode: modules are text only, and programs
    /// bytes only.
    pub fn supports(&self, mode: OutputMode) -> (b: bool)
        ensures
            b == match self {
                EmittedItem::Module => mode is Text,
                EmittedItem::Program => mode is Binary,
                _ => true,
            },
    {
        match (self, mode) {
            (EmittedItem::Module, OutputMode::Binary) => false,
            (EmittedItem::Program, OutputMode::Text) => false,
            _ => true,
        }
    }
}

/// How an item is put out to standard output: as text to a terminal.
pub fn stdout_mode(is_terminal: bool) -> (mode: OutputMode)
    ensures
        mode == if is_terminal {
            OutputMode::Text
        } else {
            OutputMode::Binary
        },
{
    if is_terminal {
        OutputMode::Text
    } else {
        OutputMode::Binary
    }
}

/// What items are written to.
pub trait Writer {
    /// The bytes that were written.
    spec fn written(&self) -> Seq<u8>;

    /// Writes bytes.
    fn write_all(&mut self, buf: &[u8])
        ensures
            final(self).written() == old(self).written() + buf@,
    ;
}

impl Writer for Vec<u8> {
    open spec fn written(&self) -> Seq<u8> {
        self@
    }

    fn write_all(&mut self, buf: &[u8]) {
        let mut i: usize = 0;
        assert(self@ =~= old(self)@ + buf@.take(0));
        while i < buf.len()
            invariant
                i <= buf@.len(),
                self@ == old(self)@ + buf@.take(i as int),
            decreases buf@.len() - i,
        {
            self.push(buf[i]);
            i = i + 1;
            assert(self@ =~= old(self)@ + buf@.take(i as int));
        }
        assert(buf@.take(buf@.len() as int) == buf@);
    }
}

/// Where code stems from: its span, and the position of the span if its file is known.
pub struct Located {
    pub span: SourceSpan,
    pub position: Option<FileLineCol>,
}

/// An operation of Miden Assembly, with the text of its instructions.
pub enum MasmOp {
    Inst { text: String, at: Located },
    If { then_blk: Vec<MasmOp>, else_blk: Vec<MasmOp>, at: Located },
    While { body: Vec<MasmOp>, at: Located },
    Repeat { count: u32, body: Vec<MasmOp>, at: Located },
}

/// Who can see a procedure.
#[derive(Clone, Copy, PartialEq, Eq, Debug, Structural)]
pub enum MasmVisibility {
    Public,
    Private,
    Syscall,
}

/// What a module of Miden Assembly has.
pub enum MasmExport {
    Procedure { name: String, visibility: MasmVisibility, body: Vec<MasmOp> },
    Alias { name: String, target: String },
}

/// `n` spaces.
pub open spec fn spaces(n: nat) -> Seq<char> {
    Seq::new(n, |i: int| ' ')
}

/// Where code stems from, as text.
pub open spec fn located_shown(at: Located) -> Seq<char> {
    print::location_shown(at.span, at.position)
}

/// An operation as text, with where it stems from.
pub open spec fn op_shown(op: MasmOp, indent: nat) -> Seq<char>
    decreases op, 0int,
{
    match op {
        MasmOp::Inst { text, at } => spaces(indent) + text@ + located_shown(at) + "\n"@,
        MasmOp::If { then_blk, else_blk, at } => {
            let begin = spaces(indent) + "if.true\n"@ + ops_shown(
                then_blk,
                then_blk@.len() as int,
                indent + 4,
            );
            let middle = if else_blk@.len() > 0 {
                begin + spaces(indent) + "else\n"@ + ops_shown(
                    else_blk,
                    else_blk@.len() as int,
                    indent + 4,
                )
            } else {
                begin
            };
            middle + spaces(indent) + "end"@ + located_shown(at) + "\n"@
        },
        MasmOp::While { body, at } => spaces(indent) + "while.true\n"@ + ops_shown(
            body,
            body@.len() as int,
            indent + 4,
        ) + spaces(indent) + "end"@ + located_shown(at) + "\n"@,
        MasmOp::Repeat { count, body, at } => spaces(indent) + "repeat."@ + text::decimal(
            count as nat,
        ) + "\n"@ + ops_shown(body, body@.len() as int, indent + 4) + spaces(indent) + "end"@
            + located_shown(at) + "\n"@,
    }
}

/// The first `n` operations of a block as text.
pub open spec fn ops_shown(ops: Vec<MasmOp>, n: int, indent: nat) -> Seq<char>
    decreases ops, n,
{
    if n <= 0 || n > ops@.len() {
        Seq::empty()
    } else {
        ops_shown(ops, n - 1, indent) + op_shown(ops@[n - 1], indent)
    }
}

fn push_spaces(out: &mut String, n: u64)
    ensures
        final(out)@ == old(out)@ + spaces(n as nat),
{
    let mut i: u64 = 0;
    assert(out@ =~= old(out)@ + spaces(0));
    while i < n
        invariant
            i <= n,
            out@ == old(out)@ + spaces(i as nat),
        decreases n - i,
    {
        out.push(' ');
        i = i + 1;
        assert(out@ =~= old(out)@ + spaces(i as nat));
    }
}

fn push_end(out: &mut String, indent: u64, at: &Located)
    ensures
        final(out)@ == old(out)@ + spaces(indent as nat) + "end"@ + located_shown(*at) + "\n"@,
{
    push_spaces(out, indent);
    out.append("end");
    out.append(render_source_location(at.span, &at.position).as_str());
    out.append("\n");
}

/// How deep the blocks of an operation are nested.
pub open spec fn op_depth(op: MasmOp) -> nat
    decreases op, 0int,
{
    match op {
        MasmOp::Inst { .. } => 0,
        MasmOp::If { then_blk, else_blk, .. } => {
            let a = ops_depth(then_blk, then_blk@.len() as int);
            let b = ops_depth(else_blk, else_blk@.len() as int);
            1 + if a > b {
                a
            } else {
                b
            }
        },
        MasmOp::While { body, .. } => 1 + ops_depth(body, body@.len() as int),
        MasmOp::Repeat { body, .. } => 1 + ops_depth(body, body@.len() as int),
    }
}

/// How deep the blocks of the first `n` operations are nested.
pub open spec fn ops_depth(ops: Vec<MasmOp>, n: int) -> nat
    decreases ops, n,
{
    if n <= 0 || n > ops@.len() {
        0
    } else {
        let a = ops_depth(ops, n - 1);
        let b = op_depth(ops@[n - 1]);
        if a > b {
            a
        } else {
            b
        }
    }
}

fn push_op(op: &MasmOp, out: &mut String, indent: u64)
    requires
        indent + 4 * op_depth(*op) <= u64::MAX,
    ensures
        final(out)@ == old(out)@ + op_shown(*op, indent as nat),
    decreases op, 0usize,
{
    push_spaces(out, indent);
    match op {
        MasmOp::Inst { text, at } => {
            out.append(text.as_str());
            out.append(render_source_location(at.span, &at.position).as_str());
            out.append("\n");
        },
        MasmOp::If { then_blk, else_blk, at } => {
            out.append("if.true\n");
            push_ops(then_blk, then_blk.len(), out, indent + 4);
            if else_blk.len() > 0 {
                push_spaces(out, indent);
                out.append("else\n");
                push_ops(else_blk, else_blk.len(), out, indent + 4);
            }
            push_end(out, indent, at);
        },
        MasmOp::While { body, at } => {
            out.append("while.true\n");
            push_ops(body, body.len(), out, indent + 4);
            push_end(out, indent, at);
        },
        MasmOp::Repeat { count, body, at } => {
            out.append("repeat.");
            push_decimal(out, *count as u64);
            out.append("\n");
            push_ops(body, body.len(), out, indent + 4);
            push_end(out, indent, at);
        },
    }
    assert(out@ =~= old(out)@ + op_shown(*op, indent as nat));
}

fn push_ops(ops: &Vec<MasmOp>, n: usize, out: &mut String, indent: u64)
    requires
        n <= ops@.len(),
        indent + 4 * ops_depth(*ops, n as int) <= u64::MAX,
    ensures
        final(out)@ == old(out)@ + ops_shown(*ops, n as int, indent as nat),
    decreases ops, n,
{
    if n > 0 {
        push_ops(ops, n - 1, out, indent);
        push_op(&ops[n - 1], out, indent);
    }
    assert(out@ =~= old(out)@ + ops_shown(*ops, n as int, indent as nat));
}

/// Appends a block, with where its operations stem from.
pub fn format_block_with_locations(block: &Vec<MasmOp>, output: &mut String, indent_level: u64)
    requires
        indent_level + 4 * ops_depth(*block, block@.len() as int) <= u64::MAX,
    ensures
        final(output)@ == old(output)@ + ops_shown(
            *block,
            block@.len() as int,
            indent_level as nat,
        ),
{
    let n: usize = block.len();
    push_ops(block, n, output, indent_level);
}

/// What stands before the name of a procedure.
pub open spec fn visibility_shown(visibility: MasmVisibility) -> Seq<char> {
    match visibility {
        MasmVisibility::Public => "export."@,
        MasmVisibility::Private => ""@,
        MasmVisibility::Syscall => "export.syscall."@,
    }
}

/// A procedure or an alias as text.
pub open spec fn export_shown(export: MasmExport) -> Seq<char> {
    match export {
        MasmExport::Procedure { name, visibility, body } => visibility_shown(visibility) + name@
            + ":\n"@ + ops_shown(body, body@.len() as int, 4) + "end\n\n"@,
        MasmExport::Alias { name, target } => "export."@ + name@ + "->"@ + target@ + "\n\n"@,
    }
}

/// The first `n` procedures and aliases as text.
pub open spec fn exports_shown(exports: Seq<MasmExport>, n: int) -> Seq<char>
    decreases n,
{
    if n <= 0 {
        Seq::empty()
    } else {
        exports_shown(exports, n - 1) + export_shown(exports[n - 1])
    }
}

/// The blocks of the procedures are not nested too deep to be indented.
pub open spec fn exports_fit(exports: Seq<MasmExport>) -> bool {
    forall|i: int|
        0 <= i < exports.len() ==> (#[trigger] exports[i] matches MasmExport::Procedure {
            body,
            ..
        } ==> 4 + 4 * ops_depth(body, body@.len() as int) <= u64::MAX)
}

/// A module as text, with where its code stems from.
pub fn format_masm_with_source_locations(path: &str, exports: &Vec<MasmExport>) -> (out: String)
    requires
        exports_fit(exports@),
    ensures
        out@ == "# mod "@ + path@ + "\n\n"@ + exports_shown(exports@, exports@.len() as int),
{
    let mut out = String::new();
    out.append("# mod ");
    out.append(path);
    out.append("\n\n");
    let ghost head = out@;
    assert(head =~= "# mod "@ + path@ + "\n\n"@);
    let mut i: usize = 0;
    assert(out@ =~= head + exports_shown(exports@, 0));
    while i < exports.len()
        invariant
            i <= exports@.len(),
            exports_fit(exports@),
            out@ == head + exports_shown(exports@, i as int),
        decreases exports@.len() - i,
    {
        let ghost before = out@;
        match &exports[i] {
            MasmExport::Procedure { name, visibility, body } => {
                assert(exports@[i as int] matches MasmExport::Procedure { body, .. } && 4 + 4
                    * ops_depth(body, body@.len() as int) <= u64::MAX);
                match visibility {
                    MasmVisibility::Public => out.append("export."),
                    MasmVisibility::Private => out.append(""),
                    MasmVisibility::Syscall => out.append("export.syscall."),
                }
                out.append(name.as_str());
                out.append(":\n");
                format_block_with_locations(body, &mut out, 4);
                out.append("end\n\n");
            },
            MasmExport::Alias { name, target } => {
                out.append("export.");
                out.append(name.as_str());
                out.append("->");
                out.append(target.as_str());
                out.append("\n\n");
            },
        }
        assert(out@ =~= before + export_shown(exports@[i as int]));
        i = i + 1;
        assert(out@ =~= head + exports_shown(exports@, i as int));
    }
    out
}

} // verus!
