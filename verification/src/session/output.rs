//! Outputs of the compiler.
use vstd::prelude::*;
use crate::hir::sorted::{self, OrderedKey, SortedMap};
use crate::symbol::Symbol;

verus! {

/// What the compiler can put out.
#[derive(Clone, Copy, PartialEq, Eq, Debug, Hash, Structural)]
pub enum OutputType {
    /// WebAssembly as text
    Wat,
    /// The intermediate representation
    Hir,
    /// Miden Assembly
    Masm,
    /// Assembled code as text
    Mast,
    /// An assembled library
    Masl,
    /// A package
    Masp,
}

/// Whether an output is text or bytes.
#[derive(Clone, Copy, PartialEq, Eq, Debug, Structural)]
pub enum OutputMode {
    Text,
    Binary,
}

impl OutputType {
    /// Where the type stands among the others.
    pub open spec fn number(self) -> int {
        match self {
            OutputType::Wat => 0,
            OutputType::Hir => 1,
            OutputType::Masm => 2,
            OutputType::Mast => 3,
            OutputType::Masl => 4,
            OutputType::Masp => 5,
        }
    }

    fn place(&self) -> (n: u8)
        ensures
            n == self.number(),
    {
        match self {
            OutputType::Wat => 0,
            OutputType::Hir => 1,
            OutputType::Masm => 2,
            OutputType::Mast => 3,
            OutputType::Masl => 4,
            OutputType::Masp => 5,
        }
    }

    /// The output is assembled.
    pub open spec fn is_assembled(self) -> bool {
        self.number() >= 3
    }

    /// The output is made of Miden Assembly, or is Miden Assembly.
    pub open spec fn is_generated(self) -> bool {
        self.number() >= 2
    }

    /// The output is made of what was linked.
    pub open spec fn is_linked(self) -> bool {
        self.number() >= 1
    }
}

impl OrderedKey for OutputType {
    open spec fn rank(self) -> int {
        self.number()
    }

    proof fn ranks_are_keys(a: Self, b: Self) {
    }

    fn precedes(&self, other: &Self) -> (b: bool) {
        self.place() < other.place()
    }
}

/// A path of the file system, and its parts.
#[derive(Clone, Copy, PartialEq, Eq, Debug, Hash, Structural)]
pub struct FilePath {
    pub text: Symbol,
    /// The last part, without its extension
    pub stem: Option<Symbol>,
    pub extension: Option<Symbol>,
    /// The path without its last part
    pub parent: Option<Symbol>,
    pub is_absolute: bool,
}

/// Where an output is written to.
#[derive(Clone, Copy, PartialEq, Eq, Debug, Hash, Structural)]
pub enum OutputFile {
    Real(FilePath),
    Directory(FilePath),
    Stdout,
}

impl OutputFile {
    /// The directory that the file is in.
    pub open spec fn directory(self) -> Option<Symbol> {
        match self {
            OutputFile::Real(path) => path.parent,
            OutputFile::Directory(path) => Some(path.text),
            OutputFile::Stdout => None,
        }
    }

    /// The directory that the file is in.
    pub fn parent(&self) -> (parent: Option<Symbol>)
        ensures
            parent == self.directory(),
    {
        match self {
            OutputFile::Real(path) => path.parent,
            OutputFile::Directory(path) => Some(path.text),
            OutputFile::Stdout => None,
        }
    }

    /// The name of the file without its extension.
    pub open spec fn base_name(self) -> Option<Symbol> {
        match self {
            OutputFile::Real(path) => path.stem,
            OutputFile::Directory(_) | OutputFile::Stdout => None,
        }
    }

    /// The name of the file without its extension.
    pub fn filestem(&self) -> (stem: Option<Symbol>)
        ensures
            stem == self.base_name(),
    {
        match self {
            OutputFile::Real(path) => path.stem,
            OutputFile::Directory(_) | OutputFile::Stdout => None,
        }
    }
}

/// The outputs that are wanted, and where they are written to.
pub struct OutputTypes {
    pub files: SortedMap<OutputType, Option<OutputFile>, false>,
}

/// An output that the user asks for.
#[derive(Clone, Copy, PartialEq, Eq, Debug, Structural)]
pub enum OutputTypeSpec {
    /// All outputs
    All { path: Option<OutputFile> },
    Typed { output_type: OutputType, path: Option<OutputFile> },
}

/// The outputs that are wanted, by type.
pub open spec fn outputs_of(types: &OutputTypes) -> Map<OutputType, Option<OutputFile>> {
    sorted::map_of(types.files@)
}

/// All outputs, written to the same place.
pub open spec fn all_to(
    outputs: Map<OutputType, Option<OutputFile>>,
    path: Option<OutputFile>,
) -> Map<OutputType, Option<OutputFile>> {
    outputs.insert(OutputType::Wat, path).insert(OutputType::Hir, path).insert(
        OutputType::Masm,
        path,
    ).insert(OutputType::Mast, path).insert(OutputType::Masl, path).insert(OutputType::Masp, path)
}

/// The outputs that the first `n` requests ask for; a later one replaces an earlier one.
pub open spec fn requested(specs: Seq<OutputTypeSpec>, n: int) -> Map<
    OutputType,
    Option<OutputFile>,
>
    decreases n,
{
    if n <= 0 {
        Map::empty()
    } else {
        match specs[n - 1] {
            OutputTypeSpec::All { path } => all_to(requested(specs, n - 1), path),
            OutputTypeSpec::Typed { output_type, path } => requested(specs, n - 1).insert(
                output_type,
                path,
            ),
        }
    }
}

/// One of the outputs has the property.
pub open spec fn some_output(
    outputs: Map<OutputType, Option<OutputFile>>,
    property: spec_fn(OutputType) -> bool,
) -> bool {
    exists|ty: OutputType| #[trigger] outputs.dom().contains(ty) && property(ty)
}

impl OutputTypes {
    /// The entries are in order.
    pub open spec fn wf(&self) -> bool {
        self.files.wf()
    }

    /// The outputs that the user asks for.
    pub fn new(specs: &Vec<OutputTypeSpec>) -> (types: Self)
        ensures
            types.wf(),
            outputs_of(&types) == requested(specs@, specs@.len() as int),
    {
        let mut types = OutputTypes { files: SortedMap::new() };
        let mut i: usize = 0;
        assert(outputs_of(&types) =~= requested(specs@, 0));
        while i < specs.len()
            invariant
                i <= specs@.len(),
                types.wf(),
                outputs_of(&types) == requested(specs@, i as int),
            decreases specs@.len() - i,
        {
            match specs[i] {
                OutputTypeSpec::All { path } => {
                    types.insert(OutputType::Wat, path);
                    types.insert(OutputType::Hir, path);
                    types.insert(OutputType::Masm, path);
                    types.insert(OutputType::Mast, path);
                    types.insert(OutputType::Masl, path);
                    types.insert(OutputType::Masp, path);
                },
                OutputTypeSpec::Typed { output_type, path } => {
                    types.insert(output_type, path);
                },
            }
            i = i + 1;
        }
        types
    }

    /// The same outputs.
    pub fn duplicate(&self) -> (types: Self)
        ensures
            outputs_of(&types) == outputs_of(self),
            types.wf() == self.wf(),
    {
        OutputTypes { files: self.files.duplicate() }
    }

    /// Adds an output, or changes where it is written to.
    pub fn insert(&mut self, ty: OutputType, file: Option<OutputFile>)
        requires
            old(self).wf(),
        ensures
            final(self).wf(),
            outputs_of(final(self)) == outputs_of(old(self)).insert(ty, file),
    {
        let _ = self.files.insert(ty, file);
    }

    /// Whether no output is wanted.
    pub fn is_empty(&self) -> (b: bool)
        requires
            self.wf(),
        ensures
            b == (outputs_of(self) == Map::<OutputType, Option<OutputFile>>::empty()),
    {
        let n: usize = self.files.len();
        proof {
            if n == 0 {
                assert(outputs_of(self) =~= Map::empty());
            } else {
                sorted::entry_is_held(self.files@, false, 0);
            }
        }
        n == 0
    }

    /// Whether an output is wanted.
    pub fn contains_key(&self, ty: OutputType) -> (b: bool)
        requires
            self.wf(),
        ensures
            b == outputs_of(self).dom().contains(ty),
    {
        self.files.find(ty).is_some()
    }

    /// Whether a wanted output is made of what was linked.
    pub fn should_link(&self) -> (b: bool)
        requires
            self.wf(),
        ensures
            b == some_output(outputs_of(self), |ty: OutputType| ty.is_linked()),
    {
        self.contains_key(OutputType::Hir) || self.should_codegen()
    }

    /// Whether a wanted output is made of Miden Assembly.
    pub fn should_codegen(&self) -> (b: bool)
        requires
            self.wf(),
        ensures
            b == some_output(outputs_of(self), |ty: OutputType| ty.is_generated()),
    {
        self.contains_key(OutputType::Masm) || self.should_assemble()
    }

    /// Whether a wanted output is assembled.
    pub fn should_assemble(&self) -> (b: bool)
        requires
            self.wf(),
        ensures
            b == some_output(outputs_of(self), |ty: OutputType| ty.is_assembled()),
    {
        self.contains_key(OutputType::Mast) || self.contains_key(OutputType::Masl)
            || self.contains_key(OutputType::Masp)
    }
}

} // verus!
