//! Signatures of functions, by module.
use vstd::prelude::*;
use crate::hir::path::{self, SymbolNameComponent, SymbolPath};
use crate::symbol::Interner;
use crate::text::{self, same_text};
use crate::types::ScalarType;

verus! {

/// The parameters and results of a function.
pub struct FunctionType {
    pub params: Vec<ScalarType>,
    pub results: Vec<ScalarType>,
}

/// A function and its type.
pub struct FunctionSignature {
    pub name: String,
    pub ty: FunctionType,
}

/// The functions of a module.
pub struct ModuleSignatures {
    pub path: SymbolPath,
    pub functions: Vec<FunctionSignature>,
}

/// A function and its type.
pub ghost struct Entry {
    pub name: Seq<char>,
    pub params: Seq<ScalarType>,
    pub results: Seq<ScalarType>,
}

/// A function and its type.
pub open spec fn entry(name: Seq<char>, params: Seq<ScalarType>, results: Seq<ScalarType>) -> Entry {
    Entry { name, params, results }
}

/// The same type `n` times.
pub open spec fn repeated(ty: ScalarType, n: nat) -> Seq<ScalarType> {
    Seq::new(n, |i: int| ty)
}

/// The parts of the path of a module: the root, and the names between `::`.
pub open spec fn module_parts(id: Seq<char>) -> Seq<path::Part> {
    seq![path::Part::Root] + text::pieces(id, "::"@).map_values(
        |t: Seq<char>| path::Part::Component(t),
    )
}

/// Appends the same type `n` times.
pub fn append(list: &mut Vec<ScalarType>, ty: ScalarType, n: usize)
    ensures
        final(list)@ == old(list)@ + repeated(ty, n as nat),
{
    let mut i: usize = 0;
    while i < n
        invariant
            i <= n,
            list@ == old(list)@ + repeated(ty, i as nat),
        decreases n - i,
    {
        list.push(ty);
        i = i + 1;
        assert(list@ == old(list)@ + repeated(ty, i as nat));
    }
}

impl FunctionSignature {
    /// The function and its type.
    pub open spec fn entry(&self) -> Entry {
        Entry { name: self.name@, params: self.ty.params@, results: self.ty.results@ }
    }

    /// A function of the given name and type.
    pub fn new(name: &str, params: Vec<ScalarType>, results: Vec<ScalarType>) -> (f: Self)
        ensures
            f.entry() == entry(name@, params@, results@),
    {
        FunctionSignature { name: name.to_owned(), ty: FunctionType { params, results } }
    }
}

impl ModuleSignatures {
    /// The functions of the module and their types.
    pub open spec fn entries(&self) -> Seq<Entry> {
        self.functions@.map_values(|f: FunctionSignature| f.entry())
    }
}

/// The first module at the given path, from `from` on.
pub open spec fn module_at(
    tables: Seq<ModuleSignatures>,
    path: Seq<SymbolNameComponent>,
    from: int,
) -> Option<int>
    decreases tables.len() - from,
{
    if from < 0 || from >= tables.len() {
        None
    } else if tables[from].path.path@ == path {
        Some(from)
    } else {
        module_at(tables, path, from + 1)
    }
}

/// The first function of the given name, from `from` on.
pub open spec fn function_at(functions: Seq<FunctionSignature>, name: Seq<char>, from: int) -> Option<
    int,
>
    decreases functions.len() - from,
{
    if from < 0 || from >= functions.len() {
        None
    } else if functions[from].name@ == name {
        Some(from)
    } else {
        function_at(functions, name, from + 1)
    }
}

/// The components of a path without its leaf.
pub open spec fn module_of(path: Seq<SymbolNameComponent>) -> Seq<SymbolNameComponent> {
    if path.len() > 0 && path.last() is Leaf {
        path.drop_last()
    } else {
        path
    }
}

/// The type of the function at the given path.
pub open spec fn type_at(
    tables: Seq<ModuleSignatures>,
    path: Seq<SymbolNameComponent>,
    interner: &Interner,
) -> Option<FunctionType> {
    match module_at(tables, module_of(path), 0) {
        Some(m) => match function_at(tables[m].functions@, interner.text(path.last().symbol()), 0) {
            Some(f) => Some(tables[m].functions@[f].ty),
            None => None,
        },
        None => None,
    }
}

/// The module at the given path, if there is one.
pub fn find_module(tables: &Vec<ModuleSignatures>, path: &SymbolPath) -> (index: Option<usize>)
    ensures
        match index {
            Some(index) => module_at(tables@, path.path@, 0) == Some(index as int) && index
                < tables@.len(),
            None => module_at(tables@, path.path@, 0) is None,
        },
{
    let mut i: usize = 0;
    while i < tables.len()
        invariant
            i <= tables@.len(),
            module_at(tables@, path.path@, 0) == module_at(tables@, path.path@, i as int),
        decreases tables@.len() - i,
    {
        if tables[i].path == *path {
            return Some(i);
        }
        i = i + 1;
    }
    None
}

/// The type of the function at the given path, if there is one.
pub fn find_function_type<'a>(
    tables: &'a Vec<ModuleSignatures>,
    path: &SymbolPath,
    interner: &Interner,
) -> (ty: Option<&'a FunctionType>)
    requires
        path.known(interner),
        path.path@.len() > 0,
        path.path@.last() is Leaf,
    ensures
        match ty {
            Some(ty) => type_at(tables@, path.path@, interner) == Some(*ty),
            None => type_at(tables@, path.path@, interner) is None,
        },
{
    let path_of_module = path.without_leaf();
    assert(path.path@[path.path@.len() - 1] == path.path@.last());
    match find_module(tables, &path_of_module) {
        Some(m) => {
            let name = interner.as_str(path.name());
            let functions = &tables[m].functions;
            let mut i: usize = 0;
            while i < functions.len()
                invariant
                    i <= functions@.len(),
                    function_at(functions@, name@, 0) == function_at(functions@, name@, i as int),
                    m < tables@.len(),
                    functions == tables@[m as int].functions,
                    module_at(tables@, module_of(path.path@), 0) == Some(m as int),
                    name@ == interner.text(path.path@.last().symbol()),
                decreases functions@.len() - i,
            {
                if same_text(functions[i].name.as_str(), name) {
                    return Some(&functions[i].ty);
                }
                i = i + 1;
            }
            None
        },
        None => None,
    }
}

} // verus!
