//! Libraries that are linked against.
use vstd::prelude::*;
use vstd::string::*;
use crate::session::target::TargetEnv;
use crate::text::{self, chars_of, find_from, same_text, substring};

verus! {

/// The kinds of libraries that can be linked against.
#[derive(Clone, Copy, PartialEq, Eq, Debug, Hash, Structural)]
pub enum LibraryKind {
    /// A compiled library
    Mast,
    /// The sources of a library, in the standard layout
    Masm,
    /// A package
    Masp,
}

impl Default for LibraryKind {
    fn default() -> (kind: Self)
        ensures
            kind == LibraryKind::Mast,
    {
        LibraryKind::Mast
    }
}

/// The kind that a text names.
pub open spec fn kind_named(s: Seq<char>) -> Option<LibraryKind> {
    if s == "mast"@ || s == "masl"@ {
        Some(LibraryKind::Mast)
    } else if s == "masm"@ {
        Some(LibraryKind::Masm)
    } else if s == "masp"@ {
        Some(LibraryKind::Masp)
    } else {
        None
    }
}

impl LibraryKind {
    /// The name of the kind.
    pub open spec fn label(self) -> Seq<char> {
        match self {
            LibraryKind::Mast => "mast"@,
            LibraryKind::Masm => "masm"@,
            LibraryKind::Masp => "masp"@,
        }
    }

    /// The name of the kind.
    pub fn name(&self) -> (name: &'static str)
        ensures
            name@ == self.label(),
    {
        match self {
            LibraryKind::Mast => "mast",
            LibraryKind::Masm => "masm",
            LibraryKind::Masp => "masp",
        }
    }

    /// The kind that a text names, if it names one.
    pub fn parse(s: &str) -> (kind: Option<LibraryKind>)
        ensures
            kind == kind_named(s@),
    {
        if same_text(s, "mast") || same_text(s, "masl") {
            Some(LibraryKind::Mast)
        } else if same_text(s, "masm") {
            Some(LibraryKind::Masm)
        } else if same_text(s, "masp") {
            Some(LibraryKind::Masp)
        } else {
            None
        }
    }
}

/// A kind is the one that its name names.
pub proof fn kinds_read_back(kind: LibraryKind)
    ensures
        kind_named(kind.label()) == Some(kind),
{
    reveal_strlit("mast");
    reveal_strlit("masl");
    reveal_strlit("masm");
    reveal_strlit("masp");
    assert("mast"@[3] == 't' && "masl"@[3] == 'l' && "masm"@[3] == 'm' && "masp"@[3] == 'p');
}

/// A library that the user wants to link against.
pub struct LinkLibrary {
    /// The name as given, or the base name of the file that was given
    pub name: String,
    /// Where to load the library from, if that was given
    pub path: Option<String>,
    pub kind: LibraryKind,
}

/// A library of the given name that comes with the compiler.
pub open spec fn is_shipped(library: LinkLibrary, name: Seq<char>) -> bool {
    library.name@ == name && library.path is None && library.kind == LibraryKind::Mast
}

/// Where a library is loaded from.
#[derive(Clone, Copy, PartialEq, Eq, Debug, Structural)]
pub enum LibrarySource {
    /// The path that was given
    GivenPath,
    /// The standard library, which comes with the compiler
    Std,
    /// The library of the rollup, which comes with the compiler
    Base,
    /// One of the search paths
    Search,
}

/// An entry of a directory.
pub struct DirEntry {
    pub path: String,
    /// The name without its extension, if there is one that is text
    pub stem: Option<String>,
    pub is_file: bool,
    pub is_dir: bool,
}

/// Why a library is not found.
#[derive(Clone, Copy, PartialEq, Eq, Debug, Structural)]
pub enum FindError {
    /// The search path of the given number cannot be read
    InvalidSearchPath(usize),
    NotAFile,
    NotADirectory,
    NotFound,
}

/// The first entry of a directory, from `from` on, with the given name.
pub open spec fn entry_named(entries: Seq<DirEntry>, name: Seq<char>, from: int) -> Option<int>
    decreases entries.len() - from,
{
    if from < 0 || from >= entries.len() {
        None
    } else if entries[from].stem matches Some(stem) && stem@ == name {
        Some(from)
    } else {
        entry_named(entries, name, from + 1)
    }
}

/// What is found of a library in the search paths from `from` on: the number of the search path,
/// and that of the entry. A search path that cannot be read is an error if it is reached.
pub open spec fn found_from(
    listings: Seq<Option<Vec<DirEntry>>>,
    name: Seq<char>,
    kind: LibraryKind,
    from: int,
) -> Result<(int, int), FindError>
    decreases listings.len() - from,
{
    if from < 0 || from >= listings.len() {
        Err(FindError::NotFound)
    } else {
        match listings[from] {
            None => Err(FindError::InvalidSearchPath(from as usize)),
            Some(entries) => match entry_named(entries@, name, 0) {
                None => found_from(listings, name, kind, from + 1),
                Some(at) => if kind == LibraryKind::Masm {
                    if entries@[at].is_dir {
                        Ok((from, at))
                    } else {
                        Err(FindError::NotADirectory)
                    }
                } else if entries@[at].is_file {
                    Ok((from, at))
                } else {
                    Err(FindError::NotAFile)
                },
            },
        }
    }
}

fn find_entry(entries: &Vec<DirEntry>, name: &str) -> (found: Option<usize>)
    ensures
        match found {
            Some(at) => at < entries@.len() && entry_named(entries@, name@, 0) == Some(at as int),
            None => entry_named(entries@, name@, 0) is None,
        },
{
    let mut i: usize = 0;
    while i < entries.len()
        invariant
            i <= entries@.len(),
            entry_named(entries@, name@, 0) == entry_named(entries@, name@, i as int),
        decreases entries@.len() - i,
    {
        if let Some(stem) = &entries[i].stem {
            if same_text(stem.as_str(), name) {
                return Some(i);
            }
        }
        i = i + 1;
    }
    None
}

/// What was found at the path of a library.
#[derive(Clone, Copy, PartialEq, Eq, Debug, Structural)]
pub enum LoadedFile {
    /// It cannot be read
    Unreadable,
    Library,
    /// A package that holds a program
    Program,
}

/// Why a library cannot be loaded.
#[derive(Clone, Copy, PartialEq, Eq, Debug, Structural)]
pub enum LoadError {
    Unreadable,
    /// A program cannot be linked against
    NotALibrary,
}

impl LinkLibrary {
    /// Whether what was found at the path of the library can be linked against.
    pub fn load_from_path(&self, file: LoadedFile) -> (loaded: Result<(), LoadError>)
        ensures
            loaded == match file {
                LoadedFile::Unreadable => Err::<(), _>(LoadError::Unreadable),
                LoadedFile::Program => Err(LoadError::NotALibrary),
                LoadedFile::Library => Ok(()),
            },
    {
        match file {
            LoadedFile::Unreadable => Err(LoadError::Unreadable),
            LoadedFile::Program => Err(LoadError::NotALibrary),
            LoadedFile::Library => Ok(()),
        }
    }

    /// The standard library.
    pub fn stdlib() -> (library: Self)
        ensures
            is_shipped(library, "std"@),
    {
        LinkLibrary { name: "std".to_owned(), path: None, kind: LibraryKind::Mast }
    }

    /// The library of the rollup and its kernel.
    pub fn base() -> (library: Self)
        ensures
            is_shipped(library, "base"@),
    {
        LinkLibrary { name: "base".to_owned(), path: None, kind: LibraryKind::Mast }
    }

    /// Where the library is loaded from: the path that was given comes before the libraries that
    /// come with the compiler, and these before the search paths.
    pub fn source(&self) -> (source: LibrarySource)
        ensures
            source == if self.path is Some {
                LibrarySource::GivenPath
            } else if self.name@ == "std"@ {
                LibrarySource::Std
            } else if self.name@ == "base"@ {
                LibrarySource::Base
            } else {
                LibrarySource::Search
            },
    {
        if self.path.is_some() {
            LibrarySource::GivenPath
        } else if same_text(self.name.as_str(), "std") {
            LibrarySource::Std
        } else if same_text(self.name.as_str(), "base") {
            LibrarySource::Base
        } else {
            LibrarySource::Search
        }
    }

    /// Looks for the library in the entries of the search paths; those of a search path that
    /// cannot be read are none.
    pub fn find(&self, listings: &Vec<Option<Vec<DirEntry>>>) -> (found: Result<
        (usize, usize),
        FindError,
    >)
        ensures
            match (found, found_from(listings@, self.name@, self.kind, 0)) {
                (Ok((path, entry)), Ok((wanted_path, wanted_entry))) => path == wanted_path
                    && entry == wanted_entry,
                (Err(error), Err(wanted)) => error == wanted,
                _ => false,
            },
    {
        let mut i: usize = 0;
        while i < listings.len()
            invariant
                i <= listings@.len(),
                found_from(listings@, self.name@, self.kind, 0) == found_from(
                    listings@,
                    self.name@,
                    self.kind,
                    i as int,
                ),
            decreases listings@.len() - i,
        {
            match &listings[i] {
                None => {
                    return Err(FindError::InvalidSearchPath(i));
                },
                Some(entries) => {
                    if let Some(at) = find_entry(entries, self.name.as_str()) {
                        return match self.kind {
                            LibraryKind::Masm => if entries[at].is_dir {
                                Ok((i, at))
                            } else {
                                Err(FindError::NotADirectory)
                            },
                            _ => if entries[at].is_file {
                                Ok((i, at))
                            } else {
                                Err(FindError::NotAFile)
                            },
                        };
                    }
                },
            }
            i = i + 1;
        }
        Err(FindError::NotFound)
    }
}

/// What is known of a path.
pub struct PathInfo {
    pub extension: Option<String>,
    /// The last part of the path, without its extension
    pub stem: Option<String>,
    pub is_absolute: bool,
    /// What is at the path, if that can be read
    pub meta: Option<FileMeta>,
}

/// What is at a path.
#[derive(Clone, Copy, PartialEq, Eq, Debug, Structural)]
pub struct FileMeta {
    pub is_file: bool,
    pub is_dir: bool,
}

/// Why a text does not name a library to link against.
#[derive(Clone, Copy, PartialEq, Eq, Debug, Structural)]
pub enum LinkLibraryError {
    /// There is no name
    MissingName,
    /// The kind is not one of libraries
    InvalidKind,
    /// The path cannot be read
    Unreadable,
    NotAFile,
    NotADirectory,
}

/// The kind and the name in `[KIND=]NAME`.
pub open spec fn kind_and_name(value: Seq<char>) -> (Option<Seq<char>>, Seq<char>) {
    match text::place_from(value, "="@, 0) {
        Some(at) => (Some(value.take(at)), value.skip(at + 1)),
        None => (None, value),
    }
}

/// The kind of library that is wanted: the one that is given, else that of the extension, else a
/// compiled library.
pub open spec fn wanted_kind(kind: Option<Seq<char>>, extension: Option<Seq<char>>) -> Option<
    LibraryKind,
> {
    match kind {
        Some(kind) if kind.len() > 0 => kind_named(kind),
        _ => match extension {
            Some(extension) => kind_named(extension),
            None => Some(LibraryKind::Mast),
        },
    }
}

/// The text of a string that may be missing.
pub open spec fn text_of(s: Option<String>) -> Option<Seq<char>> {
    match s {
        Some(s) => Some(s@),
        None => None,
    }
}

/// Reads the names of libraries to link against.
#[derive(Clone, Copy, PartialEq, Eq, Debug, Structural)]
pub struct LinkLibraryParser;

impl LinkLibraryParser {
    /// The kind and the name in `[KIND=]NAME`.
    pub fn split(value: &str) -> (parts: (Option<String>, String))
        ensures
            text_of(parts.0) == kind_and_name(value@).0,
            parts.1@ == kind_and_name(value@).1,
    {
        let chars = chars_of(value);
        let separator = chars_of("=");
        let len: usize = chars.len();
        proof {
            reveal_strlit("=");
        }
        match find_from(&chars, &separator, 0) {
            Some(at) => {
                let kind = substring(&chars, 0, at);
                let name = substring(&chars, at + 1, len);
                assert(kind@ =~= value@.take(at as int));
                assert(name@ =~= value@.skip(at + 1));
                (Some(kind), name)
            },
            None => (None, value.to_owned()),
        }
    }

    /// The library that is named by `[KIND=]NAME`, where NAME is an absolute path, or a name that
    /// may have an extension. `info` says what is known of NAME as a path.
    pub fn parse_ref(&self, value: &str, info: &PathInfo) -> (library: Result<
        LinkLibrary,
        LinkLibraryError,
    >)
        requires
            info.is_absolute && info.meta is Some ==> info.stem is Some,
            !info.is_absolute ==> (info.extension matches Some(extension) ==> {
                let name = kind_and_name(value@).1;
                &&& extension@.len() < name.len()
                &&& name.skip(name.len() - extension@.len()) == extension@
            }),
        ensures
            ({
                let (kind, name) = kind_and_name(value@);
                let wanted = wanted_kind(kind, text_of(info.extension));
                if name.len() == 0 {
                    library == Err::<LinkLibrary, _>(LinkLibraryError::MissingName)
                } else if wanted is None {
                    library == Err::<LinkLibrary, _>(LinkLibraryError::InvalidKind)
                } else if info.is_absolute && info.meta is None {
                    library == Err::<LinkLibrary, _>(LinkLibraryError::Unreadable)
                } else if info.is_absolute && wanted == Some(LibraryKind::Mast)
                    && !info.meta->0.is_file {
                    library == Err::<LinkLibrary, _>(LinkLibraryError::NotAFile)
                } else if info.is_absolute && wanted == Some(LibraryKind::Masm)
                    && !info.meta->0.is_dir {
                    library == Err::<LinkLibrary, _>(LinkLibraryError::NotADirectory)
                } else {
                    &&& library matches Ok(library)
                    &&& library.kind == wanted->0
                    &&& if info.is_absolute {
                        library.name@ == info.stem->0@ && text_of(library.path) == Some(name)
                    } else {
                        &&& library.path is None
                        &&& library.name@ == match info.extension {
                            Some(extension) => name.take(name.len() - extension@.len() - 1),
                            None => name,
                        }
                    }
                }
            }),
    {
        let (kind, name) = Self::split(value);
        if name.as_str().unicode_len() == 0 {
            return Err(LinkLibraryError::MissingName);
        }
        let given = match &kind {
            Some(kind) => kind.as_str().unicode_len() > 0,
            None => false,
        };
        let wanted = if given {
            match &kind {
                Some(kind) => LibraryKind::parse(kind.as_str()),
                None => None,
            }
        } else {
            match &info.extension {
                Some(extension) => LibraryKind::parse(extension.as_str()),
                None => Some(LibraryKind::Mast),
            }
        };
        assert(wanted == wanted_kind(kind_and_name(value@).0, text_of(info.extension)));
        let kind = match wanted {
            Some(kind) => kind,
            None => {
                return Err(LinkLibraryError::InvalidKind);
            },
        };
        if info.is_absolute {
            match &info.meta {
                None => Err(LinkLibraryError::Unreadable),
                Some(meta) => {
                    if kind == LibraryKind::Mast && !meta.is_file {
                        return Err(LinkLibraryError::NotAFile);
                    }
                    if kind == LibraryKind::Masm && !meta.is_dir {
                        return Err(LinkLibraryError::NotADirectory);
                    }
                    let stem = match &info.stem {
                        Some(stem) => stem.as_str().to_owned(),
                        None => String::new(),
                    };
                    Ok(LinkLibrary { name: stem, path: Some(name), kind })
                },
            }
        } else {
            match &info.extension {
                Some(extension) => {
                    let chars = chars_of(name.as_str());
                    let len: usize = chars.len();
                    let end: usize = len - extension.as_str().unicode_len() - 1;
                    let short = substring(&chars, 0, end);
                    assert(short@ =~= name@.take(end as int));
                    Ok(LinkLibrary { name: short, path: None, kind })
                },
                None => Ok(LinkLibrary { name, path: None, kind }),
            }
        }
    }
}

/// A library of the given name is linked against.
pub open spec fn links(libraries: Seq<LinkLibrary>, name: Seq<char>) -> bool {
    exists|i: int| 0 <= i < libraries.len() && (#[trigger] libraries[i]).name@ == name
}

fn links_library(libraries: &Vec<LinkLibrary>, name: &str) -> (b: bool)
    ensures
        b == links(libraries@, name@),
{
    let mut i: usize = 0;
    while i < libraries.len()
        invariant
            i <= libraries@.len(),
            forall|j: int| 0 <= j < i ==> (#[trigger] libraries@[j]).name@ != name@,
        decreases libraries@.len() - i,
    {
        if same_text(libraries[i].name.as_str(), name) {
            assert(libraries@[i as int].name@ == name@);
            return true;
        }
        i = i + 1;
    }
    false
}

/// `after` is `before` with a library that comes with the compiler, unless it is there.
pub open spec fn is_with(before: Seq<LinkLibrary>, after: Seq<LinkLibrary>, name: Seq<char>) -> bool {
    if links(before, name) {
        after == before
    } else {
        after.len() == before.len() + 1 && after.drop_last() == before && is_shipped(
            after.last(),
            name,
        )
    }
}

/// `after` is `before` with the libraries that the environment needs.
pub open spec fn is_for_target(
    before: Seq<LinkLibrary>,
    after: Seq<LinkLibrary>,
    target: TargetEnv,
) -> bool {
    if target is Rollup {
        exists|middle: Seq<LinkLibrary>|
            is_with(before, middle, "std"@) && #[trigger] is_with(middle, after, "base"@)
    } else {
        is_with(before, after, "std"@)
    }
}

/// Adds the libraries that the environment needs to those that are linked against, if they are
/// not there already: the standard library always, and that of the rollup for the rollup.
pub fn add_target_link_libraries(link_libraries_in: Vec<LinkLibrary>, target: &TargetEnv) -> (out:
    Vec<LinkLibrary>)
    ensures
        is_for_target(link_libraries_in@, out@, *target),
{
    let ghost before = link_libraries_in@;
    let mut out = link_libraries_in;
    if !links_library(&out, "std") {
        out.push(LinkLibrary::stdlib());
        assert(out@.drop_last() =~= before);
    }
    let ghost middle = out@;
    assert(is_with(before, middle, "std"@));
    match target {
        TargetEnv::Base | TargetEnv::Emu => {},
        TargetEnv::Rollup { .. } => {
            if !links_library(&out, "base") {
                out.push(LinkLibrary::base());
                assert(out@.drop_last() =~= middle);
            }
            assert(is_with(middle, out@, "base"@));
        },
    }
    out
}

/// The libraries that the environment needs are linked against, and those that were are kept.
pub proof fn target_libraries_are_linked(
    before: Seq<LinkLibrary>,
    after: Seq<LinkLibrary>,
    target: TargetEnv,
)
    requires
        is_for_target(before, after, target),
    ensures
        links(after, "std"@),
        target is Rollup ==> links(after, "base"@),
        forall|i: int| 0 <= i < before.len() ==> #[trigger] after[i] == before[i],
{
    if target is Rollup {
        let middle = choose|middle: Seq<LinkLibrary>|
            is_with(before, middle, "std"@) && #[trigger] is_with(middle, after, "base"@);
        both_are_linked(before, middle, after);
    } else {
        one_is_linked(before, after, "std"@);
    }
}

proof fn one_is_linked(before: Seq<LinkLibrary>, after: Seq<LinkLibrary>, name: Seq<char>)
    requires
        is_with(before, after, name),
    ensures
        links(after, name),
        forall|i: int| 0 <= i < before.len() ==> #[trigger] after[i] == before[i],
{
    if !links(before, name) {
        assert(after[after.len() - 1].name@ == name);
        assert forall|k: int| 0 <= k < before.len() implies #[trigger] after[k] == before[k] by {
            assert(after.drop_last()[k] == after[k]);
        }
    }
}

proof fn both_are_linked(
    before: Seq<LinkLibrary>,
    middle: Seq<LinkLibrary>,
    after: Seq<LinkLibrary>,
)
    requires
        is_with(before, middle, "std"@),
        is_with(middle, after, "base"@),
    ensures
        links(after, "std"@),
        links(after, "base"@),
        forall|i: int| 0 <= i < before.len() ==> #[trigger] after[i] == before[i],
{
    one_is_linked(before, middle, "std"@);
    one_is_linked(middle, after, "base"@);
    let i = choose|i: int| 0 <= i < middle.len() && (#[trigger] middle[i]).name@ == "std"@;
    assert(after[i].name@ == "std"@);
    assert forall|k: int| 0 <= k < before.len() implies #[trigger] after[k] == before[k] by {
        assert(middle[k] == before[k]);
    }
}

} // verus!
