//! Paths of libraries of Miden Assembly.
use vstd::prelude::*;
use miden_assembly_syntax::ast::{Path, PathBuf};
use crate::hir::path::SymbolPath;
use crate::symbol::Interner;
use crate::text::{self, chars_of, find_from, holds_at, same_text, string_of, substring};

verus! {

/// The text of the path that `PathBuf::new` makes of a text; none if the text is no valid path.
pub uninterp spec fn canonical_path(source: Seq<char>) -> Option<Seq<char>>;

/// The text of the path that `PathBuf::absolute` makes of a text.
pub uninterp spec fn absolute_path(source: Seq<char>) -> Seq<char>;

/// `miden_assembly_syntax::ast::PathBuf::new` validates a path and brings it to its canonical
/// form; what it returns depends on the text alone.
#[verifier::external_body]
pub(crate) fn library_path(source: &str) -> (path: Option<String>)
    ensures
        match path {
            Some(path) => canonical_path(source@) == Some(path@),
            None => canonical_path(source@) is None,
        },
{
    match PathBuf::new(source) {
        Ok(path) => Some(path.as_str().to_string()),
        Err(_) => None,
    }
}

/// `miden_assembly_syntax::ast::PathBuf::absolute` makes an absolute path of a text; what it
/// returns depends on the text alone. It panics on a text with an invalid component, which
/// `PathBuf::new` refuses.
#[verifier::external_body]
fn absolute_library_path(source: &str) -> (path: String)
    requires
        canonical_path(source@) is Some,
    ensures
        path@ == absolute_path(source@),
{
    PathBuf::absolute(source).as_str().to_string()
}

/// The text of the path that `PathBuf::push` makes of a path and a text.
pub uninterp spec fn pushed_path(base: Seq<char>, path: Seq<char>) -> Seq<char>;

/// A path can be extended with nothing, with the root, and with a valid path.
pub open spec fn can_be_pushed(path: Seq<char>) -> bool {
    path.len() == 0 || path == "::"@ || canonical_path(path) is Some
}

/// `miden_assembly_syntax::ast::PathBuf::push` extends a path by the components of a text; what
/// comes of it depends on the two texts alone. A text without components changes nothing. It
/// panics on a text with an invalid component, which `PathBuf::new` refuses.
#[verifier::external_body]
pub(crate) fn push_library_path(base: &str, path: &str) -> (out: String)
    requires
        can_be_pushed(path@),
    ensures
        out@ == pushed_path(base@, path@),
        path@.len() == 0 ==> out@ == base@,
{
    let mut buf = Path::new(base).to_path_buf();
    buf.push(path);
    buf.as_str().to_string()
}

/// Whether a path can be extended with the text.
pub fn is_pushable(path: &str) -> (b: bool)
    ensures
        b == can_be_pushed(path@),
{
    path.unicode_len() == 0 || same_text(path, "::") || library_path(path).is_some()
}

/// What follows the last `#`, or all of the text.
pub open spec fn after_hash(s: Seq<char>) -> Seq<char>
    decreases s.len(),
{
    if s.len() == 0 {
        s
    } else if s.last() == '#' {
        Seq::empty()
    } else {
        after_hash(s.drop_last()).push(s.last())
    }
}

/// A character of a version: a digit or a dot.
pub open spec fn is_version_char(c: char) -> bool {
    ('0' <= c && c <= '9') || c == '.'
}

/// What follows the characters of a version.
pub open spec fn after_version(s: Seq<char>) -> Seq<char>
    decreases s.len(),
{
    if s.len() > 0 && is_version_char(s[0]) {
        after_version(s.skip(1))
    } else {
        s
    }
}

/// The text without the first `@` and the version that follows it.
pub open spec fn without_version(s: Seq<char>) -> Seq<char>
    decreases s.len(),
{
    if s.len() == 0 {
        s
    } else if s[0] == '@' {
        after_version(s.skip(1))
    } else {
        seq![s[0]] + without_version(s.skip(1))
    }
}

/// The character that stands for `c` in an identifier of Miden Assembly.
pub open spec fn replaced(c: char) -> char {
    if c == '-' || c == ':' || c == '/' {
        '_'
    } else {
        c
    }
}

/// The identifier of Miden Assembly for a name: `a:b/c@1.0.0#some-function` becomes
/// `some_function`, and `a:b/c@1.0.0` becomes `a_b_c`.
pub open spec fn sanitized(s: Seq<char>) -> Seq<char> {
    without_version(after_hash(s)).map_values(|c: char| replaced(c))
}

fn hash_start(s: &Vec<char>) -> (start: usize)
    ensures
        start <= s@.len(),
        s@.skip(start as int) == after_hash(s@),
{
    let mut start: usize = s.len();
    assert(s@.take(s@.len() as int) == s@);
    assert(after_hash(s@.take(start as int)) + s@.skip(start as int) == after_hash(s@));
    while start > 0
        invariant
            start <= s@.len(),
            after_hash(s@.take(start as int)) + s@.skip(start as int) == after_hash(s@),
        decreases start,
    {
        let c = s[start - 1];
        assert(s@.take(start as int).last() == c);
        assert(s@.take(start as int).drop_last() == s@.take(start - 1));
        if c == '#' {
            assert(s@.skip(start as int) == after_hash(s@));
            return start;
        }
        assert(s@.skip(start - 1) == seq![c] + s@.skip(start as int));
        assert(after_hash(s@.take(start - 1)).push(c) + s@.skip(start as int) == after_hash(
            s@.take(start - 1),
        ) + s@.skip(start - 1));
        start = start - 1;
    }
    assert(after_hash(s@.take(0)) + s@.skip(0) == s@.skip(0));
    start
}

fn version_end(s: &Vec<char>, from: usize) -> (end: usize)
    requires
        from <= s@.len(),
    ensures
        from <= end <= s@.len(),
        s@.skip(end as int) == after_version(s@.skip(from as int)),
{
    let mut end: usize = from;
    while end < s.len() && (('0' <= s[end] && s[end] <= '9') || s[end] == '.')
        invariant
            from <= end <= s@.len(),
            after_version(s@.skip(end as int)) == after_version(s@.skip(from as int)),
        decreases s@.len() - end,
    {
        assert(s@.skip(end as int).skip(1) == s@.skip(end + 1));
        assert(s@.skip(end as int)[0] == s@[end as int]);
        end = end + 1;
    }
    assert(end < s@.len() ==> s@.skip(end as int)[0] == s@[end as int]);
    end
}

fn drop_version(s: &Vec<char>, from: usize) -> (out: Vec<char>)
    requires
        from <= s@.len(),
    ensures
        out@ == without_version(s@.skip(from as int)),
{
    let mut out: Vec<char> = Vec::new();
    let mut i: usize = from;
    assert(out@ + without_version(s@.skip(i as int)) == without_version(s@.skip(from as int)));
    while i < s.len() && s[i] != '@'
        invariant
            from <= i <= s@.len(),
            out@ + without_version(s@.skip(i as int)) == without_version(s@.skip(from as int)),
        decreases s@.len() - i,
    {
        let ghost before = out@;
        out.push(s[i]);
        assert(s@.skip(i as int).skip(1) == s@.skip(i + 1));
        assert(s@.skip(i as int)[0] == s@[i as int]);
        assert(out@ + without_version(s@.skip(i + 1)) == before + (seq![s@[i as int]]
            + without_version(s@.skip(i + 1))));
        i = i + 1;
    }
    let ghost kept = out@;
    let mut j: usize = i;
    if i < s.len() {
        assert(s@.skip(i as int)[0] == '@');
        assert(s@.skip(i as int).skip(1) == s@.skip(i + 1));
        j = version_end(s, i + 1);
    }
    assert(without_version(s@.skip(i as int)) == s@.skip(j as int));
    let ghost tail = s@.skip(j as int);
    let ghost start = j;
    while j < s.len()
        invariant
            start <= j <= s@.len(),
            tail == s@.skip(start as int),
            out@ == kept + tail.take(j - start),
        decreases s@.len() - j,
    {
        out.push(s[j]);
        assert(tail.take(j - start + 1) == tail.take(j - start).push(s@[j as int]));
        j = j + 1;
    }
    assert(tail.take(tail.len() as int) == tail);
    out
}

/// The identifier of Miden Assembly for a name.
pub fn sanitize_component(name: &str) -> (out: String)
    ensures
        out@ == sanitized(name@),
{
    let s = chars_of(name);
    let start = hash_start(&s);
    let kept = drop_version(&s, start);
    let mut out: Vec<char> = Vec::new();
    let mut i: usize = 0;
    while i < kept.len()
        invariant
            i <= kept@.len(),
            out@ == kept@.take(i as int).map_values(|c: char| replaced(c)),
        decreases kept@.len() - i,
    {
        let c = kept[i];
        assert(kept@.take(i + 1) == kept@.take(i as int).push(c));
        if c == '-' || c == ':' || c == '/' {
            out.push('_');
        } else {
            out.push(c);
        }
        assert(out@ == kept@.take(i + 1).map_values(|c: char| replaced(c)));
        i = i + 1;
    }
    assert(kept@.take(kept@.len() as int) == kept@);
    string_of(out.as_slice())
}

/// Where the path of a module of intrinsics is nested in another path, that path alone.
pub open spec fn unnested(s: Seq<char>) -> Seq<char> {
    match text::place_from(s, "::intrinsics::"@, 0) {
        Some(at) => s.skip(at + 2),
        None => s,
    }
}

/// The text from which the library path of a symbol path is made.
pub open spec fn library_text(path: &SymbolPath, interner: &Interner) -> Seq<char> {
    unnested(
        text::joined(
            path.unrooted().map_values(
                |c: crate::hir::path::SymbolNameComponent| sanitized(interner.text(c.symbol())),
            ),
            "::"@,
        ),
    )
}

/// The text of the library path of a symbol path.
pub open spec fn library_path_of(path: &SymbolPath, interner: &Interner) -> Seq<char> {
    let s = library_text(path, interner);
    if s.len() == 0 {
        Seq::empty()
    } else if path.path@[0] is Root || text::begins(s, "intrinsics::"@) {
        absolute_path(s)
    } else {
        canonical_path(s)->0
    }
}

impl SymbolPath {
    /// The text from which the library path is made.
    pub fn library_source(&self, interner: &Interner) -> (out: String)
        requires
            self.path@.len() > 0,
            self.known(interner),
            interner.wf(),
        ensures
            out@ == library_text(self, interner),
    {
        let start: usize = if self.is_absolute() {
            1
        } else {
            0
        };
        let mut names: Vec<String> = Vec::new();
        let mut i: usize = start;
        let ghost all = self.unrooted().map_values(
            |c: crate::hir::path::SymbolNameComponent| sanitized(interner.text(c.symbol())),
        );
        assert(text::texts(names@) == all.take(0));
        while i < self.path.len()
            invariant
                start <= i <= self.path@.len(),
                start == if self.path@[0] is Root {
                    1int
                } else {
                    0int
                },
                self.known(interner),
                all == self.unrooted().map_values(
                    |c: crate::hir::path::SymbolNameComponent| sanitized(interner.text(c.symbol())),
                ),
                text::texts(names@) == all.take(i - start),
            decreases self.path@.len() - i,
        {
            let ghost before = names@;
            let name = sanitize_component(interner.as_str(self.path.at(i).as_symbol_name()));
            names.push(name);
            assert(name@ == all[i - start]);
            assert(text::texts(names@) == text::texts(before).push(name@));
            assert(all.take(i - start + 1) == all.take(i - start).push(all[i - start]));
            i = i + 1;
        }
        assert(all.take(all.len() as int) == all);
        let joined = chars_of(text::join(&names, "::").as_str());
        let len: usize = joined.len();
        let nested = chars_of("::intrinsics::");
        proof {
            reveal_strlit("::intrinsics::");
        }
        match find_from(&joined, &nested, 0) {
            Some(at) => {
                assert(joined@.subrange(at + 2, joined@.len() as int) == joined@.skip(at + 2));
                substring(&joined, at + 2, len)
            },
            None => string_of(joined.as_slice()),
        }
    }

    /// The path of the library of Miden Assembly that the symbol path stands for. Names that are
    /// written in the style of the component model become identifiers of Miden Assembly.
    pub fn to_library_path(&self, interner: &Interner) -> (out: String)
        requires
            self.path@.len() > 0,
            self.known(interner),
            interner.wf(),
            library_text(self, interner).len() > 0 ==> canonical_path(
                library_text(self, interner),
            ) is Some,
        ensures
            out@ == library_path_of(self, interner),
    {
        let source = self.library_source(interner);
        let prefix = chars_of("intrinsics::");
        let chars = chars_of(source.as_str());
        if chars.len() == 0 {
            String::new()
        } else if self.is_absolute() || holds_at(&chars, &prefix, 0) {
            absolute_library_path(source.as_str())
        } else {
            library_path(source.as_str()).unwrap()
        }
    }

    /// The path of the library that the symbol path stands for, if there is a valid one.
    pub fn try_to_library_path(&self, interner: &Interner) -> (out: Option<String>)
        requires
            self.path@.len() > 0,
            self.known(interner),
            interner.wf(),
        ensures
            match out {
                Some(out) => out@ == library_path_of(self, interner) && (library_text(
                    self,
                    interner,
                ).len() > 0 ==> canonical_path(library_text(self, interner)) is Some),
                None => library_text(self, interner).len() > 0 && canonical_path(
                    library_text(self, interner),
                ) is None,
            },
    {
        let source = self.library_source(interner);
        if source.as_str().unicode_len() > 0 && library_path(source.as_str()).is_none() {
            return None;
        }
        Some(self.to_library_path(interner))
    }
}

} // verus!
