//! Symbols of the WebAssembly component model.
//!
//! ```text
//! SYMBOL ::= ID
//! QUALIFIED_SYMBOL ::= NAMESPACE ("/" ID)* ("@" VERSION)?
//! NAMESPACE ::= (ID ":")+ ID
//! ```
use vstd::prelude::*;
use std::collections::VecDeque;
use crate::hir::path::{self, Components, InvalidSymbolPathError, SymbolNameComponent, SymbolPath};
use crate::symbol::{Interner, Symbol};
use crate::text::{self, chars_of, same_text, substring};

verus! {

/// The characters of identifiers: the letters and digits of ASCII, and the hyphen.
pub open spec fn is_id_char(c: char) -> bool {
    ('A' <= c && c <= 'Z') || ('a' <= c && c <= 'z') || ('0' <= c && c <= '9') || c == '-'
}

/// A text of at least one character of identifiers.
pub open spec fn is_id(s: Seq<char>) -> bool {
    s.len() > 0 && forall|i: int| 0 <= i < s.len() ==> is_id_char(#[trigger] s[i])
}

/// Where the characters of identifiers that start at `from` end.
pub open spec fn id_end(s: Seq<char>, from: int) -> int
    decreases s.len() - from,
{
    if 0 <= from < s.len() && is_id_char(s[from]) {
        id_end(s, from + 1)
    } else {
        from
    }
}

/// Where the list of identifiers that starts at `from` ends, given the character between them;
/// none if an identifier is missing.
pub open spec fn list_end(s: Seq<char>, separator: char, from: int) -> Option<int>
    decreases s.len() - from,
{
    let end = id_end(s, from);
    if end <= from {
        None
    } else if end < s.len() && s[end] == separator {
        list_end(s, separator, end + 1)
    } else {
        Some(end)
    }
}

/// The identifiers of the list that starts at `from`.
pub open spec fn list_of(s: Seq<char>, separator: char, from: int) -> Seq<Seq<char>>
    decreases s.len() - from,
{
    let end = id_end(s, from);
    if end <= from {
        Seq::empty()
    } else if end < s.len() && s[end] == separator {
        seq![s.subrange(from, end)] + list_of(s, separator, end + 1)
    } else {
        seq![s.subrange(from, end)]
    }
}

/// What a symbol consists of.
pub ghost struct Parsed {
    pub absolute: bool,
    pub parts: Seq<Seq<char>>,
    pub name: Seq<char>,
}

/// What the given text stands for.
pub open spec fn parsed(s: Seq<char>) -> Result<Parsed, InvalidSymbolPathError> {
    if s.len() == 0 {
        Ok(Parsed { absolute: false, parts: Seq::empty(), name: s })
    } else {
        match list_end(s, ':', 0) {
            None => Err(InvalidSymbolPathError::InvalidFormat),
            Some(end) => {
                let absolute = id_end(s, 0) < end;
                if end >= s.len() {
                    Ok(Parsed { absolute, parts: Seq::empty(), name: s })
                } else if s[end] == '/' {
                    if absolute {
                        exported(s, end)
                    } else {
                        Err(InvalidSymbolPathError::MissingPackage)
                    }
                } else if s[end] == '@' {
                    if absolute {
                        Ok(Parsed { absolute, parts: Seq::empty(), name: s.take(end) })
                    } else {
                        Err(InvalidSymbolPathError::UnexpectedVersion)
                    }
                } else {
                    Err(
                        InvalidSymbolPathError::UnexpectedToken {
                            token: s[end],
                            pos: end as usize,
                        },
                    )
                }
            },
        }
    }
}

/// What a qualified symbol with exports stands for, given where its package ends.
pub open spec fn exported(s: Seq<char>, end: int) -> Result<Parsed, InvalidSymbolPathError> {
    match list_end(s, '/', end + 1) {
        None => Err(InvalidSymbolPathError::InvalidFormat),
        Some(last) => if last >= s.len() || s[last] == '@' {
            let ids = list_of(s, '/', end + 1);
            Ok(
                Parsed {
                    absolute: true,
                    parts: seq![s.take(end)] + ids.drop_last(),
                    name: ids.last(),
                },
            )
        } else {
            Err(InvalidSymbolPathError::UnexpectedToken { token: s[last], pos: last as usize })
        },
    }
}

proof fn id_end_is_later(s: Seq<char>, from: int)
    requires
        0 <= from <= s.len(),
    ensures
        from <= id_end(s, from) <= s.len(),
        forall|i: int| from <= i < id_end(s, from) ==> is_id_char(#[trigger] s[i]),
        id_end(s, from) < s.len() ==> !is_id_char(s[id_end(s, from)]),
    decreases s.len() - from,
{
    if from < s.len() && is_id_char(s[from]) {
        id_end_is_later(s, from + 1);
    }
}

proof fn id_end_is_where(s: Seq<char>, from: int, end: int)
    requires
        0 <= from <= end <= s.len(),
        forall|i: int| from <= i < end ==> is_id_char(#[trigger] s[i]),
        end < s.len() ==> !is_id_char(s[end]),
    ensures
        id_end(s, from) == end,
    decreases end - from,
{
    if from < end {
        assert(is_id_char(s[from]));
        id_end_is_where(s, from + 1, end);
    }
}

proof fn list_end_is_later(s: Seq<char>, separator: char, from: int)
    requires
        0 <= from <= s.len(),
    ensures
        list_end(s, separator, from) matches Some(end) ==> from < end <= s.len() && id_end(s, from)
            <= end,
    decreases s.len() - from,
{
    id_end_is_later(s, from);
    let end = id_end(s, from);
    if end > from && end < s.len() && s[end] == separator {
        list_end_is_later(s, separator, end + 1);
    }
}

proof fn lists_join_back(s: Seq<char>, separator: char, from: int)
    requires
        0 <= from <= s.len(),
        list_end(s, separator, from) is Some,
    ensures
        list_of(s, separator, from).len() > 0,
        text::joined(list_of(s, separator, from), seq![separator]) == s.subrange(
            from,
            list_end(s, separator, from)->0,
        ),
    decreases s.len() - from,
{
    id_end_is_later(s, from);
    let end = id_end(s, from);
    if end > from && end < s.len() && s[end] == separator {
        lists_join_back(s, separator, end + 1);
        list_end_is_later(s, separator, end + 1);
        let rest = list_of(s, separator, end + 1);
        text::joined_from_the_front(s.subrange(from, end), rest, seq![separator]);
        let stop = list_end(s, separator, from)->0;
        assert(s.subrange(from, end) + seq![separator] + s.subrange(end + 1, stop) == s.subrange(
            from,
            stop,
        ));
    } else {
        assert(text::joined(seq![s.subrange(from, end)], seq![separator]) == s.subrange(from, end));
    }
}

/// Where the version of a symbol starts: at the first `@`, or at the end.
pub open spec fn unversioned(s: Seq<char>, from: int) -> Seq<char>
    decreases s.len() - from,
{
    if 0 <= from < s.len() {
        if s[from] == '@' {
            s.take(from)
        } else {
            unversioned(s, from + 1)
        }
    } else {
        s
    }
}

proof fn unversioned_is_where(s: Seq<char>, from: int, at: int)
    requires
        0 <= from <= at <= s.len(),
        forall|i: int| from <= i < at ==> #[trigger] s[i] != '@',
        at < s.len() ==> s[at] == '@',
    ensures
        unversioned(s, from) == s.take(at),
    decreases at - from,
{
    if from < at {
        assert(s[from] != '@');
        unversioned_is_where(s, from + 1, at);
    } else if at == s.len() {
        assert(s.take(at) == s);
    }
}

proof fn lists_have_no_version(s: Seq<char>, separator: char, from: int)
    requires
        0 <= from <= s.len(),
        list_end(s, separator, from) is Some,
        separator != '@',
    ensures
        forall|i: int| from <= i < list_end(s, separator, from)->0 ==> #[trigger] s[i] != '@',
    decreases s.len() - from,
{
    id_end_is_later(s, from);
    let end = id_end(s, from);
    if end > from && end < s.len() && s[end] == separator {
        lists_have_no_version(s, separator, end + 1);
    }
}

/// A symbol that is accepted is, up to its version, its parts and its name with slashes between
/// them.
pub proof fn parsed_symbols_print_back(s: Seq<char>)
    requires
        s.len() > 0,
        parsed(s) is Ok,
    ensures
        text::joined((parsed(s)->Ok_0).parts.push((parsed(s)->Ok_0).name), seq!['/'])
            == unversioned(s, 0),
{
    let end = list_end(s, ':', 0)->0;
    list_end_is_later(s, ':', 0);
    lists_have_no_version(s, ':', 0);
    let p = parsed(s)->Ok_0;
    if end >= s.len() || s[end] == '@' {
        unversioned_is_where(s, 0, end);
        assert(s.take(s.len() as int) == s);
        assert(p.parts.push(p.name) == seq![p.name]);
    } else {
        let last = list_end(s, '/', end + 1)->0;
        list_end_is_later(s, '/', end + 1);
        lists_have_no_version(s, '/', end + 1);
        unversioned_is_where(s, 0, last);
        lists_join_back(s, '/', end + 1);
        let ids = list_of(s, '/', end + 1);
        assert(p.parts.push(p.name) == seq![s.take(end)] + ids);
        text::joined_from_the_front(s.take(end), ids, seq!['/']);
        assert(s.take(end) + seq!['/'] + s.subrange(end + 1, last) == s.take(last));
    }
}

/// A list of identifiers.
pub open spec fn are_ids(ids: Seq<Seq<char>>) -> bool {
    forall|i: int| 0 <= i < ids.len() ==> is_id(#[trigger] ids[i])
}

proof fn lists_are_read(
    s: Seq<char>,
    separator: char,
    from: int,
    ids: Seq<Seq<char>>,
    rest: Seq<char>,
)
    requires
        0 <= from <= s.len(),
        ids.len() > 0,
        are_ids(ids),
        !is_id_char(separator),
        s.skip(from) == text::joined(ids, seq![separator]) + rest,
        rest.len() > 0 ==> !is_id_char(rest[0]) && rest[0] != separator,
    ensures
        list_end(s, separator, from) == Some(s.len() - rest.len()),
        list_of(s, separator, from) == ids,
        id_end(s, from) == from + ids[0].len(),
    decreases ids.len(),
{
    let tail = s.skip(from);
    let first = ids[0];
    assert(is_id(first));
    if ids.len() == 1 {
        let end = from + first.len();
        assert(tail == first + rest);
        assert forall|i: int| from <= i < end implies is_id_char(#[trigger] s[i]) by {
            assert(s[i] == tail[i - from]);
            assert(is_id_char(first[i - from]));
        }
        if end < s.len() {
            assert(s[end] == tail[end - from]);
        }
        id_end_is_where(s, from, end);
        assert(s.subrange(from, end) == first) by {
            assert forall|i: int| 0 <= i < first.len() implies s.subrange(from, end)[i]
                == #[trigger] first[i] by {
                assert(s[from + i] == tail[i]);
            }
        }
        assert(ids == seq![first]);
    } else {
        let others = ids.skip(1);
        assert(ids == seq![first] + others);
        text::joined_from_the_front(first, others, seq![separator]);
        let end = from + first.len();
        let more = text::joined(others, seq![separator]) + rest;
        assert(tail == first + seq![separator] + more);
        assert forall|i: int| from <= i < end implies is_id_char(#[trigger] s[i]) by {
            assert(s[i] == tail[i - from]);
            assert(is_id_char(first[i - from]));
        }
        assert(s[end] == tail[end - from]);
        assert(s[end] == separator);
        id_end_is_where(s, from, end);
        assert(s.subrange(from, end) == first) by {
            assert forall|i: int| 0 <= i < first.len() implies s.subrange(from, end)[i]
                == #[trigger] first[i] by {
                assert(s[from + i] == tail[i]);
            }
        }
        assert(s.skip(end + 1) == more) by {
            assert forall|i: int| 0 <= i < more.len() implies s.skip(end + 1)[i]
                == #[trigger] more[i] by {
                assert(s[end + 1 + i] == tail[end + 1 + i - from]);
            }
        }
        assert forall|i: int| 0 <= i < others.len() implies is_id(#[trigger] others[i]) by {
            assert(others[i] == ids[i + 1]);
        }
        lists_are_read(s, separator, end + 1, others, rest);
    }
}

/// A local symbol is an identifier, and stands for itself.
pub proof fn local_symbols_are_accepted(id: Seq<char>)
    requires
        is_id(id),
    ensures
        parsed(id) == Ok::<Parsed, InvalidSymbolPathError>(
            Parsed { absolute: false, parts: Seq::empty(), name: id },
        ),
{
    assert(id.skip(0) == text::joined(seq![id], seq![':']) + Seq::<char>::empty());
    lists_are_read(id, ':', 0, seq![id], Seq::empty());
}

/// A package is named by two or more identifiers with colons between them. It may have a
/// version, which is dropped.
pub proof fn packages_are_accepted(namespace: Seq<Seq<char>>, version: Seq<char>)
    requires
        namespace.len() >= 2,
        are_ids(namespace),
        version.len() == 0 || version[0] == '@',
    ensures
        parsed(text::joined(namespace, seq![':']) + version) == Ok::<
            Parsed,
            InvalidSymbolPathError,
        >(
            Parsed {
                absolute: true,
                parts: Seq::empty(),
                name: text::joined(namespace, seq![':']),
            },
        ),
{
    let package = text::joined(namespace, seq![':']);
    let s = package + version;
    assert(s.skip(0) == s);
    lists_are_read(s, ':', 0, namespace, version);
    more_than_the_first(namespace, ':');
    assert(s.take(package.len() as int) == package);
    if version.len() == 0 {
        assert(s == package);
    } else {
        assert(s[package.len() as int] == '@');
    }
}

proof fn more_than_the_first(ids: Seq<Seq<char>>, separator: char)
    requires
        ids.len() >= 2,
    ensures
        text::joined(ids, seq![separator]).len() > ids[0].len(),
{
    assert(ids == seq![ids[0]] + ids.skip(1));
    text::joined_from_the_front(ids[0], ids.skip(1), seq![separator]);
}

/// An export of a package follows it, with slashes before every identifier. The symbol may have
/// a version, which is dropped.
pub proof fn exports_are_accepted(
    namespace: Seq<Seq<char>>,
    exports: Seq<Seq<char>>,
    version: Seq<char>,
)
    requires
        namespace.len() >= 2,
        are_ids(namespace),
        exports.len() >= 1,
        are_ids(exports),
        version.len() == 0 || version[0] == '@',
    ensures
        parsed(
            text::joined(namespace, seq![':']) + seq!['/'] + text::joined(exports, seq!['/'])
                + version,
        ) == Ok::<Parsed, InvalidSymbolPathError>(
            Parsed {
                absolute: true,
                parts: seq![text::joined(namespace, seq![':'])] + exports.drop_last(),
                name: exports.last(),
            },
        ),
{
    let package = text::joined(namespace, seq![':']);
    let rest = seq!['/'] + text::joined(exports, seq!['/']) + version;
    let s = package + seq!['/'] + text::joined(exports, seq!['/']) + version;
    assert(s.skip(0) == package + rest);
    lists_are_read(s, ':', 0, namespace, rest);
    more_than_the_first(namespace, ':');
    let end = package.len() as int;
    assert(s[end] == '/');
    assert(s.skip(end + 1) == text::joined(exports, seq!['/']) + version);
    lists_are_read(s, '/', end + 1, exports, version);
    assert(s.take(end) == package);
    let last = s.len() - version.len();
    if version.len() > 0 {
        assert(s[last] == version[0]);
    }
}

fn is_valid_id_char(c: char) -> (b: bool)
    ensures
        b == is_id_char(c),
{
    ('A' <= c && c <= 'Z') || ('a' <= c && c <= 'z') || ('0' <= c && c <= '9') || c == '-'
}

fn lex_id(s: &Vec<char>, from: usize) -> (end: usize)
    requires
        from <= s@.len(),
    ensures
        end == id_end(s@, from as int),
        from <= end <= s@.len(),
{
    let mut end: usize = from;
    while end < s.len() && is_valid_id_char(s[end])
        invariant
            from <= end <= s@.len(),
            id_end(s@, from as int) == id_end(s@, end as int),
        decreases s@.len() - end,
    {
        end = end + 1;
    }
    end
}

fn lex_list(s: &Vec<char>, separator: char, from: usize) -> (list: Option<(usize, Vec<String>)>)
    requires
        from <= s@.len(),
    ensures
        match list {
            Some((end, ids)) => list_end(s@, separator, from as int) == Some(end as int) && from
                < end <= s@.len() && text::texts(ids@) == list_of(s@, separator, from as int)
                && ids@.len() > 0,
            None => list_end(s@, separator, from as int) is None,
        },
{
    let mut ids: Vec<String> = Vec::new();
    let mut start: usize = from;
    assert(text::texts(ids@) + list_of(s@, separator, start as int) == list_of(
        s@,
        separator,
        from as int,
    ));
    loop
        invariant
            from <= start <= s@.len(),
            list_end(s@, separator, from as int) == list_end(s@, separator, start as int),
            text::texts(ids@) + list_of(s@, separator, start as int) == list_of(
                s@,
                separator,
                from as int,
            ),
        decreases s@.len() - start,
    {
        let end = lex_id(s, start);
        if end == start {
            return None;
        }
        let id = substring(s, start, end);
        let ghost before = ids@;
        ids.push(id);
        assert(text::texts(ids@) == text::texts(before) + seq![id@]);
        if end < s.len() && s[end] == separator {
            assert(text::texts(ids@) + list_of(s@, separator, end + 1) == text::texts(before) + (
            seq![id@] + list_of(s@, separator, end + 1)));
            start = end + 1;
        } else {
            return Some((end, ids));
        }
    }
}

/// The components of a symbol, which are taken one by one.
pub struct SymbolNameComponents {
    pub parts: VecDeque<String>,
    pub name: String,
    pub absolute: bool,
    pub done: bool,
}

impl SymbolNameComponents {
    /// The texts of the parts that are left.
    pub open spec fn part_texts(&self) -> Seq<Seq<char>> {
        text::texts(self.parts@)
    }

    /// The components that are left, spelled out.
    pub open spec fn remaining(&self) -> Seq<path::Part> {
        if self.done {
            Seq::empty()
        } else {
            (if self.absolute {
                seq![path::Part::Root]
            } else {
                Seq::empty()
            }) + self.part_texts().map_values(|t: Seq<char>| path::Part::Component(t)).push(
                path::Part::Leaf(self.name@),
            )
        }
    }

    /// The components of a symbol of the component model.
    ///
    /// * `foo` is the symbol `foo` of the current scope
    /// * `miden:base/foo` is `foo` of the package `miden:base`
    /// * `miden:base/foo/bar` is `bar` of the interface `foo` of that package
    /// * `miden:base/foo/bar@1.0.0` is the same, of one version of the package
    ///
    /// A local symbol has no version, and a package name has a namespace.
    pub fn from_component_model_symbol(symbol: Symbol, interner: &Interner) -> (components: Result<
        SymbolNameComponents,
        InvalidSymbolPathError,
    >)
        requires
            interner.knows(symbol),
        ensures
            match components {
                Ok(components) => parsed(interner.text(symbol)) matches Ok(p) && {
                    &&& components.absolute == p.absolute
                    &&& components.part_texts() == p.parts
                    &&& components.name@ == p.name
                    &&& components.done == (interner.text(symbol).len() == 0)
                },
                Err(e) => parsed(interner.text(symbol)) == Err::<Parsed, InvalidSymbolPathError>(e),
            },
    {
        let s = chars_of(interner.as_str(symbol));
        let mut parts: VecDeque<String> = VecDeque::new();
        assert(text::texts(parts@) == Seq::<Seq<char>>::empty());
        if s.len() == 0 {
            let name = interner.as_str(symbol).to_owned();
            return Ok(SymbolNameComponents { parts, name, absolute: false, done: true });
        }
        let first_end = lex_id(&s, 0);
        let (end, _) = match lex_list(&s, ':', 0) {
            None => return Err(InvalidSymbolPathError::InvalidFormat),
            Some(list) => list,
        };
        let absolute = first_end < end;
        let package = substring(&s, 0, end);
        assert(package@ == s@.take(end as int));
        if end == s.len() {
            assert(s@.take(end as int) == s@);
            return Ok(SymbolNameComponents { parts, name: package, absolute, done: false });
        }
        if s[end] == '@' {
            if !absolute {
                return Err(InvalidSymbolPathError::UnexpectedVersion);
            }
            return Ok(SymbolNameComponents { parts, name: package, absolute, done: false });
        }
        if s[end] != '/' {
            return Err(InvalidSymbolPathError::UnexpectedToken { token: s[end], pos: end });
        }
        if !absolute {
            return Err(InvalidSymbolPathError::MissingPackage);
        }
        let (last, mut ids) = match lex_list(&s, '/', end + 1) {
            None => return Err(InvalidSymbolPathError::InvalidFormat),
            Some(list) => list,
        };
        if last < s.len() && s[last] != '@' {
            return Err(InvalidSymbolPathError::UnexpectedToken { token: s[last], pos: last });
        }
        let ghost all = ids@;
        let name = ids.pop().unwrap();
        parts.push_back(package);
        assert(text::texts(parts@) == seq![s@.take(end as int)] + text::texts(all).take(0));
        let ghost held = ids@;
        let mut i: usize = 0;
        while i < ids.len()
            invariant
                ids@ == held,
                all.len() > 0,
                held == all.drop_last(),
                i <= ids@.len(),
                text::texts(parts@) == seq![s@.take(end as int)] + text::texts(all).take(i as int),
            decreases ids@.len() - i,
        {
            let ghost before = parts@;
            let part = ids[i].as_str().to_owned();
            parts.push_back(part);
            assert(text::texts(parts@) == text::texts(before).push(part@));
            assert(text::texts(all)[i as int] == part@);
            assert(text::texts(all).take(i + 1) == text::texts(all).take(i as int).push(part@));
            assert(text::texts(parts@) == seq![s@.take(end as int)] + text::texts(all).take(i + 1));
            i = i + 1;
        }
        assert(text::texts(all).take(all.len() - 1) == text::texts(all).drop_last());
        assert(text::texts(all).last() == name@);
        Ok(SymbolNameComponents { parts, name, absolute, done: false })
    }

    /// Takes the next component.
    pub fn next(&mut self, interner: &mut Interner) -> (component: Option<SymbolNameComponent>)
        requires
            old(interner).wf(),
            old(interner)@.len() < u32::MAX,
        ensures
            final(interner).wf(),
            final(interner).extends(old(interner)),
            final(interner)@.len() <= old(interner)@.len() + 1,
            match component {
                Some(component) => {
                    &&& old(self).remaining().len() > 0
                    &&& final(interner).knows(component.symbol())
                    &&& path::spelled(component, final(interner)) == old(self).remaining()[0]
                    &&& final(self).remaining() == old(self).remaining().skip(1)
                },
                None => old(self).remaining().len() == 0 && *final(self) == *old(self),
            },
    {
        if self.done {
            return None;
        }
        if self.absolute {
            self.absolute = false;
            assert(self.remaining() == old(self).remaining().skip(1));
            return Some(SymbolNameComponent::Root);
        }
        let ghost before = self.parts@;
        if let Some(part) = self.parts.pop_front() {
            assert(text::texts(self.parts@) == text::texts(before).skip(1));
            assert(text::texts(before)[0] == part@);
            assert(self.remaining() == old(self).remaining().skip(1));
            let symbol = interner.intern(part.as_str());
            return Some(SymbolNameComponent::Component(symbol));
        }
        self.done = true;
        assert(self.remaining() == old(self).remaining().skip(1));
        let symbol = interner.intern(self.name.as_str());
        Some(SymbolNameComponent::Leaf(symbol))
    }

    /// How many components are left.
    pub fn len(&self) -> (len: usize)
        requires
            self.name@.len() == 0 ==> self.parts@.len() == 0,
            self.parts@.len() + 1 < usize::MAX,
        ensures
            len == self.remaining().len(),
    {
        if self.done {
            0
        } else if self.absolute {
            self.parts.len() + 2
        } else {
            self.parts.len() + 1
        }
    }

    /// The first part is `::`, which stands for the root.
    pub open spec fn starts_at_root(&self) -> bool {
        self.part_texts().len() > 0 && self.part_texts()[0] == "::"@
    }

    /// The parts after the root.
    pub open spec fn inner_texts(&self) -> Seq<Seq<char>> {
        if self.starts_at_root() {
            self.part_texts().skip(1)
        } else {
            self.part_texts()
        }
    }

    /// All components: the root of an absolute symbol, the parts and the name.
    pub open spec fn path_parts(&self) -> Seq<path::Part> {
        (if self.absolute || self.starts_at_root() {
            seq![path::Part::Root]
        } else {
            Seq::empty()
        }) + self.inner_texts().map_values(|t: Seq<char>| path::Part::Component(t)).push(
            path::Part::Leaf(self.name@),
        )
    }

    /// The components as a path; none if the symbol is empty.
    pub fn into_symbol_path(self, interner: &mut Interner) -> (path: Option<SymbolPath>)
        requires
            old(interner).wf(),
            old(interner)@.len() + self.parts@.len() + 1 < u32::MAX,
        ensures
            final(interner).wf(),
            final(interner).extends(old(interner)),
            final(interner)@.len() <= old(interner)@.len() + self.parts@.len() + 1,
            match path {
                Some(path) => {
                    &&& self.name@.len() > 0
                    &&& path.known(final(interner))
                    &&& path.parts(final(interner)) == self.path_parts()
                },
                None => self.name@.len() == 0,
            },
    {
        if self.name.as_str().unicode_len() == 0 {
            return None;
        }
        let mut path = SymbolPath { path: Components::new() };
        let ghost wanted = self.path_parts();
        let mut i: usize = 0;
        let rooted = self.parts.len() > 0 && same_text(self.parts[0].as_str(), "::");
        proof {
            if self.parts@.len() > 0 {
                assert(self.part_texts()[0] == self.parts@[0]@);
            }
        }
        assert(rooted == self.starts_at_root());
        assert(path.parts(interner) == wanted.take(0));
        if rooted {
            i = 1;
        }
        let ghost skipped: int = i as int;
        let ghost head: int = if rooted || self.absolute {
            1
        } else {
            0
        };
        if rooted || self.absolute {
            path.path.push(SymbolNameComponent::Root);
            assert(path.parts(interner) =~= seq![path::Part::Root]);
            assert(wanted.take(1) =~= seq![path::Part::Root]);
        }
        while i < self.parts.len()
            invariant
                skipped <= i <= self.parts@.len(),
                skipped == if self.starts_at_root() {
                    1int
                } else {
                    0int
                },
                head == if self.absolute || self.starts_at_root() {
                    1int
                } else {
                    0int
                },
                interner.wf(),
                interner.extends(old(interner)),
                interner@.len() <= old(interner)@.len() + i,
                old(interner)@.len() + self.parts@.len() + 1 < u32::MAX,
                path.known(interner),
                wanted == self.path_parts(),
                path.parts(interner) == wanted.take(head + i - skipped),
            decreases self.parts@.len() - i,
        {
            let ghost before = *interner;
            let ghost path_before = path;
            let ghost at: int = head + i - skipped;
            let part = &self.parts[i];
            assert(self.part_texts()[i as int] == part@);
            assert(self.inner_texts()[i - skipped] == part@);
            assert(wanted[at] == path::Part::Component(part@));
            let symbol = interner.intern(part.as_str());
            path.path.push(SymbolNameComponent::Component(symbol));
            proof {
                path::keep_spelling(path_before.path@, &before, interner);
                assert(path.parts(interner) == path_before.parts(interner).push(wanted[at]));
                assert(wanted.take(at + 1) == wanted.take(at).push(wanted[at]));
            }
            i = i + 1;
        }
        let ghost at: int = head + i - skipped;
        assert(wanted.len() == at + 1);
        assert(wanted[at] == path::Part::Leaf(self.name@));
        let ghost before = *interner;
        let ghost path_before = path;
        let symbol = interner.intern(self.name.as_str());
        path.path.push(SymbolNameComponent::Leaf(symbol));
        proof {
            path::keep_spelling(path_before.path@, &before, interner);
            assert(path.parts(interner) == path_before.parts(interner).push(wanted[at]));
            assert(wanted.take(at + 1) == wanted.take(at).push(wanted[at]));
            assert(wanted.take(at + 1) == wanted);
        }
        Some(path)
    }

    /// All components as one name, with slashes between them; the root has no text of its own. None
    /// if the symbol is empty.
    pub fn into_symbol_name(self, interner: &mut Interner) -> (name: Option<Symbol>)
        requires
            old(interner).wf(),
            old(interner)@.len() + self.parts@.len() + 2 < u32::MAX,
        ensures
            final(interner).wf(),
            final(interner).extends(old(interner)),
            final(interner)@.len() <= old(interner)@.len() + self.parts@.len() + 2,
            match name {
                Some(name) => {
                    &&& self.name@.len() > 0
                    &&& final(interner).knows(name)
                    &&& final(interner).text(name) == text::joined(
                        self.inner_texts().push(self.name@),
                        "/"@,
                    )
                },
                None => self.name@.len() == 0,
            },
    {
        let ghost texts = self.inner_texts().push(self.name@);
        let ghost wanted = self.path_parts();
        match self.into_symbol_path(interner) {
            Some(path) => {
                let rendered = path.render(interner);
                proof {
                    let spelled = path.parts(interner);
                    assert(spelled == wanted);
                    let shown = path.unrooted().map_values(
                        |c: SymbolNameComponent| interner.text(c.symbol()),
                    );
                    assert(path::spelled(path.path@[0], interner) == spelled[0]);
                    assert(shown.len() == texts.len());
                    assert forall|i: int| 0 <= i < texts.len() implies shown[i] == #[trigger] texts[i] by {
                        let k = if path.path@[0] is Root {
                            i + 1
                        } else {
                            i
                        };
                        assert(path::spelled(path.path@[k], interner) == spelled[k]);
                    }
                    assert(shown == texts);
                }
                let symbol = interner.intern(rendered.as_str());
                Some(symbol)
            },
            None => None,
        }
    }
}

} // verus!
