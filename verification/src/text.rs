//! Text as sequences of characters.
use vstd::prelude::*;
use vstd::string::*;

verus! {

/// `String::push`: the standard library documents that it appends the given character to the
/// end of the string.
pub assume_specification[ String::push ](s: &mut String, c: char)
    ensures
        final(s)@ == old(s)@.push(c),
;

/// The characters of `s`, in order.
pub fn chars_of(s: &str) -> (chars: Vec<char>)
    ensures
        chars@ == s@,
{
    let n: usize = s.unicode_len();
    let mut chars: Vec<char> = Vec::new();
    let mut i: usize = 0;
    while i < n
        invariant
            i <= n,
            n == s@.len(),
            chars@ == s@.take(i as int),
        decreases n - i,
    {
        chars.push(s.get_char(i));
        i = i + 1;
        assert(s@.take(i as int) == s@.take(i - 1).push(s@[i - 1]));
    }
    assert(s@.take(n as int) == s@);
    chars
}

/// The string whose characters are `chars`.
pub fn string_of(chars: &[char]) -> (s: String)
    ensures
        s@ == chars@,
{
    let mut s: String = String::new();
    let mut i: usize = 0;
    while i < chars.len()
        invariant
            i <= chars.len(),
            s@ == chars@.take(i as int),
        decreases chars.len() - i,
    {
        s.push(chars[i]);
        i = i + 1;
        assert(chars@.take(i as int) == chars@.take(i - 1).push(chars@[i - 1]));
    }
    assert(chars@.take(chars@.len() as int) == chars@);
    s
}

/// Whether two texts are the same.
pub fn same_text(a: &str, b: &str) -> (same: bool)
    ensures
        same == (a@ == b@),
{
    a.to_owned() == b.to_owned()
}

/// The character of a decimal digit.
pub open spec fn digit(d: int) -> char {
    if d == 0 {
        '0'
    } else if d == 1 {
        '1'
    } else if d == 2 {
        '2'
    } else if d == 3 {
        '3'
    } else if d == 4 {
        '4'
    } else if d == 5 {
        '5'
    } else if d == 6 {
        '6'
    } else if d == 7 {
        '7'
    } else if d == 8 {
        '8'
    } else {
        '9'
    }
}

/// A number in decimal notation.
pub open spec fn decimal(n: nat) -> Seq<char>
    decreases n,
{
    if n < 10 {
        seq![digit(n as int)]
    } else {
        decimal(n / 10).push(digit((n % 10) as int))
    }
}

fn digit_char(d: u64) -> (c: char)
    requires
        d < 10,
    ensures
        c == digit(d as int),
{
    match d {
        0 => '0',
        1 => '1',
        2 => '2',
        3 => '3',
        4 => '4',
        5 => '5',
        6 => '6',
        7 => '7',
        8 => '8',
        _ => '9',
    }
}

/// Appends a number in decimal notation.
pub fn push_decimal(out: &mut String, n: u64)
    ensures
        final(out)@ == old(out)@ + decimal(n as nat),
    decreases n,
{
    if n >= 10 {
        push_decimal(out, n / 10);
    }
    out.push(digit_char(n % 10));
    assert(out@ == old(out)@ + decimal(n as nat));
}

/// Appends a number with a sign in decimal notation.
pub fn push_signed(out: &mut String, n: i64)
    ensures
        final(out)@ == old(out)@ + signed(n as int),
{
    if n >= 0 {
        push_decimal(out, n as u64);
    } else if n == i64::MIN {
        out.push('-');
        push_decimal(out, 0x8000_0000_0000_0000);
    } else {
        out.push('-');
        push_decimal(out, (-n) as u64);
    }
    assert(out@ == old(out)@ + signed(n as int));
}

/// Appends a wide number in decimal notation.
pub fn push_wide(out: &mut String, n: u128)
    ensures
        final(out)@ == old(out)@ + decimal(n as nat),
    decreases n,
{
    if n >= 10 {
        push_wide(out, n / 10);
    }
    out.push(digit_char((n % 10) as u64));
    assert(out@ == old(out)@ + decimal(n as nat));
}

/// Appends a wide number with a sign in decimal notation.
pub fn push_wide_signed(out: &mut String, n: i128)
    ensures
        final(out)@ == old(out)@ + signed(n as int),
{
    if n >= 0 {
        push_wide(out, n as u128);
    } else if n == i128::MIN {
        out.push('-');
        push_wide(out, 0x8000_0000_0000_0000_0000_0000_0000_0000);
    } else {
        out.push('-');
        push_wide(out, (-n) as u128);
    }
    assert(out@ == old(out)@ + signed(n as int));
}

/// A number with a sign in decimal notation.
pub open spec fn signed(n: int) -> Seq<char> {
    if n >= 0 {
        decimal(n as nat)
    } else {
        seq!['-'] + decimal((-n) as nat)
    }
}

/// Different numbers have different notations.
pub proof fn decimal_is_injective(a: nat, b: nat)
    requires
        decimal(a) == decimal(b),
    ensures
        a == b,
    decreases a,
{
    let da = decimal(a);
    let db = decimal(b);
    assert(da.last() == digit((a % 10) as int));
    assert(db.last() == digit((b % 10) as int));
    assert(a % 10 == b % 10);
    if a < 10 && b < 10 {
    } else if a >= 10 && b >= 10 {
        assert(da.drop_last() == decimal(a / 10));
        assert(db.drop_last() == decimal(b / 10));
        decimal_is_injective(a / 10, b / 10);
    } else {
        decimal_is_not_empty(a / 10);
        decimal_is_not_empty(b / 10);
        assert(da.len() != db.len());
    }
}

/// The notation of a number has at least one digit.
pub proof fn decimal_is_not_empty(n: nat)
    ensures
        decimal(n).len() >= 1,
    decreases n,
{
}

/// The text comes before another in the order of characters.
pub open spec fn precedes(a: Seq<char>, b: Seq<char>) -> bool
    decreases a.len(),
{
    if b.len() == 0 {
        false
    } else if a.len() == 0 {
        true
    } else if a[0] == b[0] {
        precedes(a.skip(1), b.skip(1))
    } else {
        a[0] < b[0]
    }
}

/// Whether the text comes before another in the order of characters.
pub fn comes_before(a: &str, b: &str) -> (before: bool)
    ensures
        before == precedes(a@, b@),
{
    let x = chars_of(a);
    let y = chars_of(b);
    let mut i: usize = 0;
    assert(x@.skip(0) == x@);
    assert(y@.skip(0) == y@);
    while i < x.len() && i < y.len() && x[i] == y[i]
        invariant
            i <= x@.len(),
            i <= y@.len(),
            precedes(x@, y@) == precedes(x@.skip(i as int), y@.skip(i as int)),
        decreases x@.len() - i,
    {
        assert(x@.skip(i as int).skip(1) == x@.skip(i + 1));
        assert(y@.skip(i as int).skip(1) == y@.skip(i + 1));
        i = i + 1;
    }
    if i == y.len() {
        false
    } else if i == x.len() {
        true
    } else {
        x[i] < y[i]
    }
}

/// Of two different texts exactly one comes before the other.
pub proof fn texts_are_ordered(a: Seq<char>, b: Seq<char>)
    ensures
        a != b ==> (precedes(a, b) <==> !precedes(b, a)),
        !precedes(a, a),
    decreases a.len(),
{
    if a.len() > 0 && b.len() > 0 {
        texts_are_ordered(a.skip(1), b.skip(1));
        if a[0] == b[0] && a.skip(1) == b.skip(1) {
            assert(a =~= seq![a[0]] + a.skip(1));
            assert(b =~= seq![b[0]] + b.skip(1));
        }
    } else if a.len() == 0 && b.len() == 0 {
        assert(a =~= b);
    }
    if a.len() > 0 {
        texts_are_ordered(a.skip(1), a.skip(1));
    }
}

/// The order of texts is transitive.
pub proof fn text_order_is_transitive(a: Seq<char>, b: Seq<char>, c: Seq<char>)
    requires
        precedes(a, b),
        precedes(b, c),
    ensures
        precedes(a, c),
    decreases a.len(),
{
    if a.len() > 0 && a[0] == b[0] && b[0] == c[0] {
        text_order_is_transitive(a.skip(1), b.skip(1), c.skip(1));
    }
}

/// The parts, with `separator` between them.
pub open spec fn joined(parts: Seq<Seq<char>>, separator: Seq<char>) -> Seq<char>
    decreases parts.len(),
{
    if parts.len() == 0 {
        Seq::empty()
    } else if parts.len() == 1 {
        parts[0]
    } else {
        joined(parts.drop_last(), separator) + separator + parts.last()
    }
}

/// The texts of a list of strings.
pub open spec fn texts(list: Seq<String>) -> Seq<Seq<char>> {
    list.map_values(|s: String| s@)
}

/// The parts, with `separator` between them.
pub fn join(parts: &Vec<String>, separator: &str) -> (out: String)
    ensures
        out@ == joined(texts(parts@), separator@),
{
    let mut out = String::new();
    let mut i: usize = 0;
    assert(texts(parts@).take(0) == Seq::<Seq<char>>::empty());
    while i < parts.len()
        invariant
            i <= parts@.len(),
            out@ == joined(texts(parts@).take(i as int), separator@),
        decreases parts@.len() - i,
    {
        let ghost all = texts(parts@);
        assert(all.take(i + 1).drop_last() == all.take(i as int));
        assert(all.take(i + 1).last() == parts@[i as int]@);
        if i > 0 {
            out.append(separator);
        }
        out.append(parts[i].as_str());
        i = i + 1;
        if i == 1 {
            assert(out@ == all.take(1)[0]);
        }
    }
    assert(texts(parts@).take(parts@.len() as int) == texts(parts@));
    out
}

/// The characters of a range, as a string.
pub fn substring(chars: &Vec<char>, from: usize, to: usize) -> (s: String)
    requires
        from <= to <= chars@.len(),
    ensures
        s@ == chars@.subrange(from as int, to as int),
{
    string_of(vstd::slice::slice_subrange(chars.as_slice(), from, to))
}

/// A list of one part and others: the part, the separator and the others joined.
pub proof fn joined_from_the_front(first: Seq<char>, rest: Seq<Seq<char>>, separator: Seq<char>)
    requires
        rest.len() > 0,
    ensures
        joined(seq![first] + rest, separator) == first + separator + joined(rest, separator),
    decreases rest.len(),
{
    let all = seq![first] + rest;
    assert(all.last() == rest.last());
    assert(all.drop_last() == seq![first] + rest.drop_last());
    if rest.len() == 1 {
        assert(all.drop_last() == seq![first]);
        assert(joined(all.drop_last(), separator) == first);
        assert(joined(rest, separator) == rest[0]);
        assert(joined(all, separator) == first + separator + rest[0]);
    } else {
        joined_from_the_front(first, rest.drop_last(), separator);
        assert(joined(all, separator) == first + separator + joined(rest.drop_last(), separator)
            + separator + rest.last());
        assert(joined(rest, separator) == joined(rest.drop_last(), separator) + separator
            + rest.last());
        assert(first + separator + joined(rest.drop_last(), separator) + separator + rest.last()
            == first + separator + (joined(rest.drop_last(), separator) + separator
            + rest.last()));
    }
}

/// The text holds `pattern` at the given place.
pub open spec fn occurs_at(s: Seq<char>, pattern: Seq<char>, at: int) -> bool {
    &&& 0 <= at
    &&& at + pattern.len() <= s.len()
    &&& s.subrange(at, at + pattern.len()) == pattern
}

/// The first place, from `from` on, at which the text holds `pattern`.
pub open spec fn place_from(s: Seq<char>, pattern: Seq<char>, from: int) -> Option<int>
    decreases s.len() - from + 1,
{
    if from < 0 || from + pattern.len() > s.len() {
        None
    } else if occurs_at(s, pattern, from) {
        Some(from)
    } else {
        place_from(s, pattern, from + 1)
    }
}

/// Whether the text holds `pattern` at the given place.
pub fn holds_at(s: &Vec<char>, pattern: &Vec<char>, at: usize) -> (b: bool)
    ensures
        b == occurs_at(s@, pattern@, at as int),
{
    if at > s.len() || pattern.len() > s.len() - at {
        return false;
    }
    let mut i: usize = 0;
    while i < pattern.len()
        invariant
            i <= pattern@.len(),
            at + pattern@.len() <= s@.len() <= usize::MAX,
            forall|j: int| 0 <= j < i ==> s@[at + j] == pattern@[j],
        decreases pattern@.len() - i,
    {
        if s[at + i] != pattern[i] {
            assert(s@.subrange(at as int, at + pattern@.len())[i as int] != pattern@[i as int]);
            return false;
        }
        i = i + 1;
    }
    assert(s@.subrange(at as int, at + pattern@.len()) == pattern@);
    true
}

/// The first place, from `from` on, at which the text holds `pattern`.
pub fn find_from(s: &Vec<char>, pattern: &Vec<char>, from: usize) -> (place: Option<usize>)
    requires
        from <= s@.len(),
    ensures
        match place {
            Some(at) => place_from(s@, pattern@, from as int) == Some(at as int) && occurs_at(
                s@,
                pattern@,
                at as int,
            ) && from <= at,
            None => place_from(s@, pattern@, from as int) is None,
        },
{
    let mut at: usize = from;
    while pattern.len() <= s.len() - at
        invariant
            from <= at <= s@.len(),
            place_from(s@, pattern@, from as int) == place_from(s@, pattern@, at as int),
        decreases s@.len() - at,
    {
        if holds_at(s, pattern, at) {
            return Some(at);
        }
        if at == s.len() {
            assert(place_from(s@, pattern@, at + 1) is None);
            return None;
        }
        at = at + 1;
    }
    None
}

/// Whether the text begins with `prefix`.
pub open spec fn begins(s: Seq<char>, prefix: Seq<char>) -> bool {
    occurs_at(s, prefix, 0)
}

/// The pieces of the text between the occurrences of `separator`.
pub open spec fn pieces(s: Seq<char>, separator: Seq<char>) -> Seq<Seq<char>>
    decreases s.len(),
{
    match place_from(s, separator, 0) {
        Some(at) => if separator.len() > 0 && 0 <= at && at + separator.len() <= s.len() {
            seq![s.take(at)] + pieces(s.skip(at + separator.len()), separator)
        } else {
            seq![s]
        },
        None => seq![s],
    }
}

proof fn place_is_within(s: Seq<char>, pattern: Seq<char>, from: int)
    requires
        0 <= from,
    ensures
        place_from(s, pattern, from) matches Some(at) ==> from <= at && occurs_at(s, pattern, at),
    decreases s.len() - from + 1,
{
    if from + pattern.len() <= s.len() && !occurs_at(s, pattern, from) {
        place_is_within(s, pattern, from + 1);
    }
}

/// There is at least one piece.
pub proof fn pieces_are_some(s: Seq<char>, separator: Seq<char>)
    ensures
        pieces(s, separator).len() >= 1,
    decreases s.len(),
{
}

/// There are at most as many pieces as characters, and one more.
pub proof fn pieces_are_few(s: Seq<char>, separator: Seq<char>)
    ensures
        pieces(s, separator).len() <= s.len() + 1,
    decreases s.len(),
{
    match place_from(s, separator, 0) {
        Some(at) => if separator.len() > 0 && 0 <= at && at + separator.len() <= s.len() {
            pieces_are_few(s.skip(at + separator.len()), separator);
        },
        None => {},
    }
}

/// Joining the pieces of a text gives the text back.
pub proof fn pieces_join_back(s: Seq<char>, separator: Seq<char>)
    requires
        separator.len() > 0,
    ensures
        joined(pieces(s, separator), separator) == s,
    decreases s.len(),
{
    place_is_within(s, separator, 0);
    match place_from(s, separator, 0) {
        Some(at) => {
            let rest = s.skip(at + separator.len());
            pieces_join_back(rest, separator);
            pieces_are_some(rest, separator);
            joined_from_the_front(s.take(at), pieces(rest, separator), separator);
            assert(s == s.take(at) + s.subrange(at, at + separator.len()) + rest);
        },
        None => {},
    }
}

/// The pieces of the text between the occurrences of `separator`.
pub fn split(s: &str, separator: &str) -> (out: Vec<String>)
    requires
        separator@.len() > 0,
    ensures
        texts(out@) == pieces(s@, separator@),
{
    let chars = chars_of(s);
    let pattern = chars_of(separator);
    let mut out: Vec<String> = Vec::new();
    let n: usize = chars.len();
    let mut start: usize = 0;
    assert(chars@.skip(0) == chars@);
    assert(texts(out@) + pieces(chars@.skip(0), pattern@) == pieces(chars@, pattern@));
    loop
        invariant
            start <= chars@.len() == n,
            pattern@.len() > 0,
            texts(out@) + pieces(chars@.skip(start as int), pattern@) == pieces(chars@, pattern@),
            chars@ == s@,
            pattern@ == separator@,
        ensures
            start <= chars@.len(),
            place_from(chars@.skip(start as int), pattern@, 0) is None,
        decreases chars@.len() - start,
    {
        let ghost rest = chars@.skip(start as int);
        proof {
            place_shifts(chars@, pattern@, start as int, start as int);
        }
        match find_from(&chars, &pattern, start) {
            Some(at) => {
                let piece = substring(&chars, start, at);
                assert(piece@ == rest.take(at - start));
                assert(chars@.skip(at + pattern@.len()) == rest.skip(at - start + pattern@.len()));
                proof {
                    place_is_within(rest, pattern@, 0);
                }
                let ghost before = out@;
                out.push(piece);
                assert(texts(out@) == texts(before).push(piece@));
                assert(texts(out@) + pieces(chars@.skip(at + pattern@.len()), pattern@) == texts(
                    before,
                ) + (seq![piece@] + pieces(chars@.skip(at + pattern@.len()), pattern@)));
                start = at + pattern.len();
            },
            None => {
                break;
            },
        }
    }
    let ghost before = out@;
    let piece = substring(&chars, start, chars.len());
    assert(piece@ == chars@.skip(start as int));
    out.push(piece);
    assert(texts(out@) == texts(before).push(piece@));
    assert(texts(before).push(piece@) == texts(before) + seq![piece@]);
    out
}

proof fn place_shifts(s: Seq<char>, pattern: Seq<char>, start: int, from: int)
    requires
        0 <= start <= from,
        start <= s.len(),
    ensures
        place_from(s, pattern, from) is Some <==> place_from(s.skip(start), pattern, from - start) is Some,
        place_from(s, pattern, from) matches Some(at) ==> place_from(
            s.skip(start),
            pattern,
            from - start,
        ) == Some(at - start),
    decreases s.len() - from + 1,
{
    let rest = s.skip(start);
    if from + pattern.len() <= s.len() {
        assert(s.subrange(from, from + pattern.len()) == rest.subrange(
            from - start,
            from - start + pattern.len(),
        ));
        place_shifts(s, pattern, start, from + 1);
    }
}

} // verus!
