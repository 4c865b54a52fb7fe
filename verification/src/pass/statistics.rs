//! Statistics that passes collect.
use vstd::prelude::*;
use vstd::string::*;
use core::cmp::Ordering;
use crate::hir::sorted::{self, OrderedKey, SortedMap};
use crate::pass::collected::{same_shape, shape_merged, shape_text, Collected, Shape};
use crate::text::{self, push_decimal, push_signed, same_text};

verus! {

/// A value that a statistic can have.
pub trait StatisticValue: Sized {
    /// What the value is, mathematically.
    type Model;

    /// What the value is, mathematically.
    spec fn model(self) -> Self::Model;

    /// The value is well-formed.
    spec fn valid(self) -> bool;

    /// What two values are together.
    spec fn merged(a: Self::Model, b: Self::Model) -> Self::Model;

    /// What is left of a value that was merged into another.
    spec fn left_over(b: Self::Model) -> Self::Model;

    /// The value as text.
    spec fn shown(self) -> Seq<char>;

    /// Merges another value into this one.
    fn merge(&mut self, other: &mut Self)
        requires
            old(self).valid(),
            old(other).valid(),
        ensures
            final(self).valid(),
            final(self).model() == Self::merged(old(self).model(), old(other).model()),
            final(other).valid(),
            final(other).model() == Self::left_over(old(other).model()),
    ;

    /// The value as text.
    fn pretty_print(&self) -> (out: String)
        requires
            self.valid(),
        ensures
            out@ == self.shown(),
    ;
}

/// A truth value as text.
pub open spec fn bool_shown(value: bool) -> Seq<char> {
    if value {
        "true"@
    } else {
        "false"@
    }
}

fn show_bool(value: bool) -> (out: String)
    ensures
        out@ == bool_shown(value),
{
    if value {
        "true".to_owned()
    } else {
        "false".to_owned()
    }
}

/// Merges by OR.
impl StatisticValue for bool {
    type Model = bool;

    open spec fn model(self) -> bool {
        self
    }

    open spec fn valid(self) -> bool {
        true
    }

    open spec fn merged(a: bool, b: bool) -> bool {
        a || b
    }

    open spec fn left_over(b: bool) -> bool {
        b
    }

    open spec fn shown(self) -> Seq<char> {
        bool_shown(self)
    }

    fn merge(&mut self, other: &mut Self) {
        *self = *self || *other;
    }

    fn pretty_print(&self) -> (out: String) {
        show_bool(*self)
    }
}

/// A flag that is true only if all values that were observed are false.
///
/// It starts with nothing observed, and merges by OR.
#[derive(Debug, Copy, Clone, PartialEq, Eq, Structural)]
pub struct FlagNone(pub bool);

impl Default for FlagNone {
    fn default() -> (flag: Self)
        ensures
            flag.0 == false,
    {
        FlagNone(false)
    }
}

impl FlagNone {
    /// What the flag says.
    pub open spec fn says(self) -> bool {
        !self.0
    }

    /// What the flag says.
    pub fn get(&self) -> (value: bool)
        ensures
            value == self.says(),
    {
        !self.0
    }
}

impl StatisticValue for FlagNone {
    type Model = bool;

    open spec fn model(self) -> bool {
        self.0
    }

    open spec fn valid(self) -> bool {
        true
    }

    open spec fn merged(a: bool, b: bool) -> bool {
        a || b
    }

    open spec fn left_over(b: bool) -> bool {
        b
    }

    open spec fn shown(self) -> Seq<char> {
        bool_shown(self.says())
    }

    fn merge(&mut self, other: &mut Self) {
        self.0 = self.0 || other.0;
    }

    fn pretty_print(&self) -> (out: String) {
        show_bool(self.get())
    }
}

/// A flag that is true only if at least one value that was observed is true.
///
/// It starts as false, and merges by OR.
#[derive(Debug, Copy, Clone, PartialEq, Eq, Structural)]
pub struct FlagAny(pub bool);

impl Default for FlagAny {
    fn default() -> (flag: Self)
        ensures
            flag.0 == false,
    {
        FlagAny(false)
    }
}

impl FlagAny {
    /// What the flag says.
    pub open spec fn says(self) -> bool {
        self.0
    }

    /// What the flag says.
    pub fn get(&self) -> (value: bool)
        ensures
            value == self.says(),
    {
        self.0
    }
}

impl StatisticValue for FlagAny {
    type Model = bool;

    open spec fn model(self) -> bool {
        self.0
    }

    open spec fn valid(self) -> bool {
        true
    }

    open spec fn merged(a: bool, b: bool) -> bool {
        a || b
    }

    open spec fn left_over(b: bool) -> bool {
        b
    }

    open spec fn shown(self) -> Seq<char> {
        bool_shown(self.says())
    }

    fn merge(&mut self, other: &mut Self) {
        self.0 = self.0 || other.0;
    }

    fn pretty_print(&self) -> (out: String) {
        show_bool(self.get())
    }
}

/// A flag that is true only if all values that were observed are true.
///
/// It starts as true, and merges by AND.
#[derive(Debug, Copy, Clone, PartialEq, Eq, Structural)]
pub struct FlagAll(pub bool);

impl Default for FlagAll {
    fn default() -> (flag: Self)
        ensures
            flag.0 == true,
    {
        FlagAll(true)
    }
}

impl FlagAll {
    /// What the flag says.
    pub open spec fn says(self) -> bool {
        self.0
    }

    /// What the flag says.
    pub fn get(&self) -> (value: bool)
        ensures
            value == self.says(),
    {
        self.0
    }
}

impl StatisticValue for FlagAll {
    type Model = bool;

    open spec fn model(self) -> bool {
        self.0
    }

    open spec fn valid(self) -> bool {
        true
    }

    open spec fn merged(a: bool, b: bool) -> bool {
        a && b
    }

    open spec fn left_over(b: bool) -> bool {
        b
    }

    open spec fn shown(self) -> Seq<char> {
        bool_shown(self.says())
    }

    fn merge(&mut self, other: &mut Self) {
        self.0 = self.0 && other.0;
    }

    fn pretty_print(&self) -> (out: String) {
        show_bool(self.get())
    }
}

/// Adds two numbers by saturating addition.
impl StatisticValue for u8 {
    type Model = int;

    open spec fn model(self) -> int {
        self as int
    }

    open spec fn valid(self) -> bool {
        true
    }

    open spec fn merged(a: int, b: int) -> int {
        if a + b > u8::MAX {
            u8::MAX as int
        } else {
            a + b
        }
    }

    open spec fn left_over(b: int) -> int {
        b
    }

    open spec fn shown(self) -> Seq<char> {
        text::decimal(self as nat)
    }

    fn merge(&mut self, other: &mut Self) {
        *self = self.saturating_add(*other);
    }

    fn pretty_print(&self) -> (out: String) {
        let mut out = String::new();
        push_decimal(&mut out, *self as u64);
        assert(out@ =~= self.shown());
        out
    }
}

/// Adds two numbers by saturating addition.
impl StatisticValue for i8 {
    type Model = int;

    open spec fn model(self) -> int {
        self as int
    }

    open spec fn valid(self) -> bool {
        true
    }

    open spec fn merged(a: int, b: int) -> int {
        if a + b > i8::MAX {
            i8::MAX as int
        } else if a + b < i8::MIN {
            i8::MIN as int
        } else {
            a + b
        }
    }

    open spec fn left_over(b: int) -> int {
        b
    }

    open spec fn shown(self) -> Seq<char> {
        text::signed(self as int)
    }

    fn merge(&mut self, other: &mut Self) {
        *self = match self.checked_add(*other) {
            Some(sum) => sum,
            None => if *other < 0 {
                i8::MIN
            } else {
                i8::MAX
            },
        };
    }

    fn pretty_print(&self) -> (out: String) {
        let mut out = String::new();
        push_signed(&mut out, *self as i64);
        assert(out@ =~= self.shown());
        out
    }
}

/// Adds two numbers by saturating addition.
impl StatisticValue for u16 {
    type Model = int;

    open spec fn model(self) -> int {
        self as int
    }

    open spec fn valid(self) -> bool {
        true
    }

    open spec fn merged(a: int, b: int) -> int {
        if a + b > u16::MAX {
            u16::MAX as int
        } else {
            a + b
        }
    }

    open spec fn left_over(b: int) -> int {
        b
    }

    open spec fn shown(self) -> Seq<char> {
        text::decimal(self as nat)
    }

    fn merge(&mut self, other: &mut Self) {
        *self = self.saturating_add(*other);
    }

    fn pretty_print(&self) -> (out: String) {
        let mut out = String::new();
        push_decimal(&mut out, *self as u64);
        assert(out@ =~= self.shown());
        out
    }
}

/// Adds two numbers by saturating addition.
impl StatisticValue for i16 {
    type Model = int;

    open spec fn model(self) -> int {
        self as int
    }

    open spec fn valid(self) -> bool {
        true
    }

    open spec fn merged(a: int, b: int) -> int {
        if a + b > i16::MAX {
            i16::MAX as int
        } else if a + b < i16::MIN {
            i16::MIN as int
        } else {
            a + b
        }
    }

    open spec fn left_over(b: int) -> int {
        b
    }

    open spec fn shown(self) -> Seq<char> {
        text::signed(self as int)
    }

    fn merge(&mut self, other: &mut Self) {
        *self = match self.checked_add(*other) {
            Some(sum) => sum,
            None => if *other < 0 {
                i16::MIN
            } else {
                i16::MAX
            },
        };
    }

    fn pretty_print(&self) -> (out: String) {
        let mut out = String::new();
        push_signed(&mut out, *self as i64);
        assert(out@ =~= self.shown());
        out
    }
}

/// Adds two numbers by saturating addition.
impl StatisticValue for u32 {
    type Model = int;

    open spec fn model(self) -> int {
        self as int
    }

    open spec fn valid(self) -> bool {
        true
    }

    open spec fn merged(a: int, b: int) -> int {
        if a + b > u32::MAX {
            u32::MAX as int
        } else {
            a + b
        }
    }

    open spec fn left_over(b: int) -> int {
        b
    }

    open spec fn shown(self) -> Seq<char> {
        text::decimal(self as nat)
    }

    fn merge(&mut self, other: &mut Self) {
        *self = self.saturating_add(*other);
    }

    fn pretty_print(&self) -> (out: String) {
        let mut out = String::new();
        push_decimal(&mut out, *self as u64);
        assert(out@ =~= self.shown());
        out
    }
}

/// Adds two numbers by saturating addition.
impl StatisticValue for i32 {
    type Model = int;

    open spec fn model(self) -> int {
        self as int
    }

    open spec fn valid(self) -> bool {
        true
    }

    open spec fn merged(a: int, b: int) -> int {
        if a + b > i32::MAX {
            i32::MAX as int
        } else if a + b < i32::MIN {
            i32::MIN as int
        } else {
            a + b
        }
    }

    open spec fn left_over(b: int) -> int {
        b
    }

    open spec fn shown(self) -> Seq<char> {
        text::signed(self as int)
    }

    fn merge(&mut self, other: &mut Self) {
        *self = match self.checked_add(*other) {
            Some(sum) => sum,
            None => if *other < 0 {
                i32::MIN
            } else {
                i32::MAX
            },
        };
    }

    fn pretty_print(&self) -> (out: String) {
        let mut out = String::new();
        push_signed(&mut out, *self as i64);
        assert(out@ =~= self.shown());
        out
    }
}

/// Adds two numbers by saturating addition.
impl StatisticValue for u64 {
    type Model = int;

    open spec fn model(self) -> int {
        self as int
    }

    open spec fn valid(self) -> bool {
        true
    }

    open spec fn merged(a: int, b: int) -> int {
        if a + b > u64::MAX {
            u64::MAX as int
        } else {
            a + b
        }
    }

    open spec fn left_over(b: int) -> int {
        b
    }

    open spec fn shown(self) -> Seq<char> {
        text::decimal(self as nat)
    }

    fn merge(&mut self, other: &mut Self) {
        *self = self.saturating_add(*other);
    }

    fn pretty_print(&self) -> (out: String) {
        let mut out = String::new();
        push_decimal(&mut out, *self as u64);
        assert(out@ =~= self.shown());
        out
    }
}

/// Adds two numbers by saturating addition.
impl StatisticValue for i64 {
    type Model = int;

    open spec fn model(self) -> int {
        self as int
    }

    open spec fn valid(self) -> bool {
        true
    }

    open spec fn merged(a: int, b: int) -> int {
        if a + b > i64::MAX {
            i64::MAX as int
        } else if a + b < i64::MIN {
            i64::MIN as int
        } else {
            a + b
        }
    }

    open spec fn left_over(b: int) -> int {
        b
    }

    open spec fn shown(self) -> Seq<char> {
        text::signed(self as int)
    }

    fn merge(&mut self, other: &mut Self) {
        *self = match self.checked_add(*other) {
            Some(sum) => sum,
            None => if *other < 0 {
                i64::MIN
            } else {
                i64::MAX
            },
        };
    }

    fn pretty_print(&self) -> (out: String) {
        let mut out = String::new();
        push_signed(&mut out, *self as i64);
        assert(out@ =~= self.shown());
        out
    }
}

/// Adds two numbers by saturating addition.
impl StatisticValue for usize {
    type Model = int;

    open spec fn model(self) -> int {
        self as int
    }

    open spec fn valid(self) -> bool {
        true
    }

    open spec fn merged(a: int, b: int) -> int {
        if a + b > usize::MAX {
            usize::MAX as int
        } else {
            a + b
        }
    }

    open spec fn left_over(b: int) -> int {
        b
    }

    open spec fn shown(self) -> Seq<char> {
        text::decimal(self as nat)
    }

    fn merge(&mut self, other: &mut Self) {
        *self = self.saturating_add(*other);
    }

    fn pretty_print(&self) -> (out: String) {
        let mut out = String::new();
        push_decimal(&mut out, *self as u64);
        assert(out@ =~= self.shown());
        out
    }
}

/// Adds two numbers by saturating addition.
impl StatisticValue for isize {
    type Model = int;

    open spec fn model(self) -> int {
        self as int
    }

    open spec fn valid(self) -> bool {
        true
    }

    open spec fn merged(a: int, b: int) -> int {
        if a + b > isize::MAX {
            isize::MAX as int
        } else if a + b < isize::MIN {
            isize::MIN as int
        } else {
            a + b
        }
    }

    open spec fn left_over(b: int) -> int {
        b
    }

    open spec fn shown(self) -> Seq<char> {
        text::signed(self as int)
    }

    fn merge(&mut self, other: &mut Self) {
        *self = match self.checked_add(*other) {
            Some(sum) => sum,
            None => if *other < 0 {
                isize::MIN
            } else {
                isize::MAX
            },
        };
    }

    fn pretty_print(&self) -> (out: String) {
        let mut out = String::new();
        push_signed(&mut out, *self as i64);
        assert(out@ =~= self.shown());
        out
    }
}

/// What the values of a list are.
pub open spec fn models<T: StatisticValue>(items: Seq<T>) -> Seq<T::Model> {
    items.map_values(|item: T| item.model())
}

/// Every value of a list is well-formed.
pub open spec fn all_valid<T: StatisticValue>(items: Seq<T>) -> bool {
    forall|i: int| 0 <= i < items.len() ==> (#[trigger] items[i]).valid()
}

/// A list of values as text.
pub open spec fn list_shown<T: StatisticValue>(items: Seq<T>) -> Seq<char> {
    "["@ + text::joined(items.map_values(|item: T| item.shown()), ", "@) + "]"@
}

pub(crate) fn show_list<T: StatisticValue>(items: &[T]) -> (out: String)
    requires
        all_valid(items@),
    ensures
        out@ == list_shown(items@),
{
    let ghost all = items@.map_values(|item: T| item.shown());
    let mut parts: Vec<String> = Vec::new();
    let mut i: usize = 0;
    assert(text::texts(parts@) =~= all.take(0));
    while i < items.len()
        invariant
            i <= items@.len(),
            all_valid(items@),
            all == items@.map_values(|item: T| item.shown()),
            text::texts(parts@) == all.take(i as int),
        decreases items@.len() - i,
    {
        assert(items@[i as int].valid());
        let part = items[i].pretty_print();
        let ghost before = parts@;
        parts.push(part);
        assert(text::texts(parts@) =~= text::texts(before).push(part@));
        assert(all.take(i + 1) =~= all.take(i as int).push(all[i as int]));
        i = i + 1;
    }
    assert(all.take(all.len() as int) == all);
    let mut out = String::new();
    out.append("[");
    out.append(text::join(&parts, ", ").as_str());
    out.append("]");
    assert(out@ =~= list_shown(items@));
    out
}

/// Merges two lists by appending.
impl<T: StatisticValue> StatisticValue for Vec<T> {
    type Model = Seq<T::Model>;

    open spec fn model(self) -> Seq<T::Model> {
        models(self@)
    }

    open spec fn valid(self) -> bool {
        all_valid(self@)
    }

    open spec fn merged(a: Seq<T::Model>, b: Seq<T::Model>) -> Seq<T::Model> {
        a + b
    }

    open spec fn left_over(b: Seq<T::Model>) -> Seq<T::Model> {
        Seq::empty()
    }

    open spec fn shown(self) -> Seq<char> {
        list_shown(self@)
    }

    fn merge(&mut self, other: &mut Self) {
        let ghost a = self@;
        let ghost b = other@;
        self.append(other);
        assert(self@ == a + b);
        assert(models(self@) =~= models(a) + models(b));
        assert(models(other@) =~= Seq::<T::Model>::empty());
        assert forall|i: int| 0 <= i < self@.len() implies (#[trigger] self@[i]).valid() by {
            if i < a.len() {
                assert(self@[i] == a[i]);
            } else {
                assert(self@[i] == b[i - a.len()]);
            }
        }
    }

    fn pretty_print(&self) -> (out: String) {
        show_list(self.as_slice())
    }
}

/// Merges two arrays item by item.
impl<T: StatisticValue, const N: usize> StatisticValue for [T; N] {
    type Model = Seq<T::Model>;

    open spec fn model(self) -> Seq<T::Model> {
        models(self@)
    }

    open spec fn valid(self) -> bool {
        all_valid(self@)
    }

    open spec fn merged(a: Seq<T::Model>, b: Seq<T::Model>) -> Seq<T::Model> {
        Seq::new(a.len(), |i: int| T::merged(a[i], b[i]))
    }

    open spec fn left_over(b: Seq<T::Model>) -> Seq<T::Model> {
        Seq::new(b.len(), |i: int| T::left_over(b[i]))
    }

    open spec fn shown(self) -> Seq<char> {
        list_shown(self@)
    }

    fn merge(&mut self, other: &mut Self) {
        let ghost a = self@;
        let ghost b = other@;
        let mut i: usize = 0;
        while i < N
            invariant
                i <= N,
                a.len() == N,
                b.len() == N,
                all_valid(a),
                all_valid(b),
                all_valid(self@),
                forall|j: int| 0 <= j < i ==> (#[trigger] self@[j]).model() == T::merged(a[j].model(), b[j].model()),
                forall|j: int| i <= j < N ==> #[trigger] self@[j] == a[j],
                forall|j: int| i <= j < N ==> #[trigger] other@[j] == b[j],
                all_valid(other@),
                forall|j: int| 0 <= j < i ==> (#[trigger] other@[j]).model() == T::left_over(b[j].model()),
            decreases N - i,
        {
            assert(self@[i as int] == a[i as int]);
            assert(other@[i as int] == b[i as int]);
            self[i].merge(&mut other[i]);
            i = i + 1;
        }
        assert(models(self@) =~= Self::merged(models(a), models(b)));
        assert(models(other@) =~= Self::left_over(models(b)));
    }

    fn pretty_print(&self) -> (out: String) {
        show_list(self.as_slice())
    }
}

/// A key that can be shown.
pub trait ShownKey: OrderedKey {
    /// The key as text.
    spec fn label(self) -> Seq<char>;

    /// The key as text.
    fn show(&self) -> (out: String)
        ensures
            out@ == self.label(),
    ;
}

impl ShownKey for u32 {
    open spec fn label(self) -> Seq<char> {
        text::decimal(self as nat)
    }

    fn show(&self) -> (out: String) {
        let mut out = String::new();
        push_decimal(&mut out, *self as u64);
        assert(out@ =~= self.label());
        out
    }
}

/// The values of a table by their keys.
pub open spec fn table_model<K: OrderedKey, V: StatisticValue>(entries: Seq<(K, V)>) -> Map<
    K,
    V::Model,
> {
    Map::new(
        |key: K| sorted::map_of(entries).dom().contains(key),
        |key: K| sorted::map_of(entries)[key].model(),
    )
}

/// Two tables together: the values of a key that both have are merged.
pub open spec fn tables_merged<K: OrderedKey, V: StatisticValue>(
    a: Map<K, V::Model>,
    b: Map<K, V::Model>,
) -> Map<K, V::Model> {
    Map::new(
        |key: K| a.dom().contains(key) || b.dom().contains(key),
        |key: K|
            if a.dom().contains(key) && b.dom().contains(key) {
                V::merged(a[key], b[key])
            } else if a.dom().contains(key) {
                a[key]
            } else {
                b[key]
            },
    )
}

/// The values of a table are well-formed.
pub open spec fn entries_valid<K: OrderedKey, V: StatisticValue>(entries: Seq<(K, V)>) -> bool {
    forall|i: int| 0 <= i < entries.len() ==> (#[trigger] entries[i]).1.valid()
}

/// An entry of a table as text.
pub open spec fn entry_shown<K: ShownKey, V: StatisticValue>(entry: (K, V)) -> Seq<char> {
    entry.0.label() + ": "@ + entry.1.shown()
}

proof fn valid_by_key<K: OrderedKey, V: StatisticValue>(entries: Seq<(K, V)>, key: K)
    requires
        sorted::in_order(entries, false),
        entries_valid(entries),
        sorted::map_of(entries).dom().contains(key),
    ensures
        sorted::map_of(entries)[key].valid(),
{
    let i = choose|i: int| 0 <= i < entries.len() && (#[trigger] entries[i]).0 == key;
    sorted::entry_is_held(entries, false, i);
}

proof fn valid_by_entry<K: OrderedKey, V: StatisticValue>(entries: Seq<(K, V)>)
    requires
        sorted::in_order(entries, false),
        forall|key: K|
            #[trigger] sorted::map_of(entries).dom().contains(key) ==> sorted::map_of(
                entries,
            )[key].valid(),
    ensures
        entries_valid(entries),
{
    assert forall|i: int| 0 <= i < entries.len() implies (#[trigger] entries[i]).1.valid() by {
        sorted::entry_is_held(entries, false, i);
    }
}

fn merge_entry<K: ShownKey, V: StatisticValue>(
    table: &mut SortedMap<K, V, false>,
    key: K,
    value: V,
)
    requires
        old(table).wf(),
        entries_valid(old(table)@),
        value.valid(),
    ensures
        final(table).wf(),
        entries_valid(final(table)@),
        table_model(final(table)@) == table_model(old(table)@).insert(
            key,
            if table_model(old(table)@).dom().contains(key) {
                V::merged(table_model(old(table)@)[key], value.model())
            } else {
                value.model()
            },
        ),
{
    let ghost before = table@;
    let ghost model = value.model();
    let mut value = value;
    match table.find(key) {
        Some(at) => {
            assert(before[at as int].1.valid());
            let slot = table.value_mut(at);
            slot.merge(&mut value);
        },
        None => {
            table.insert(key, value);
        },
    }
    proof {
        let map = sorted::map_of(before);
        assert forall|k: K| #[trigger] sorted::map_of(table@).dom().contains(k) implies sorted::map_of(
            table@,
        )[k].valid() by {
            if k != key {
                assert(map.dom().contains(k));
                valid_by_key(before, k);
            }
        }
        valid_by_entry(table@);
        assert(table_model(table@) =~= table_model(before).insert(
            key,
            if table_model(before).dom().contains(key) {
                V::merged(table_model(before)[key], model)
            } else {
                model
            },
        ));
    }
}

/// Merges two tables by merging the values of the same key, and adding those that are missing.
impl<K: ShownKey, V: StatisticValue> StatisticValue for SortedMap<K, V, false> {
    type Model = Map<K, V::Model>;

    open spec fn model(self) -> Map<K, V::Model> {
        table_model(self@)
    }

    open spec fn valid(self) -> bool {
        self.wf() && entries_valid(self@)
    }

    open spec fn merged(a: Map<K, V::Model>, b: Map<K, V::Model>) -> Map<K, V::Model> {
        tables_merged::<K, V>(a, b)
    }

    open spec fn left_over(b: Map<K, V::Model>) -> Map<K, V::Model> {
        Map::empty()
    }

    open spec fn shown(self) -> Seq<char> {
        "{"@ + text::joined(self@.map_values(|entry: (K, V)| entry_shown(entry)), ", "@) + "}"@
    }

    fn merge(&mut self, other: &mut Self) {
        let ghost wanted = tables_merged::<K, V>(table_model(self@), table_model(other@));
        assert(old(self).valid() && old(other).valid());
        while other.len() > 0
            invariant
                self.wf(),
                other.wf(),
                entries_valid(self@),
                entries_valid(other@),
                tables_merged::<K, V>(table_model(self@), table_model(other@)) == wanted,
            decreases other@.len(),
        {
            let ghost a = table_model(self@);
            let ghost b = table_model(other@);
            let ghost rest = other@;
            proof {
                sorted::entry_is_held(rest, false, 0);
            }
            match other.take_first() {
                Some((key, value)) => {
                    assert(rest[0].1.valid());
                    merge_entry(self, key, value);
                    assert(table_model(other@) =~= b.remove(key));
                    assert(tables_merged::<K, V>(table_model(self@), table_model(other@))
                        =~= tables_merged::<K, V>(a, b));
                    assert forall|i: int| 0 <= i < other@.len() implies (
                    #[trigger] other@[i]).1.valid() by {
                        assert(other@[i] == rest[i + 1]);
                    }
                },
                None => {},
            }
        }
        assert(table_model(other@) =~= Map::empty());
        assert(tables_merged::<K, V>(table_model(self@), table_model(other@)) =~= table_model(
            self@,
        ));
        assert(self.model() == Self::merged(old(self).model(), old(other).model()));
        assert(other.model() == Self::left_over(old(other).model()));
    }

    fn pretty_print(&self) -> (out: String) {
        let ghost all = self@.map_values(|entry: (K, V)| entry_shown(entry));
        let mut parts: Vec<String> = Vec::new();
        let mut i: usize = 0;
        assert(text::texts(parts@) =~= all.take(0));
        while i < self.len()
            invariant
                i <= self@.len(),
                entries_valid(self@),
                all == self@.map_values(|entry: (K, V)| entry_shown(entry)),
                text::texts(parts@) == all.take(i as int),
            decreases self@.len() - i,
        {
            assert(self@[i as int].1.valid());
            let (key, value) = self.at(i);
            let mut part = key.show();
            part.append(": ");
            part.append(value.pretty_print().as_str());
            assert(part@ =~= entry_shown(self@[i as int]));
            let ghost before = parts@;
            parts.push(part);
            assert(text::texts(parts@) =~= text::texts(before).push(part@));
            assert(all.take(i + 1) =~= all.take(i as int).push(all[i as int]));
            i = i + 1;
        }
        assert(all.take(all.len() as int) == all);
        let mut out = String::new();
        out.append("{");
        out.append(text::join(&parts, ", ").as_str());
        out.append("}");
        assert(out@ =~= self.shown());
        out
    }
}

/// A datum that is collected by passes, and across them. It has a name, a description and a value.
pub struct PassStatistic<V> {
    pub name: String,
    pub description: String,
    pub value: V,
}

impl<V: StatisticValue> PassStatistic<V> {
    /// A statistic with the given value.
    pub fn new(name: String, description: String, value: V) -> (statistic: Self)
        ensures
            statistic.name == name,
            statistic.description == description,
            statistic.value == value,
    {
        PassStatistic { name, description, value }
    }
}

/// Statistics are the same if they have the same name.
impl<V> vstd::std_specs::cmp::PartialEqSpecImpl for PassStatistic<V> {
    open spec fn obeys_eq_spec() -> bool {
        true
    }

    open spec fn eq_spec(&self, other: &Self) -> bool {
        self.name@ == other.name@
    }
}

impl<V> PartialEq for PassStatistic<V> {
    fn eq(&self, other: &Self) -> (same: bool) {
        same_text(self.name.as_str(), other.name.as_str())
    }
}

/// Statistics are ordered by their names.
impl<V> vstd::std_specs::cmp::PartialOrdSpecImpl for PassStatistic<V> {
    open spec fn obeys_partial_cmp_spec() -> bool {
        true
    }

    open spec fn partial_cmp_spec(&self, other: &Self) -> Option<Ordering> {
        Some(
            if self.name@ == other.name@ {
                Ordering::Equal
            } else if text::precedes(self.name@, other.name@) {
                Ordering::Less
            } else {
                Ordering::Greater
            },
        )
    }
}

impl<V> PartialOrd for PassStatistic<V> {
    fn partial_cmp(&self, other: &Self) -> (order: Option<Ordering>) {
        if same_text(self.name.as_str(), other.name.as_str()) {
            Some(Ordering::Equal)
        } else if text::comes_before(self.name.as_str(), other.name.as_str()) {
            Some(Ordering::Less)
        } else {
            Some(Ordering::Greater)
        }
    }
}

/// What statistics have in common, whatever values they have.
pub trait Statistic {
    /// The name, as text.
    spec fn title(&self) -> Seq<char>;

    /// The description, as text.
    spec fn meaning(&self) -> Seq<char>;

    /// The value is well-formed.
    spec fn sound(&self) -> bool;

    /// The value, as text.
    spec fn value_shown(&self) -> Seq<char>;

    /// The name of this statistic.
    fn name(&self) -> (name: &str)
        ensures
            name@ == self.title(),
    ;

    /// What this statistic means.
    fn description(&self) -> (description: &str)
        ensures
            description@ == self.meaning(),
    ;

    /// The value of this statistic as text.
    fn pretty_print(&self) -> (out: String)
        requires
            self.sound(),
        ensures
            out@ == self.value_shown(),
    ;
}

impl<V: StatisticValue> Statistic for PassStatistic<V> {
    open spec fn title(&self) -> Seq<char> {
        self.name@
    }

    open spec fn meaning(&self) -> Seq<char> {
        self.description@
    }

    open spec fn sound(&self) -> bool {
        self.value.valid()
    }

    open spec fn value_shown(&self) -> Seq<char> {
        self.value.shown()
    }

    fn name(&self) -> (name: &str) {
        self.name.as_str()
    }

    fn description(&self) -> (description: &str) {
        self.description.as_str()
    }

    fn pretty_print(&self) -> (out: String) {
        self.value.pretty_print()
    }
}

/// What a statistic collected, and of which kind the values are.
pub ghost enum StatValue {
    Bool(Shape<bool>),
    FlagNone(Shape<bool>),
    FlagAny(Shape<bool>),
    FlagAll(Shape<bool>),
    U8(Shape<int>),
    I8(Shape<int>),
    U16(Shape<int>),
    I16(Shape<int>),
    U32(Shape<int>),
    I32(Shape<int>),
    U64(Shape<int>),
    I64(Shape<int>),
    Usize(Shape<int>),
    Isize(Shape<int>),
}

/// Both are of the same kind.
pub open spec fn same_kind(a: StatValue, b: StatValue) -> bool {
    match (a, b) {
        (StatValue::Bool(a), StatValue::Bool(b)) => same_shape(a, b),
        (StatValue::FlagNone(a), StatValue::FlagNone(b)) => same_shape(a, b),
        (StatValue::FlagAny(a), StatValue::FlagAny(b)) => same_shape(a, b),
        (StatValue::FlagAll(a), StatValue::FlagAll(b)) => same_shape(a, b),
        (StatValue::U8(a), StatValue::U8(b)) => same_shape(a, b),
        (StatValue::I8(a), StatValue::I8(b)) => same_shape(a, b),
        (StatValue::U16(a), StatValue::U16(b)) => same_shape(a, b),
        (StatValue::I16(a), StatValue::I16(b)) => same_shape(a, b),
        (StatValue::U32(a), StatValue::U32(b)) => same_shape(a, b),
        (StatValue::I32(a), StatValue::I32(b)) => same_shape(a, b),
        (StatValue::U64(a), StatValue::U64(b)) => same_shape(a, b),
        (StatValue::I64(a), StatValue::I64(b)) => same_shape(a, b),
        (StatValue::Usize(a), StatValue::Usize(b)) => same_shape(a, b),
        (StatValue::Isize(a), StatValue::Isize(b)) => same_shape(a, b),
        _ => false,
    }
}

/// Both together; the first one alone if they are of different kinds.
pub open spec fn value_merged(a: StatValue, b: StatValue) -> StatValue {
    match (a, b) {
        (StatValue::Bool(a), StatValue::Bool(b)) => StatValue::Bool(
            shape_merged::<bool>(a, b),
        ),
        (StatValue::FlagNone(a), StatValue::FlagNone(b)) => StatValue::FlagNone(
            shape_merged::<FlagNone>(a, b),
        ),
        (StatValue::FlagAny(a), StatValue::FlagAny(b)) => StatValue::FlagAny(
            shape_merged::<FlagAny>(a, b),
        ),
        (StatValue::FlagAll(a), StatValue::FlagAll(b)) => StatValue::FlagAll(
            shape_merged::<FlagAll>(a, b),
        ),
        (StatValue::U8(a), StatValue::U8(b)) => StatValue::U8(
            shape_merged::<u8>(a, b),
        ),
        (StatValue::I8(a), StatValue::I8(b)) => StatValue::I8(
            shape_merged::<i8>(a, b),
        ),
        (StatValue::U16(a), StatValue::U16(b)) => StatValue::U16(
            shape_merged::<u16>(a, b),
        ),
        (StatValue::I16(a), StatValue::I16(b)) => StatValue::I16(
            shape_merged::<i16>(a, b),
        ),
        (StatValue::U32(a), StatValue::U32(b)) => StatValue::U32(
            shape_merged::<u32>(a, b),
        ),
        (StatValue::I32(a), StatValue::I32(b)) => StatValue::I32(
            shape_merged::<i32>(a, b),
        ),
        (StatValue::U64(a), StatValue::U64(b)) => StatValue::U64(
            shape_merged::<u64>(a, b),
        ),
        (StatValue::I64(a), StatValue::I64(b)) => StatValue::I64(
            shape_merged::<i64>(a, b),
        ),
        (StatValue::Usize(a), StatValue::Usize(b)) => StatValue::Usize(
            shape_merged::<usize>(a, b),
        ),
        (StatValue::Isize(a), StatValue::Isize(b)) => StatValue::Isize(
            shape_merged::<isize>(a, b),
        ),
        _ => a,
    }
}

/// What was collected, as text.
pub open spec fn value_text(value: StatValue) -> Seq<char> {
    match value {
        StatValue::Bool(shape) => shape_text::<bool>(shape),
        StatValue::FlagNone(shape) => shape_text::<FlagNone>(shape),
        StatValue::FlagAny(shape) => shape_text::<FlagAny>(shape),
        StatValue::FlagAll(shape) => shape_text::<FlagAll>(shape),
        StatValue::U8(shape) => shape_text::<u8>(shape),
        StatValue::I8(shape) => shape_text::<i8>(shape),
        StatValue::U16(shape) => shape_text::<u16>(shape),
        StatValue::I16(shape) => shape_text::<i16>(shape),
        StatValue::U32(shape) => shape_text::<u32>(shape),
        StatValue::I32(shape) => shape_text::<i32>(shape),
        StatValue::U64(shape) => shape_text::<u64>(shape),
        StatValue::I64(shape) => shape_text::<i64>(shape),
        StatValue::Usize(shape) => shape_text::<usize>(shape),
        StatValue::Isize(shape) => shape_text::<isize>(shape),
    }
}

/// A statistic, of values of one of the kinds.
pub enum AnyStatistic {
    Bool(Collected<bool>),
    FlagNone(Collected<FlagNone>),
    FlagAny(Collected<FlagAny>),
    FlagAll(Collected<FlagAll>),
    U8(Collected<u8>),
    I8(Collected<i8>),
    U16(Collected<u16>),
    I16(Collected<i16>),
    U32(Collected<u32>),
    I32(Collected<i32>),
    U64(Collected<u64>),
    I64(Collected<i64>),
    Usize(Collected<usize>),
    Isize(Collected<isize>),
}

/// The value of the other statistic is of another kind.
#[derive(Clone, Copy, PartialEq, Eq, Debug, Structural)]
pub struct KindMismatch {}

impl AnyStatistic {
    /// What was collected.
    pub open spec fn value(self) -> StatValue {
        match self {
            AnyStatistic::Bool(s) => StatValue::Bool(s.shape()),
            AnyStatistic::FlagNone(s) => StatValue::FlagNone(s.shape()),
            AnyStatistic::FlagAny(s) => StatValue::FlagAny(s.shape()),
            AnyStatistic::FlagAll(s) => StatValue::FlagAll(s.shape()),
            AnyStatistic::U8(s) => StatValue::U8(s.shape()),
            AnyStatistic::I8(s) => StatValue::I8(s.shape()),
            AnyStatistic::U16(s) => StatValue::U16(s.shape()),
            AnyStatistic::I16(s) => StatValue::I16(s.shape()),
            AnyStatistic::U32(s) => StatValue::U32(s.shape()),
            AnyStatistic::I32(s) => StatValue::I32(s.shape()),
            AnyStatistic::U64(s) => StatValue::U64(s.shape()),
            AnyStatistic::I64(s) => StatValue::I64(s.shape()),
            AnyStatistic::Usize(s) => StatValue::Usize(s.shape()),
            AnyStatistic::Isize(s) => StatValue::Isize(s.shape()),
        }
    }

    /// Merges what another statistic collected into this one. What a list or a table held is moved.
    pub fn try_merge(&mut self, other: &mut AnyStatistic) -> (done: Result<(), KindMismatch>)
        ensures
            done is Ok <==> same_kind(old(self).value(), old(other).value()),
            final(self).title() == old(self).title(),
            final(self).meaning() == old(self).meaning(),
            final(self).value() == value_merged(old(self).value(), old(other).value()),
            final(other).title() == old(other).title(),
            final(other).meaning() == old(other).meaning(),
            done is Err ==> *final(self) == *old(self) && *final(other) == *old(other),
    {
        let done = match (self, other) {
            (AnyStatistic::Bool(a), AnyStatistic::Bool(b)) => a.try_merge(b),
            (AnyStatistic::FlagNone(a), AnyStatistic::FlagNone(b)) => a.try_merge(b),
            (AnyStatistic::FlagAny(a), AnyStatistic::FlagAny(b)) => a.try_merge(b),
            (AnyStatistic::FlagAll(a), AnyStatistic::FlagAll(b)) => a.try_merge(b),
            (AnyStatistic::U8(a), AnyStatistic::U8(b)) => a.try_merge(b),
            (AnyStatistic::I8(a), AnyStatistic::I8(b)) => a.try_merge(b),
            (AnyStatistic::U16(a), AnyStatistic::U16(b)) => a.try_merge(b),
            (AnyStatistic::I16(a), AnyStatistic::I16(b)) => a.try_merge(b),
            (AnyStatistic::U32(a), AnyStatistic::U32(b)) => a.try_merge(b),
            (AnyStatistic::I32(a), AnyStatistic::I32(b)) => a.try_merge(b),
            (AnyStatistic::U64(a), AnyStatistic::U64(b)) => a.try_merge(b),
            (AnyStatistic::I64(a), AnyStatistic::I64(b)) => a.try_merge(b),
            (AnyStatistic::Usize(a), AnyStatistic::Usize(b)) => a.try_merge(b),
            (AnyStatistic::Isize(a), AnyStatistic::Isize(b)) => a.try_merge(b),
            _ => false,
        };
        if done {
            Ok(())
        } else {
            Err(KindMismatch {  })
        }
    }

    /// A copy of the statistic.
    pub fn duplicate(&self) -> (copy: AnyStatistic)
        ensures
            copy.title() == self.title(),
            copy.meaning() == self.meaning(),
            copy.value() == self.value(),
    {
        match self {
            AnyStatistic::Bool(s) => AnyStatistic::Bool(s.duplicate()),
            AnyStatistic::FlagNone(s) => AnyStatistic::FlagNone(s.duplicate()),
            AnyStatistic::FlagAny(s) => AnyStatistic::FlagAny(s.duplicate()),
            AnyStatistic::FlagAll(s) => AnyStatistic::FlagAll(s.duplicate()),
            AnyStatistic::U8(s) => AnyStatistic::U8(s.duplicate()),
            AnyStatistic::I8(s) => AnyStatistic::I8(s.duplicate()),
            AnyStatistic::U16(s) => AnyStatistic::U16(s.duplicate()),
            AnyStatistic::I16(s) => AnyStatistic::I16(s.duplicate()),
            AnyStatistic::U32(s) => AnyStatistic::U32(s.duplicate()),
            AnyStatistic::I32(s) => AnyStatistic::I32(s.duplicate()),
            AnyStatistic::U64(s) => AnyStatistic::U64(s.duplicate()),
            AnyStatistic::I64(s) => AnyStatistic::I64(s.duplicate()),
            AnyStatistic::Usize(s) => AnyStatistic::Usize(s.duplicate()),
            AnyStatistic::Isize(s) => AnyStatistic::Isize(s.duplicate()),
        }
    }
}

impl Statistic for AnyStatistic {
    open spec fn title(&self) -> Seq<char> {
        match self {
            AnyStatistic::Bool(s) => s.title(),
            AnyStatistic::FlagNone(s) => s.title(),
            AnyStatistic::FlagAny(s) => s.title(),
            AnyStatistic::FlagAll(s) => s.title(),
            AnyStatistic::U8(s) => s.title(),
            AnyStatistic::I8(s) => s.title(),
            AnyStatistic::U16(s) => s.title(),
            AnyStatistic::I16(s) => s.title(),
            AnyStatistic::U32(s) => s.title(),
            AnyStatistic::I32(s) => s.title(),
            AnyStatistic::U64(s) => s.title(),
            AnyStatistic::I64(s) => s.title(),
            AnyStatistic::Usize(s) => s.title(),
            AnyStatistic::Isize(s) => s.title(),
        }
    }

    open spec fn meaning(&self) -> Seq<char> {
        match self {
            AnyStatistic::Bool(s) => s.meaning(),
            AnyStatistic::FlagNone(s) => s.meaning(),
            AnyStatistic::FlagAny(s) => s.meaning(),
            AnyStatistic::FlagAll(s) => s.meaning(),
            AnyStatistic::U8(s) => s.meaning(),
            AnyStatistic::I8(s) => s.meaning(),
            AnyStatistic::U16(s) => s.meaning(),
            AnyStatistic::I16(s) => s.meaning(),
            AnyStatistic::U32(s) => s.meaning(),
            AnyStatistic::I32(s) => s.meaning(),
            AnyStatistic::U64(s) => s.meaning(),
            AnyStatistic::I64(s) => s.meaning(),
            AnyStatistic::Usize(s) => s.meaning(),
            AnyStatistic::Isize(s) => s.meaning(),
        }
    }

    open spec fn sound(&self) -> bool {
        true
    }

    open spec fn value_shown(&self) -> Seq<char> {
        value_text((*self).value())
    }

    fn name(&self) -> (name: &str) {
        match self {
            AnyStatistic::Bool(s) => s.name(),
            AnyStatistic::FlagNone(s) => s.name(),
            AnyStatistic::FlagAny(s) => s.name(),
            AnyStatistic::FlagAll(s) => s.name(),
            AnyStatistic::U8(s) => s.name(),
            AnyStatistic::I8(s) => s.name(),
            AnyStatistic::U16(s) => s.name(),
            AnyStatistic::I16(s) => s.name(),
            AnyStatistic::U32(s) => s.name(),
            AnyStatistic::I32(s) => s.name(),
            AnyStatistic::U64(s) => s.name(),
            AnyStatistic::I64(s) => s.name(),
            AnyStatistic::Usize(s) => s.name(),
            AnyStatistic::Isize(s) => s.name(),
        }
    }

    fn description(&self) -> (description: &str) {
        match self {
            AnyStatistic::Bool(s) => s.description(),
            AnyStatistic::FlagNone(s) => s.description(),
            AnyStatistic::FlagAny(s) => s.description(),
            AnyStatistic::FlagAll(s) => s.description(),
            AnyStatistic::U8(s) => s.description(),
            AnyStatistic::I8(s) => s.description(),
            AnyStatistic::U16(s) => s.description(),
            AnyStatistic::I16(s) => s.description(),
            AnyStatistic::U32(s) => s.description(),
            AnyStatistic::I32(s) => s.description(),
            AnyStatistic::U64(s) => s.description(),
            AnyStatistic::I64(s) => s.description(),
            AnyStatistic::Usize(s) => s.description(),
            AnyStatistic::Isize(s) => s.description(),
        }
    }

    fn pretty_print(&self) -> (out: String) {
        match self {
            AnyStatistic::Bool(s) => s.pretty_print(),
            AnyStatistic::FlagNone(s) => s.pretty_print(),
            AnyStatistic::FlagAny(s) => s.pretty_print(),
            AnyStatistic::FlagAll(s) => s.pretty_print(),
            AnyStatistic::U8(s) => s.pretty_print(),
            AnyStatistic::I8(s) => s.pretty_print(),
            AnyStatistic::U16(s) => s.pretty_print(),
            AnyStatistic::I16(s) => s.pretty_print(),
            AnyStatistic::U32(s) => s.pretty_print(),
            AnyStatistic::I32(s) => s.pretty_print(),
            AnyStatistic::U64(s) => s.pretty_print(),
            AnyStatistic::I64(s) => s.pretty_print(),
            AnyStatistic::Usize(s) => s.pretty_print(),
            AnyStatistic::Isize(s) => s.pretty_print(),
        }
    }
}

/// Observing values one after the other, a flag for none says whether all of them are false.
pub proof fn none_is_none(a: FlagNone, b: FlagNone, merged: FlagNone)
    requires
        merged.model() == FlagNone::merged(a.model(), b.model()),
    ensures
        merged.says() == (a.says() && b.says()),
{
}

/// Merging truth values, flags and unsigned numbers does not depend on the order.
pub proof fn merging_commutes(a: bool, b: bool, m: int, n: int)
    ensures
        <bool as StatisticValue>::merged(a, b) == <bool as StatisticValue>::merged(b, a),
        FlagNone::merged(a, b) == FlagNone::merged(b, a),
        FlagAny::merged(a, b) == FlagAny::merged(b, a),
        FlagAll::merged(a, b) == FlagAll::merged(b, a),
        <u64 as StatisticValue>::merged(m, n) == <u64 as StatisticValue>::merged(n, m),
{
}

} // verus!
