//! The shapes of what statistics collect: single values, lists, arrays and tables.
use vstd::prelude::*;
use vstd::string::*;
use crate::hir::sorted::{self, SortedMap};
use crate::pass::statistics::{
    bool_shown, entries_valid, entry_shown, list_shown, models, table_model, tables_merged, FlagAll,
    FlagAny, FlagNone, PassStatistic, StatisticValue,
};
use crate::text;

verus! {

/// A value that statistics collect.
pub trait Plain: StatisticValue + Copy {
    /// A value as text.
    spec fn model_text(model: Self::Model) -> Seq<char>;

    /// A value is always well-formed, and its text depends on what it is.
    proof fn is_plain(self)
        ensures
            self.valid(),
            Self::model_text(self.model()) == self.shown(),
    ;
}

impl Plain for bool {
    open spec fn model_text(model: bool) -> Seq<char> {
        bool_shown(model)
    }

    proof fn is_plain(self) {
    }
}

impl Plain for FlagNone {
    open spec fn model_text(model: bool) -> Seq<char> {
        bool_shown(!model)
    }

    proof fn is_plain(self) {
    }
}

impl Plain for FlagAny {
    open spec fn model_text(model: bool) -> Seq<char> {
        bool_shown(model)
    }

    proof fn is_plain(self) {
    }
}

impl Plain for FlagAll {
    open spec fn model_text(model: bool) -> Seq<char> {
        bool_shown(model)
    }

    proof fn is_plain(self) {
    }
}

impl Plain for u8 {
    open spec fn model_text(model: int) -> Seq<char> {
        text::decimal(model as nat)
    }

    proof fn is_plain(self) {
    }
}

impl Plain for i8 {
    open spec fn model_text(model: int) -> Seq<char> {
        text::signed(model)
    }

    proof fn is_plain(self) {
    }
}

impl Plain for u16 {
    open spec fn model_text(model: int) -> Seq<char> {
        text::decimal(model as nat)
    }

    proof fn is_plain(self) {
    }
}

impl Plain for i16 {
    open spec fn model_text(model: int) -> Seq<char> {
        text::signed(model)
    }

    proof fn is_plain(self) {
    }
}

impl Plain for u32 {
    open spec fn model_text(model: int) -> Seq<char> {
        text::decimal(model as nat)
    }

    proof fn is_plain(self) {
    }
}

impl Plain for i32 {
    open spec fn model_text(model: int) -> Seq<char> {
        text::signed(model)
    }

    proof fn is_plain(self) {
    }
}

impl Plain for u64 {
    open spec fn model_text(model: int) -> Seq<char> {
        text::decimal(model as nat)
    }

    proof fn is_plain(self) {
    }
}

impl Plain for i64 {
    open spec fn model_text(model: int) -> Seq<char> {
        text::signed(model)
    }

    proof fn is_plain(self) {
    }
}

impl Plain for usize {
    open spec fn model_text(model: int) -> Seq<char> {
        text::decimal(model as nat)
    }

    proof fn is_plain(self) {
    }
}

impl Plain for isize {
    open spec fn model_text(model: int) -> Seq<char> {
        text::signed(model)
    }

    proof fn is_plain(self) {
    }
}

/// The values of an array. Arrays merge item by item.
pub struct Lanes<T> {
    pub items: Vec<T>,
}

/// Two arrays together, as far as both go.
pub open spec fn lanes_merged<T: Plain>(a: Seq<T::Model>, b: Seq<T::Model>) -> Seq<T::Model> {
    Seq::new(
        a.len(),
        |i: int|
            if i < b.len() {
                T::merged(a[i], b[i])
            } else {
                a[i]
            },
    )
}

proof fn all_are_plain<T: Plain>(items: Seq<T>)
    ensures
        crate::pass::statistics::all_valid(items),
        list_text::<T>(models(items)) == list_shown(items),
{
    assert forall|i: int| 0 <= i < items.len() implies (#[trigger] items[i]).valid() by {
        items[i].is_plain();
    }
    assert forall|i: int| 0 <= i < items.len() implies T::model_text(
        #[trigger] models(items)[i],
    ) == items[i].shown() by {
        items[i].is_plain();
    }
    assert(models(items).map_values(|model: T::Model| T::model_text(model)) =~= items.map_values(
        |item: T| item.shown(),
    ));
}

impl<T: Plain> StatisticValue for Lanes<T> {
    type Model = Seq<T::Model>;

    open spec fn model(self) -> Seq<T::Model> {
        models(self.items@)
    }

    open spec fn valid(self) -> bool {
        true
    }

    open spec fn merged(a: Seq<T::Model>, b: Seq<T::Model>) -> Seq<T::Model> {
        lanes_merged::<T>(a, b)
    }

    open spec fn left_over(b: Seq<T::Model>) -> Seq<T::Model> {
        b
    }

    open spec fn shown(self) -> Seq<char> {
        list_shown(self.items@)
    }

    fn merge(&mut self, other: &mut Self) {
        let ghost a = self.items@;
        let ghost b = other.items@;
        let mut i: usize = 0;
        while i < self.items.len() && i < other.items.len()
            invariant
                i <= a.len(),
                i <= b.len(),
                self.items@.len() == a.len(),
                other.items@ == b,
                forall|j: int|
                    0 <= j < i ==> (#[trigger] self.items@[j]).model() == T::merged(
                        a[j].model(),
                        b[j].model(),
                    ),
                forall|j: int| i <= j < a.len() ==> #[trigger] self.items@[j] == a[j],
            decreases a.len() - i,
        {
            let mut item = self.items[i];
            let mut added = other.items[i];
            proof {
                item.is_plain();
                added.is_plain();
            }
            item.merge(&mut added);
            self.items.set(i, item);
            i = i + 1;
        }
        assert(models(self.items@) =~= lanes_merged::<T>(models(a), models(b)));
    }

    fn pretty_print(&self) -> (out: String) {
        proof {
            all_are_plain(self.items@);
        }
        crate::pass::statistics::show_list(self.items.as_slice())
    }
}

/// Values by number, in the order of the numbers. The values of a number that two tables have are
/// merged.
pub struct Table<T: Plain> {
    map: SortedMap<u32, T, false>,
}

impl<T: Plain> View for Table<T> {
    type V = Seq<(u32, T)>;

    closed spec fn view(&self) -> Seq<(u32, T)> {
        self.map@
    }
}

/// What the entries of a table are.
pub open spec fn entry_models<T: Plain>(entries: Seq<(u32, T)>) -> Seq<(u32, T::Model)> {
    entries.map_values(|entry: (u32, T)| (entry.0, entry.1.model()))
}

/// `c` is in order, and holds what two tables hold together.
pub open spec fn is_table_of<T: Plain>(
    c: Seq<(u32, T::Model)>,
    a: Seq<(u32, T::Model)>,
    b: Seq<(u32, T::Model)>,
) -> bool {
    sorted::in_order(c, false) && sorted::map_of(c) == tables_merged::<u32, T>(
        sorted::map_of(a),
        sorted::map_of(b),
    )
}

/// Two tables together.
pub open spec fn table_merged<T: Plain>(
    a: Seq<(u32, T::Model)>,
    b: Seq<(u32, T::Model)>,
) -> Seq<(u32, T::Model)> {
    choose|c: Seq<(u32, T::Model)>| #[trigger] is_table_of::<T>(c, a, b)
}

proof fn models_are_in_order<T: Plain>(entries: Seq<(u32, T)>)
    requires
        sorted::in_order(entries, false),
    ensures
        sorted::in_order(entry_models(entries), false),
        sorted::map_of(entry_models(entries)) == table_model::<u32, T>(entries),
{
    let list = entry_models(entries);
    assert forall|i: int, j: int| 0 <= i < j < list.len() implies sorted::before(
        (#[trigger] list[i]).0,
        (#[trigger] list[j]).0,
        false,
    ) by {
        assert(sorted::before(entries[i].0, entries[j].0, false));
    }
    let map = sorted::map_of(list);
    let wanted = table_model::<u32, T>(entries);
    assert forall|key: u32| #[trigger] map.dom().contains(key) implies wanted.dom().contains(key)
        && map[key] == wanted[key] by {
        let i = choose|i: int| 0 <= i < list.len() && (#[trigger] list[i]).0 == key;
        sorted::entry_is_held(list, false, i);
        sorted::entry_is_held(entries, false, i);
        assert(entries[i].0 == key);
    }
    assert forall|key: u32| #[trigger] wanted.dom().contains(key) implies map.dom().contains(
        key,
    ) by {
        let i = choose|i: int| 0 <= i < entries.len() && (#[trigger] entries[i]).0 == key;
        sorted::entry_is_held(list, false, i);
        assert(list[i].0 == key);
    }
    assert(map =~= wanted);
}

proof fn entries_are_plain<T: Plain>(entries: Seq<(u32, T)>)
    ensures
        entries_valid(entries),
        table_text::<T>(entry_models(entries)) == "{"@ + text::joined(
            entries.map_values(|entry: (u32, T)| entry_shown(entry)),
            ", "@,
        ) + "}"@,
{
    assert forall|i: int| 0 <= i < entries.len() implies (#[trigger] entries[i]).1.valid() by {
        entries[i].1.is_plain();
    }
    let list = entry_models(entries);
    let a = list.map_values(
        |entry: (u32, T::Model)| text::decimal(entry.0 as nat) + ": "@ + T::model_text(entry.1),
    );
    let b = entries.map_values(|entry: (u32, T)| entry_shown(entry));
    assert forall|i: int| 0 <= i < entries.len() implies #[trigger] a[i] == b[i] by {
        entries[i].1.is_plain();
        assert(list[i] == (entries[i].0, entries[i].1.model()));
    }
    assert(a =~= b);
}

impl<T: Plain> Table<T> {
    #[verifier::type_invariant]
    spec fn inv(&self) -> bool {
        self.map.wf()
    }

    /// The values by their numbers.
    pub open spec fn values(&self) -> Map<u32, T> {
        sorted::map_of(self@)
    }

    /// No values.
    pub fn new() -> (table: Self)
        ensures
            table@ == Seq::<(u32, T)>::empty(),
    {
        Table { map: SortedMap::new() }
    }

    /// How many values there are.
    pub fn len(&self) -> (len: usize)
        ensures
            len == self@.len(),
    {
        self.map.len()
    }

    /// Sets the value of a number.
    pub fn insert(&mut self, number: u32, value: T)
        ensures
            final(self).values() == old(self).values().insert(number, value),
    {
        proof {
            use_type_invariant(&*self);
        }
        let mut map: SortedMap<u32, T, false> = SortedMap::new();
        std::mem::swap(&mut map, &mut self.map);
        map.insert(number, value);
        self.map = map;
    }

    /// The value of a number.
    pub fn get(&self, number: u32) -> (value: Option<T>)
        ensures
            value == if self.values().dom().contains(number) {
                Some(self.values()[number])
            } else {
                None
            },
    {
        proof {
            use_type_invariant(self);
        }
        match self.map.find(number) {
            Some(at) => Some(*self.map.at(at).1),
            None => None,
        }
    }

    /// A table with the same values.
    pub fn duplicate(&self) -> (copy: Self)
        ensures
            copy@ == self@,
    {
        proof {
            use_type_invariant(self);
        }
        Table { map: self.map.duplicate() }
    }
}

impl<T: Plain> StatisticValue for Table<T> {
    type Model = Seq<(u32, T::Model)>;

    open spec fn model(self) -> Seq<(u32, T::Model)> {
        entry_models(self@)
    }

    open spec fn valid(self) -> bool {
        true
    }

    open spec fn merged(a: Seq<(u32, T::Model)>, b: Seq<(u32, T::Model)>) -> Seq<(u32, T::Model)> {
        table_merged::<T>(a, b)
    }

    open spec fn left_over(b: Seq<(u32, T::Model)>) -> Seq<(u32, T::Model)> {
        Seq::empty()
    }

    open spec fn shown(self) -> Seq<char> {
        "{"@ + text::joined(self@.map_values(|entry: (u32, T)| entry_shown(entry)), ", "@) + "}"@
    }

    fn merge(&mut self, other: &mut Self) {
        proof {
            use_type_invariant(&*self);
            use_type_invariant(&*other);
        }
        let ghost a = self@;
        let ghost b = other@;
        let mut map: SortedMap<u32, T, false> = SortedMap::new();
        std::mem::swap(&mut map, &mut self.map);
        let mut added: SortedMap<u32, T, false> = SortedMap::new();
        std::mem::swap(&mut added, &mut other.map);
        proof {
            entries_are_plain(a);
            entries_are_plain(b);
        }
        map.merge(&mut added);
        proof {
            models_are_in_order(a);
            models_are_in_order(b);
            models_are_in_order(map@);
            let c = entry_models(map@);
            assert(is_table_of::<T>(c, entry_models(a), entry_models(b)));
            sorted::map_says_all(c, table_merged::<T>(entry_models(a), entry_models(b)), false);
        }
        self.map = map;
        assert(entry_models(other@) =~= Seq::<(u32, T::Model)>::empty());
    }

    fn pretty_print(&self) -> (out: String) {
        proof {
            use_type_invariant(self);
            entries_are_plain(self@);
        }
        self.map.pretty_print()
    }
}

/// What a statistic collected, and in which shape.
pub ghost enum Shape<M> {
    One(M),
    List(Seq<M>),
    Array(Seq<M>),
    Table(Seq<(u32, M)>),
}

/// Both are of the same shape; arrays are if they have as many items.
pub open spec fn same_shape<M>(a: Shape<M>, b: Shape<M>) -> bool {
    match (a, b) {
        (Shape::One(_), Shape::One(_)) => true,
        (Shape::List(_), Shape::List(_)) => true,
        (Shape::Array(a), Shape::Array(b)) => a.len() == b.len(),
        (Shape::Table(_), Shape::Table(_)) => true,
        _ => false,
    }
}

/// Both together; the first one alone if they are of different shapes.
pub open spec fn shape_merged<T: Plain>(a: Shape<T::Model>, b: Shape<T::Model>) -> Shape<T::Model> {
    match (a, b) {
        (Shape::One(a), Shape::One(b)) => Shape::One(T::merged(a, b)),
        (Shape::List(a), Shape::List(b)) => Shape::List(a + b),
        (Shape::Array(a), Shape::Array(b)) => if a.len() == b.len() {
            Shape::Array(lanes_merged::<T>(a, b))
        } else {
            Shape::Array(a)
        },
        (Shape::Table(a), Shape::Table(b)) => Shape::Table(table_merged::<T>(a, b)),
        _ => a,
    }
}

/// A list as text.
pub open spec fn list_text<T: Plain>(list: Seq<T::Model>) -> Seq<char> {
    "["@ + text::joined(list.map_values(|model: T::Model| T::model_text(model)), ", "@) + "]"@
}

/// A table as text.
pub open spec fn table_text<T: Plain>(entries: Seq<(u32, T::Model)>) -> Seq<char> {
    "{"@ + text::joined(
        entries.map_values(
            |entry: (u32, T::Model)| text::decimal(entry.0 as nat) + ": "@ + T::model_text(entry.1),
        ),
        ", "@,
    ) + "}"@
}

/// What was collected, as text.
pub open spec fn shape_text<T: Plain>(shape: Shape<T::Model>) -> Seq<char> {
    match shape {
        Shape::One(model) => T::model_text(model),
        Shape::List(list) => list_text::<T>(list),
        Shape::Array(list) => list_text::<T>(list),
        Shape::Table(entries) => table_text::<T>(entries),
    }
}

/// A statistic of values of one type.
pub enum Collected<T: Plain> {
    One(PassStatistic<T>),
    List(PassStatistic<Vec<T>>),
    Array(PassStatistic<Lanes<T>>),
    Table(PassStatistic<Table<T>>),
}

impl<T: Plain> Collected<T> {
    /// What was collected.
    pub open spec fn shape(self) -> Shape<T::Model> {
        match self {
            Collected::One(s) => Shape::One(s.value.model()),
            Collected::List(s) => Shape::List(s.value.model()),
            Collected::Array(s) => Shape::Array(s.value.model()),
            Collected::Table(s) => Shape::Table(s.value.model()),
        }
    }

    /// The name, as text.
    pub open spec fn title(self) -> Seq<char> {
        match self {
            Collected::One(s) => s.name@,
            Collected::List(s) => s.name@,
            Collected::Array(s) => s.name@,
            Collected::Table(s) => s.name@,
        }
    }

    /// The description, as text.
    pub open spec fn meaning(self) -> Seq<char> {
        match self {
            Collected::One(s) => s.description@,
            Collected::List(s) => s.description@,
            Collected::Array(s) => s.description@,
            Collected::Table(s) => s.description@,
        }
    }

    /// The name.
    pub fn name(&self) -> (name: &str)
        ensures
            name@ == self.title(),
    {
        match self {
            Collected::One(s) => s.name.as_str(),
            Collected::List(s) => s.name.as_str(),
            Collected::Array(s) => s.name.as_str(),
            Collected::Table(s) => s.name.as_str(),
        }
    }

    /// What the statistic means.
    pub fn description(&self) -> (description: &str)
        ensures
            description@ == self.meaning(),
    {
        match self {
            Collected::One(s) => s.description.as_str(),
            Collected::List(s) => s.description.as_str(),
            Collected::Array(s) => s.description.as_str(),
            Collected::Table(s) => s.description.as_str(),
        }
    }

    /// What was collected, as text.
    pub fn pretty_print(&self) -> (out: String)
        ensures
            out@ == shape_text::<T>(self.shape()),
    {
        match self {
            Collected::One(s) => {
                proof {
                    s.value.is_plain();
                }
                s.value.pretty_print()
            },
            Collected::List(s) => {
                proof {
                    all_are_plain(s.value@);
                }
                s.value.pretty_print()
            },
            Collected::Array(s) => {
                proof {
                    all_are_plain(s.value.items@);
                }
                s.value.pretty_print()
            },
            Collected::Table(s) => {
                proof {
                    entries_are_plain(s.value@);
                }
                s.value.pretty_print()
            },
        }
    }

    /// Merges what another statistic collected into this one, if it is of the same shape. What a
    /// list or a table held is moved.
    pub fn try_merge(&mut self, other: &mut Self) -> (done: bool)
        ensures
            done == same_shape(old(self).shape(), old(other).shape()),
            final(self).title() == old(self).title(),
            final(self).meaning() == old(self).meaning(),
            final(self).shape() == shape_merged::<T>(old(self).shape(), old(other).shape()),
            final(other).title() == old(other).title(),
            final(other).meaning() == old(other).meaning(),
            !done ==> *final(self) == *old(self) && *final(other) == *old(other),
    {
        match (self, other) {
            (Collected::One(a), Collected::One(b)) => {
                proof {
                    a.value.is_plain();
                    b.value.is_plain();
                }
                a.value.merge(&mut b.value);
                true
            },
            (Collected::List(a), Collected::List(b)) => {
                proof {
                    all_are_plain(a.value@);
                    all_are_plain(b.value@);
                }
                a.value.merge(&mut b.value);
                true
            },
            (Collected::Array(a), Collected::Array(b)) => {
                if a.value.items.len() != b.value.items.len() {
                    return false;
                }
                a.value.merge(&mut b.value);
                true
            },
            (Collected::Table(a), Collected::Table(b)) => {
                a.value.merge(&mut b.value);
                true
            },
            _ => false,
        }
    }

    /// A copy of the statistic.
    pub fn duplicate(&self) -> (copy: Self)
        ensures
            copy.title() == self.title(),
            copy.meaning() == self.meaning(),
            copy.shape() == self.shape(),
    {
        match self {
            Collected::One(s) => Collected::One(
                PassStatistic {
                    name: s.name.as_str().to_owned(),
                    description: s.description.as_str().to_owned(),
                    value: s.value,
                },
            ),
            Collected::List(s) => Collected::List(
                PassStatistic {
                    name: s.name.as_str().to_owned(),
                    description: s.description.as_str().to_owned(),
                    value: copy_items(&s.value),
                },
            ),
            Collected::Array(s) => Collected::Array(
                PassStatistic {
                    name: s.name.as_str().to_owned(),
                    description: s.description.as_str().to_owned(),
                    value: Lanes { items: copy_items(&s.value.items) },
                },
            ),
            Collected::Table(s) => Collected::Table(
                PassStatistic {
                    name: s.name.as_str().to_owned(),
                    description: s.description.as_str().to_owned(),
                    value: s.value.duplicate(),
                },
            ),
        }
    }
}

fn copy_items<T: Copy>(items: &Vec<T>) -> (copy: Vec<T>)
    ensures
        copy@ == items@,
{
    let mut copy: Vec<T> = Vec::new();
    let mut i: usize = 0;
    while i < items.len()
        invariant
            i <= items@.len(),
            copy@ == items@.take(i as int),
        decreases items@.len() - i,
    {
        copy.push(items[i]);
        i = i + 1;
        assert(copy@ =~= items@.take(i as int));
    }
    assert(copy@ =~= items@);
    copy
}

} // verus!
