//! Paths of symbols.
use vstd::prelude::*;
use core::cmp::Ordering;
use smallvec::SmallVec;
use crate::symbol::{Interner, Symbol};
use crate::text::{self, split};

verus! {

/// A component of a [SymbolPath].
#[derive(Clone, Copy, PartialEq, Eq, Debug, Hash, Structural)]
pub enum SymbolNameComponent {
    /// The path is relative to the root symbol table
    Root,
    /// The name of a symbol table on the way to the symbol
    Component(Symbol),
    /// The name of the symbol in its symbol table
    Leaf(Symbol),
}

impl SymbolNameComponent {
    /// The name of the component; that of the root is empty.
    pub open spec fn symbol(self) -> Symbol {
        match self {
            SymbolNameComponent::Root => Symbol { index: 0 },
            SymbolNameComponent::Component(name) => name,
            SymbolNameComponent::Leaf(name) => name,
        }
    }

    /// The name of the component; that of the root is empty.
    pub fn as_symbol_name(&self) -> (name: Symbol)
        ensures
            name == self.symbol(),
    {
        match self {
            SymbolNameComponent::Root => Symbol::empty(),
            SymbolNameComponent::Component(name) => *name,
            SymbolNameComponent::Leaf(name) => *name,
        }
    }

    /// Whether this is the root.
    pub fn is_root(&self) -> (b: bool)
        ensures
            b == (self is Root),
    {
        matches!(self, SymbolNameComponent::Root)
    }

    /// Whether this is a leaf.
    pub fn is_leaf(&self) -> (b: bool)
        ensures
            b == (self is Leaf),
    {
        matches!(self, SymbolNameComponent::Leaf(_))
    }

    /// Where components of this kind stand among the others.
    pub open spec fn rank(self) -> int {
        match self {
            SymbolNameComponent::Root => 0,
            SymbolNameComponent::Component(_) => 1,
            SymbolNameComponent::Leaf(_) => 2,
        }
    }

    /// Whether this component comes before another: the root before tables, tables before
    /// leaves, and names in the order of their symbols.
    pub open spec fn precedes(self, other: Self) -> bool {
        self.rank() < other.rank() || (self.rank() == other.rank() && self.symbol().index
            < other.symbol().index)
    }

    fn rank_of(&self) -> (rank: u8)
        ensures
            rank == self.rank(),
    {
        match self {
            SymbolNameComponent::Root => 0,
            SymbolNameComponent::Component(_) => 1,
            SymbolNameComponent::Leaf(_) => 2,
        }
    }

    fn comes_before(&self, other: &Self) -> (b: bool)
        ensures
            b == self.precedes(*other),
    {
        self.rank_of() < other.rank_of() || (self.rank_of() == other.rank_of()
            && self.as_symbol_name().index < other.as_symbol_name().index)
    }
}

/// How two components are ordered.
pub open spec fn component_order(a: SymbolNameComponent, b: SymbolNameComponent) -> Ordering {
    if a == b {
        Ordering::Equal
    } else if a.precedes(b) {
        Ordering::Less
    } else {
        Ordering::Greater
    }
}

impl vstd::std_specs::cmp::PartialOrdSpecImpl for SymbolNameComponent {
    open spec fn obeys_partial_cmp_spec() -> bool {
        true
    }

    open spec fn partial_cmp_spec(&self, other: &Self) -> Option<Ordering> {
        Some(component_order(*self, *other))
    }
}

impl PartialOrd for SymbolNameComponent {
    fn partial_cmp(&self, other: &Self) -> (order: Option<Ordering>) {
        if *self == *other {
            Some(Ordering::Equal)
        } else if self.comes_before(other) {
            Some(Ordering::Less)
        } else {
            Some(Ordering::Greater)
        }
    }
}

/// The order of components is total: of two different ones, exactly one comes first.
pub proof fn components_are_ordered(a: SymbolNameComponent, b: SymbolNameComponent)
    ensures
        a != b ==> (a.precedes(b) <==> !b.precedes(a)),
        !a.precedes(a),
{
}

/// The order of components is transitive.
pub proof fn component_order_is_transitive(
    a: SymbolNameComponent,
    b: SymbolNameComponent,
    c: SymbolNameComponent,
)
    requires
        a.precedes(b),
        b.precedes(c),
    ensures
        a.precedes(c),
{
}

/// A list of components, in the small vector of the `smallvec` crate.
#[verifier::external_body]
pub struct Components {
    items: SmallVec<[SymbolNameComponent; 3]>,
}

/// The components that a list holds, in order.
pub uninterp spec fn held(list: Components) -> Seq<SymbolNameComponent>;

impl View for Components {
    type V = Seq<SymbolNameComponent>;

    open spec fn view(&self) -> Seq<SymbolNameComponent> {
        held(*self)
    }
}

impl Components {
    /// `SmallVec::new` makes a vector that holds nothing.
    #[verifier::external_body]
    pub(crate) fn new() -> (list: Components)
        ensures
            held(list) == Seq::<SymbolNameComponent>::empty(),
    {
        Components { items: SmallVec::new() }
    }

    /// `SmallVec::push` appends an item to the end.
    #[verifier::external_body]
    pub(crate) fn push(&mut self, item: SymbolNameComponent)
        ensures
            held(*final(self)) == held(*old(self)).push(item),
    {
        self.items.push(item);
    }

    /// `SmallVec::pop` takes the last item off and hands it out; it leaves an empty vector as it
    /// is.
    #[verifier::external_body]
    pub(crate) fn pop(&mut self) -> (item: Option<SymbolNameComponent>)
        ensures
            match item {
                Some(item) => held(*old(self)).len() > 0 && item == held(*old(self)).last() && held(
                    *final(self),
                ) == held(*old(self)).drop_last(),
                None => held(*old(self)).len() == 0 && held(*final(self)) == held(*old(self)),
            },
    {
        self.items.pop()
    }

    /// `SmallVec::len` counts the items.
    #[verifier::external_body]
    pub(crate) fn len(&self) -> (len: usize)
        ensures
            len == held(*self).len(),
    {
        self.items.len()
    }

    /// Indexing a `SmallVec` reads the item at the given place.
    #[verifier::external_body]
    pub(crate) fn at(&self, index: usize) -> (item: SymbolNameComponent)
        requires
            index < held(*self).len(),
        ensures
            item == held(*self)[index as int],
    {
        self.items[index]
    }

    /// `SmallVec::from_slice` copies the given items, here the first ones of another vector.
    #[verifier::external_body]
    pub(crate) fn prefix(&self, len: usize) -> (list: Components)
        requires
            len <= held(*self).len(),
        ensures
            held(list) == held(*self).take(len as int),
    {
        Components { items: SmallVec::from_slice(&self.items[..len]) }
    }
}

/// Why a path or a component symbol is not valid.
#[derive(Clone, Copy, PartialEq, Eq, Debug, Structural)]
pub enum InvalidSymbolPathError {
    /// The path has no components
    Empty,
    /// The text does not follow the grammar
    InvalidFormat,
    /// A qualified symbol does not name a package
    MissingPackage,
    /// Only qualified symbols can have a version
    UnexpectedVersion,
    /// A character that does not belong where it stands
    UnexpectedToken { token: char, pos: usize },
    /// The path has no leaf
    MissingLeaf,
    /// Components follow the leaf
    UnexpectedTrailingComponents,
    /// A root that is not the first component
    UnexpectedRootPlacement,
}

/// A path of symbols, like a path of files.
///
/// An absolute path begins with the root; a relative one does not.
pub struct SymbolPath {
    pub path: Components,
}

/// The name of a function and that of the module it is in.
#[derive(Clone, Copy, PartialEq, Eq, Debug, Hash, Structural)]
pub struct FunctionIdent {
    pub module: Symbol,
    pub function: Symbol,
}

/// A component with the text of its name in place of the symbol.
pub ghost enum Part {
    Root,
    Component(Seq<char>),
    Leaf(Seq<char>),
}

/// A component, spelled out.
pub open spec fn spelled(component: SymbolNameComponent, interner: &Interner) -> Part {
    match component {
        SymbolNameComponent::Root => Part::Root,
        SymbolNameComponent::Component(name) => Part::Component(interner.text(name)),
        SymbolNameComponent::Leaf(name) => Part::Leaf(interner.text(name)),
    }
}

/// The first component that is the root or follows a leaf, from `from` on.
pub open spec fn flaw(components: Seq<SymbolNameComponent>, from: int) -> Option<
    InvalidSymbolPathError,
>
    decreases components.len() - from,
{
    if from < 0 || from >= components.len() {
        None
    } else {
        match components[from] {
            SymbolNameComponent::Root => Some(InvalidSymbolPathError::UnexpectedRootPlacement),
            SymbolNameComponent::Component(_) => flaw(components, from + 1),
            SymbolNameComponent::Leaf(_) => if from + 1 < components.len() {
                Some(InvalidSymbolPathError::UnexpectedTrailingComponents)
            } else {
                None
            },
        }
    }
}

/// What is wrong with the components of a path, if anything.
pub open spec fn path_flaw(components: Seq<SymbolNameComponent>) -> Option<
    InvalidSymbolPathError,
> {
    if components.len() == 0 {
        Some(InvalidSymbolPathError::Empty)
    } else if components[0] is Leaf && components.len() > 1 {
        Some(InvalidSymbolPathError::UnexpectedTrailingComponents)
    } else if components[0] is Leaf {
        None
    } else {
        flaw(components, 1)
    }
}

/// The components of a valid path: at least one, the root nowhere but first, and a leaf nowhere
/// but last.
pub open spec fn well_placed(components: Seq<SymbolNameComponent>) -> bool {
    &&& components.len() > 0
    &&& forall|i: int| 0 < i < components.len() ==> !(#[trigger] components[i] is Root)
    &&& forall|i: int|
        0 <= i < components.len() - 1 ==> !(#[trigger] components[i] is Leaf)
}

proof fn flaws_are_misplacements(components: Seq<SymbolNameComponent>, from: int)
    requires
        0 <= from <= components.len(),
    ensures
        flaw(components, from) is None <==> {
            &&& forall|i: int| from <= i < components.len() ==> !(#[trigger] components[i] is Root)
            &&& forall|i: int|
                from <= i < components.len() - 1 ==> !(#[trigger] components[i] is Leaf)
        },
    decreases components.len() - from,
{
    if from < components.len() && components[from] is Component {
        flaws_are_misplacements(components, from + 1);
    }
}

/// A list of components makes a path exactly if they are well placed.
pub proof fn paths_are_well_placed(components: Seq<SymbolNameComponent>)
    ensures
        path_flaw(components) is None <==> well_placed(components),
{
    if components.len() > 0 {
        flaws_are_misplacements(components, 1);
    }
}

impl vstd::std_specs::cmp::PartialEqSpecImpl for SymbolPath {
    open spec fn obeys_eq_spec() -> bool {
        true
    }

    open spec fn eq_spec(&self, other: &Self) -> bool {
        self.path@ == other.path@
    }
}

impl PartialEq for SymbolPath {
    fn eq(&self, other: &Self) -> (same: bool) {
        if self.path.len() != other.path.len() {
            return false;
        }
        let mut i: usize = 0;
        while i < self.path.len()
            invariant
                self.path@.len() == other.path@.len(),
                i <= self.path@.len(),
                forall|j: int| 0 <= j < i ==> self.path@[j] == other.path@[j],
            decreases self.path@.len() - i,
        {
            if self.path.at(i) != other.path.at(i) {
                return false;
            }
            i = i + 1;
        }
        assert(self.path@ == other.path@);
        true
    }
}

/// The order of two lists of components, from the given place on.
pub open spec fn path_order(
    a: Seq<SymbolNameComponent>,
    b: Seq<SymbolNameComponent>,
    from: int,
) -> Ordering
    decreases a.len() - from,
{
    if from < 0 || (from >= a.len() && from >= b.len()) {
        Ordering::Equal
    } else if from >= a.len() {
        Ordering::Less
    } else if from >= b.len() {
        Ordering::Greater
    } else if a[from] == b[from] {
        path_order(a, b, from + 1)
    } else {
        component_order(a[from], b[from])
    }
}

impl vstd::std_specs::cmp::PartialOrdSpecImpl for SymbolPath {
    open spec fn obeys_partial_cmp_spec() -> bool {
        true
    }

    open spec fn partial_cmp_spec(&self, other: &Self) -> Option<Ordering> {
        Some(path_order(self.path@, other.path@, 0))
    }
}

impl PartialOrd for SymbolPath {
    fn partial_cmp(&self, other: &Self) -> (order: Option<Ordering>) {
        let mut i: usize = 0;
        while i < self.path.len() && i < other.path.len()
            invariant
                i <= self.path@.len(),
                i <= other.path@.len(),
                path_order(self.path@, other.path@, 0) == path_order(self.path@, other.path@, i + 0),
            decreases self.path@.len() - i,
        {
            let a = self.path.at(i);
            let b = other.path.at(i);
            if a != b {
                return a.partial_cmp(&b);
            }
            i = i + 1;
        }
        if i < self.path.len() {
            Some(Ordering::Greater)
        } else if i < other.path.len() {
            Some(Ordering::Less)
        } else {
            Some(Ordering::Equal)
        }
    }
}

impl SymbolPath {
    /// The path of the given components, or what is wrong with them.
    pub fn new(components: &Vec<SymbolNameComponent>) -> (path: Result<
        SymbolPath,
        InvalidSymbolPathError,
    >)
        ensures
            match path {
                Ok(path) => path_flaw(components@) is None && path.path@ == components@,
                Err(e) => path_flaw(components@) == Some(e),
            },
    {
        if components.len() == 0 {
            return Err(InvalidSymbolPathError::Empty);
        }
        let mut path = Components::new();
        path.push(components[0]);
        assert(components@.take(1) == seq![components@[0]]);
        assert(path@ == components@.take(1));
        if components[0].is_leaf() {
            if components.len() > 1 {
                return Err(InvalidSymbolPathError::UnexpectedTrailingComponents);
            }
            assert(components@.take(1) == components@);
            return Ok(SymbolPath { path });
        }
        let mut i: usize = 1;
        while i < components.len()
            invariant
                1 <= i <= components@.len(),
                !(components@[0] is Leaf),
                path@ == components@.take(i as int),
                path_flaw(components@) == flaw(components@, i as int),
            decreases components@.len() - i,
        {
            let component = components[i];
            if component.is_root() {
                return Err(InvalidSymbolPathError::UnexpectedRootPlacement);
            }
            path.push(component);
            assert(components@.take(i + 1) == components@.take(i as int).push(component));
            if component.is_leaf() && i + 1 < components.len() {
                return Err(InvalidSymbolPathError::UnexpectedTrailingComponents);
            }
            i = i + 1;
        }
        assert(components@.take(components@.len() as int) == components@);
        Ok(SymbolPath { path })
    }

    /// The path of the given components, whatever they are.
    pub fn from_iter(components: &Vec<SymbolNameComponent>) -> (path: SymbolPath)
        ensures
            path.path@ == components@,
    {
        let mut path = Components::new();
        let mut i: usize = 0;
        while i < components.len()
            invariant
                i <= components@.len(),
                path@ == components@.take(i as int),
            decreases components@.len() - i,
        {
            path.push(components[i]);
            assert(components@.take(i + 1) == components@.take(i as int).push(components@[i as int]));
            i = i + 1;
        }
        assert(components@.take(components@.len() as int) == components@);
        SymbolPath { path }
    }

    /// The symbols of the path are known.
    pub open spec fn known(&self, interner: &Interner) -> bool {
        forall|i: int|
            0 <= i < self.path@.len() ==> interner.knows((#[trigger] self.path@[i]).symbol())
    }

    /// The components of the path, spelled out.
    pub open spec fn parts(&self, interner: &Interner) -> Seq<Part> {
        self.path@.map_values(|c: SymbolNameComponent| spelled(c, interner))
    }

    /// The path of a module of Miden Assembly: the root, and the parts of the name between `::`.
    pub fn from_masm_module_id(id: &str, interner: &mut Interner) -> (path: SymbolPath)
        requires
            old(interner).wf(),
            old(interner)@.len() + text::pieces(id@, "::"@).len() < u32::MAX,
        ensures
            final(interner).wf(),
            final(interner).extends(old(interner)),
            final(interner)@.len() <= old(interner)@.len() + text::pieces(id@, "::"@).len(),
            path.known(final(interner)),
            path.parts(final(interner)) == seq![Part::Root] + text::pieces(id@, "::"@).map_values(
                |t: Seq<char>| Part::Component(t),
            ),
    {
        proof {
            reveal_strlit("::");
        }
        let names = split(id, "::");
        let mut path = SymbolPath { path: Components::new() };
        path.path.push(SymbolNameComponent::Root);
        let ghost wanted = seq![Part::Root] + text::pieces(id@, "::"@).map_values(
            |t: Seq<char>| Part::Component(t),
        );
        let mut i: usize = 0;
        assert(path.parts(interner) == wanted.take(1));
        while i < names.len()
            invariant
                i <= names@.len(),
                interner.wf(),
                interner.extends(old(interner)),
                interner@.len() <= old(interner)@.len() + i,
                old(interner)@.len() + names@.len() < u32::MAX,
                text::texts(names@) == text::pieces(id@, "::"@),
                path.known(interner),
                path.path@.len() == i + 1,
                path.parts(interner) == wanted.take(i + 1),
                wanted == seq![Part::Root] + text::pieces(id@, "::"@).map_values(
                    |t: Seq<char>| Part::Component(t),
                ),
            decreases names@.len() - i,
        {
            let ghost before = *interner;
            let ghost path_before = path;
            let symbol = interner.intern(names[i].as_str());
            path.path.push(SymbolNameComponent::Component(symbol));
            proof {
                keep_spelling(path_before.path@, &before, interner);
                assert(names@[i as int]@ == text::pieces(id@, "::"@)[i as int]);
                assert(wanted[i + 1] == Part::Component(names@[i as int]@));
                assert(path.parts(interner) == path_before.parts(interner).push(wanted[i + 1]));
                assert(wanted.take(i + 2) == wanted.take(i + 1).push(wanted[i + 1]));
            }
            i = i + 1;
        }
        assert(wanted.take(wanted.len() as int) == wanted);
        path
    }

    /// The path of a procedure of Miden Assembly: that of its module, and its name.
    pub fn from_masm_function_id(id: FunctionIdent, interner: &mut Interner) -> (path: SymbolPath)
        requires
            old(interner).wf(),
            old(interner).knows(id.module),
            old(interner).knows(id.function),
            old(interner)@.len() + text::pieces(old(interner).text(id.module), "::"@).len()
                < u32::MAX,
        ensures
            final(interner).wf(),
            final(interner).extends(old(interner)),
            final(interner)@.len() <= old(interner)@.len() + text::pieces(
                old(interner).text(id.module),
                "::"@,
            ).len(),
            path.known(final(interner)),
            path.parts(final(interner)) == (seq![Part::Root] + text::pieces(
                old(interner).text(id.module),
                "::"@,
            ).map_values(|t: Seq<char>| Part::Component(t))).push(
                Part::Leaf(old(interner).text(id.function)),
            ),
    {
        let module = interner.as_str(id.module).to_owned();
        let mut path = SymbolPath::from_masm_module_id(module.as_str(), interner);
        let ghost before = path;
        path.path.push(SymbolNameComponent::Leaf(id.function));
        assert(interner.text(id.function) == old(interner)@[id.function.index as int]);
        assert(path.parts(interner) == before.parts(interner).push(
            Part::Leaf(old(interner).text(id.function)),
        ));
        path
    }

    /// The name of the symbol.
    pub fn name(&self) -> (name: Symbol)
        requires
            self.path@.len() > 0,
            self.path@.last() is Leaf,
        ensures
            self.path@.last() == SymbolNameComponent::Leaf(name),
    {
        self.path.at(self.path.len() - 1).as_symbol_name()
    }

    /// Replaces the name of the symbol, or appends one if there is none.
    pub fn set_name(&mut self, name: Symbol)
        ensures
            final(self).path@ == if old(self).path@.len() > 0 && old(self).path@.last() is Leaf {
                old(self).path@.drop_last().push(SymbolNameComponent::Leaf(name))
            } else {
                old(self).path@.push(SymbolNameComponent::Leaf(name))
            },
    {
        let len = self.path.len();
        if len > 0 && self.path.at(len - 1).is_leaf() {
            let _ = self.path.pop();
        }
        self.path.push(SymbolNameComponent::Leaf(name));
    }

    /// The first component after the root, if the path is absolute and that is no leaf.
    pub fn namespace(&self) -> (namespace: Option<Symbol>)
        requires
            self.path@.len() > 0,
            self.path@[0] is Root ==> self.path@.len() > 1 && !(self.path@[1] is Root),
        ensures
            namespace == if self.path@[0] is Root && self.path@[1] is Component {
                Some(self.path@[1].symbol())
            } else {
                None
            },
    {
        if self.is_absolute() {
            match self.path.at(1) {
                SymbolNameComponent::Component(namespace) => Some(namespace),
                _ => None,
            }
        } else {
            None
        }
    }

    /// Whether the path begins with the root.
    pub fn is_absolute(&self) -> (b: bool)
        requires
            self.path@.len() > 0,
        ensures
            b == (self.path@[0] is Root),
    {
        self.path.at(0).is_root()
    }

    /// Whether the symbol is nested in another.
    pub fn has_parent(&self) -> (b: bool)
        requires
            self.path@.len() > 0,
        ensures
            b == (self.path@.len() > if self.path@[0] is Root {
                2int
            } else {
                1int
            }),
    {
        if self.is_absolute() {
            self.path.len() > 2
        } else {
            self.path.len() > 1
        }
    }

    /// Whether the other path begins with this one; a path is a prefix of itself.
    pub fn is_prefix_of(&self, other: &Self) -> (b: bool)
        ensures
            b == (self.path@.len() > 0 && self.path@.is_prefix_of(other.path@)),
    {
        if self.path.len() == 0 || self.path.len() > other.path.len() {
            return false;
        }
        let mut i: usize = 0;
        while i < self.path.len()
            invariant
                i <= self.path@.len() <= other.path@.len(),
                forall|j: int| 0 <= j < i ==> self.path@[j] == other.path@[j],
            decreases self.path@.len() - i,
        {
            if self.path.at(i) != other.path.at(i) {
                assert(other.path@.subrange(0, self.path@.len() as int)[i as int] != self.path@[i as int]);
                return false;
            }
            i = i + 1;
        }
        assert(other.path@.subrange(0, self.path@.len() as int) == self.path@);
        true
    }

    /// Whether this path begins with the given components; a path is a prefix of itself.
    pub fn is_prefixed_by(&self, prefix: &Vec<SymbolNameComponent>) -> (b: bool)
        ensures
            b == (prefix@.len() > 0 && prefix@.is_prefix_of(self.path@)),
    {
        SymbolPath::from_iter(prefix).is_prefix_of(self)
    }

    /// The components of the path.
    pub fn components(&self) -> (components: Vec<SymbolNameComponent>)
        ensures
            components@ == self.path@,
    {
        let mut components: Vec<SymbolNameComponent> = Vec::new();
        let mut i: usize = 0;
        while i < self.path.len()
            invariant
                i <= self.path@.len(),
                components@ == self.path@.take(i as int),
            decreases self.path@.len() - i,
        {
            components.push(self.path.at(i));
            assert(self.path@.take(i + 1) == self.path@.take(i as int).push(self.path@[i as int]));
            i = i + 1;
        }
        assert(self.path@.take(self.path@.len() as int) == self.path@);
        components
    }

    /// All but the last component; the root has no parent.
    pub fn parent(&self) -> (parent: Option<SymbolPath>)
        ensures
            match parent {
                Some(parent) => self.path@.len() > 0 && self.path@ != seq![SymbolNameComponent::Root]
                    && parent.path@ == self.path@.drop_last(),
                None => self.path@.len() == 0 || self.path@ == seq![SymbolNameComponent::Root],
            },
    {
        let len = self.path.len();
        if len == 0 {
            return None;
        }
        if len == 1 && self.path.at(0).is_root() {
            assert(self.path@ == seq![SymbolNameComponent::Root]);
            return None;
        }
        let path = self.path.prefix(len - 1);
        assert(path@ == self.path@.drop_last());
        assert(self.path@ == seq![SymbolNameComponent::Root] ==> self.path@[0] is Root);
        Some(SymbolPath { path })
    }

    /// The path without its leaf, if it has one.
    pub fn without_leaf(&self) -> (path: SymbolPath)
        ensures
            path.path@ == if self.path@.len() > 0 && self.path@.last() is Leaf {
                self.path@.drop_last()
            } else {
                self.path@
            },
    {
        let len = self.path.len();
        if len > 0 && self.path.at(len - 1).is_leaf() {
            let path = self.path.prefix(len - 1);
            assert(path@ == self.path@.drop_last());
            SymbolPath { path }
        } else {
            let path = self.path.prefix(len);
            assert(path@ == self.path@);
            SymbolPath { path }
        }
    }

    /// The components after the root.
    pub open spec fn unrooted(&self) -> Seq<SymbolNameComponent> {
        if self.path@.len() > 0 && self.path@[0] is Root {
            self.path@.skip(1)
        } else {
            self.path@
        }
    }

    /// The path as text: the names after the root, with a slash between them.
    pub open spec fn rendered(&self, interner: &Interner) -> Seq<char> {
        text::joined(
            self.unrooted().map_values(|c: SymbolNameComponent| interner.text(c.symbol())),
            "/"@,
        )
    }

    /// The path as text.
    pub fn render(&self, interner: &Interner) -> (out: String)
        requires
            self.path@.len() > 0,
            self.known(interner),
        ensures
            out@ == self.rendered(interner),
    {
        let start: usize = if self.is_absolute() {
            1
        } else {
            0
        };
        let mut names: Vec<String> = Vec::new();
        let mut i: usize = start;
        let ghost all = self.unrooted().map_values(
            |c: SymbolNameComponent| interner.text(c.symbol()),
        );
        assert(text::texts(names@) == all.take(0));
        while i < self.path.len()
            invariant
                start <= i <= self.path@.len(),
                start == if self.path@[0] is Root {
                    1int
                } else {
                    0int
                },
                self.known(interner),
                all == self.unrooted().map_values(
                    |c: SymbolNameComponent| interner.text(c.symbol()),
                ),
                text::texts(names@) == all.take(i - start),
            decreases self.path@.len() - i,
        {
            let ghost before = names@;
            let name = interner.as_str(self.path.at(i).as_symbol_name()).to_owned();
            names.push(name);
            assert(name@ == all[i - start]);
            assert(text::texts(names@) == text::texts(before).push(name@));
            assert(all.take(i - start + 1) == all.take(i - start).push(all[i - start]));
            i = i + 1;
        }
        assert(all.take(all.len() as int) == all);
        text::join(&names, "/")
    }
}

/// Components keep their spelling when a table grows.
pub proof fn keep_spelling(
    components: Seq<SymbolNameComponent>,
    before: &Interner,
    after: &Interner,
)
    requires
        after.extends(before),
        forall|i: int|
            0 <= i < components.len() ==> before.knows((#[trigger] components[i]).symbol()),
    ensures
        components.map_values(|c: SymbolNameComponent| spelled(c, after)) == components.map_values(
            |c: SymbolNameComponent| spelled(c, before),
        ),
        forall|i: int|
            0 <= i < components.len() ==> after.knows((#[trigger] components[i]).symbol()),
{
    assert forall|i: int| 0 <= i < components.len() implies spelled(
        #[trigger] components[i],
        after,
    ) == spelled(components[i], before) by {
        let s = components[i].symbol();
        assert(after@[s.index as int] == before@[s.index as int]);
    }
    assert(components.map_values(|c: SymbolNameComponent| spelled(c, after))
        =~= components.map_values(|c: SymbolNameComponent| spelled(c, before)));
}

/// A path without its name, given that name again, is the path.
pub proof fn name_completes_the_path(path: Seq<SymbolNameComponent>, name: Symbol)
    requires
        path.len() > 0,
        path.last() == SymbolNameComponent::Leaf(name),
    ensures
        path.drop_last().push(SymbolNameComponent::Leaf(name)) == path,
{
    assert(path.drop_last().push(path.last()) == path);
}

} // verus!
