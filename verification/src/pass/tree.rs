//! Passes and pass managers: how they are nested, and what they look like as trees.
use vstd::prelude::*;
use crate::hir::operation::OperationName;
use crate::pass::statistics::AnyStatistic;

verus! {

/// Whether a pass manager makes a nested pass manager for a pass that runs on another operation.
#[derive(Clone, Copy, PartialEq, Eq, Debug, Structural)]
pub enum Nesting {
    Implicit,
    Explicit,
}

impl Default for Nesting {
    fn default() -> (nesting: Self)
        ensures
            nesting == Nesting::Explicit,
    {
        Nesting::Explicit
    }
}

/// The operations that cannot refer to what surrounds them, on which passes can run on their own.
pub struct IsolatedOps {
    pub names: Vec<OperationName>,
}

impl IsolatedOps {
    /// Whether an operation cannot refer to what surrounds it.
    pub fn is_isolated(&self, name: &OperationName) -> (b: bool)
        ensures
            b == self.names@.contains(*name),
    {
        let mut i: usize = 0;
        while i < self.names.len()
            invariant
                i <= self.names@.len(),
                forall|j: int| 0 <= j < i ==> self.names@[j] != *name,
            decreases self.names@.len() - i,
        {
            if self.names[i] == *name {
                assert(self.names@[i as int] == *name);
                return true;
            }
            i = i + 1;
        }
        false
    }
}

/// A pass.
pub struct PassInfo {
    pub name: String,
    /// The operation that the pass runs on, if it does not run on any
    pub target: Option<OperationName>,
    /// The pass in the text of a pipeline
    pub text: String,
    pub statistics: Vec<AnyStatistic>,
}

/// What a pass manager runs: a pass, or the pass managers that are nested in it.
pub enum PassEntry {
    Pass(PassInfo),
    Adaptor(OpToOpPassAdaptor),
}

/// Runs pass managers on the operations in an operation.
pub struct OpToOpPassAdaptor {
    pub pms: Vec<OpPassManager>,
}

/// Runs passes on one kind of operation, or on any that is isolated.
pub struct OpPassManager {
    pub name: Option<OperationName>,
    pub passes: Vec<PassEntry>,
    pub nesting: Nesting,
}

/// A pass manager, as a tree.
pub ghost struct ManagerTree {
    pub name: Option<OperationName>,
    pub passes: Seq<PassTree>,
    pub nesting: Nesting,
}

/// A pass or nested pass managers, as a tree.
pub ghost enum PassTree {
    Pass(PassInfo),
    Adaptor(Seq<ManagerTree>),
}

/// The tree of a pass manager.
pub open spec fn manager_tree(manager: OpPassManager) -> ManagerTree
    decreases manager, 0int,
{
    ManagerTree {
        name: manager.name,
        passes: first_passes(manager.passes, manager.passes@.len() as int),
        nesting: manager.nesting,
    }
}

/// The trees of the first `n` passes.
pub open spec fn first_passes(passes: Vec<PassEntry>, n: int) -> Seq<PassTree>
    decreases passes, n,
{
    if n <= 0 || n > passes@.len() {
        Seq::empty()
    } else {
        first_passes(passes, n - 1).push(entry_tree(passes@[n - 1]))
    }
}

/// The tree of a pass.
pub open spec fn entry_tree(entry: PassEntry) -> PassTree
    decreases entry, 0int,
{
    match entry {
        PassEntry::Pass(info) => PassTree::Pass(info),
        PassEntry::Adaptor(adaptor) => PassTree::Adaptor(
            first_managers(adaptor.pms, adaptor.pms@.len() as int),
        ),
    }
}

/// The trees of the first `n` pass managers.
pub open spec fn first_managers(pms: Vec<OpPassManager>, n: int) -> Seq<ManagerTree>
    decreases pms, n,
{
    if n <= 0 || n > pms@.len() {
        Seq::empty()
    } else {
        first_managers(pms, n - 1).push(manager_tree(pms@[n - 1]))
    }
}

/// The trees of passes.
pub open spec fn entry_trees(passes: Seq<PassEntry>) -> Seq<PassTree> {
    passes.map_values(|entry: PassEntry| entry_tree(entry))
}

/// The trees of pass managers.
pub open spec fn manager_trees(pms: Seq<OpPassManager>) -> Seq<ManagerTree> {
    pms.map_values(|pm: OpPassManager| manager_tree(pm))
}

proof fn first_passes_are(passes: Vec<PassEntry>, n: int)
    requires
        0 <= n <= passes@.len(),
    ensures
        first_passes(passes, n) == entry_trees(passes@.take(n)),
    decreases n,
{
    if n > 0 {
        first_passes_are(passes, n - 1);
        assert(entry_trees(passes@.take(n)) =~= entry_trees(passes@.take(n - 1)).push(
            entry_tree(passes@[n - 1]),
        ));
    } else {
        assert(entry_trees(passes@.take(0)) =~= Seq::empty());
    }
}

proof fn first_managers_are(pms: Vec<OpPassManager>, n: int)
    requires
        0 <= n <= pms@.len(),
    ensures
        first_managers(pms, n) == manager_trees(pms@.take(n)),
    decreases n,
{
    if n > 0 {
        first_managers_are(pms, n - 1);
        assert(manager_trees(pms@.take(n)) =~= manager_trees(pms@.take(n - 1)).push(
            manager_tree(pms@[n - 1]),
        ));
    } else {
        assert(manager_trees(pms@.take(0)) =~= Seq::empty());
    }
}

/// The passes of the tree of a pass manager are the trees of its passes.
pub proof fn manager_tree_is(manager: OpPassManager)
    ensures
        manager_tree(manager).name == manager.name,
        manager_tree(manager).nesting == manager.nesting,
        manager_tree(manager).passes == entry_trees(manager.passes@),
{
    first_passes_are(manager.passes, manager.passes@.len() as int);
    assert(manager.passes@.take(manager.passes@.len() as int) == manager.passes@);
}

/// The tree of an adaptor holds the trees of its pass managers.
pub proof fn adaptor_tree_is(adaptor: OpToOpPassAdaptor)
    ensures
        entry_tree(PassEntry::Adaptor(adaptor)) == PassTree::Adaptor(manager_trees(adaptor.pms@)),
{
    first_managers_are(adaptor.pms, adaptor.pms@.len() as int);
    assert(adaptor.pms@.take(adaptor.pms@.len() as int) == adaptor.pms@);
}

/// How many nodes the tree of a pass manager has.
pub open spec fn manager_size(manager: ManagerTree) -> nat
    decreases manager, 0int,
{
    1 + passes_size(manager.passes, manager.passes.len() as int)
}

/// How many nodes the first `n` passes have.
pub open spec fn passes_size(passes: Seq<PassTree>, n: int) -> nat
    decreases passes, n,
{
    if n <= 0 || n > passes.len() {
        0
    } else {
        passes_size(passes, n - 1) + pass_size(passes[n - 1])
    }
}

/// How many nodes a pass has.
pub open spec fn pass_size(pass: PassTree) -> nat
    decreases pass, 0int,
{
    match pass {
        PassTree::Pass(_) => 1,
        PassTree::Adaptor(pms) => 1 + managers_size(pms, pms.len() as int),
    }
}

/// How many nodes the first `n` pass managers have.
pub open spec fn managers_size(pms: Seq<ManagerTree>, n: int) -> nat
    decreases pms, n,
{
    if n <= 0 || n > pms.len() {
        0
    } else {
        managers_size(pms, n - 1) + manager_size(pms[n - 1])
    }
}

} // verus!
