//! Finalization of the lists of passes.
use vstd::prelude::*;
use crate::hir::operation::OperationName;
use crate::pass::merge;
use crate::pass::tree::{
    self, IsolatedOps, ManagerTree, OpPassManager, OpToOpPassAdaptor, PassEntry, PassTree,
};

verus! {

/// The first `n` passes, with adjacent adaptors merged where they can be, and the adaptor that they
/// end in.
pub open spec fn grouped(
    passes: Seq<PassTree>,
    n: int,
    isolated: Seq<OperationName>,
) -> (Seq<PassTree>, Option<Seq<ManagerTree>>)
    decreases n,
{
    if n <= 0 || n > passes.len() {
        (Seq::empty(), None)
    } else {
        let (done, last) = grouped(passes, n - 1, isolated);
        match passes[n - 1] {
            PassTree::Adaptor(pms) => match last {
                Some(last) => if merge::mergeable(pms, last, isolated) {
                    (done, Some(merge::merged(pms, last)))
                } else {
                    (done.push(PassTree::Adaptor(last)), Some(pms))
                },
                None => (done, Some(pms)),
            },
            PassTree::Pass(_) => match last {
                Some(last) => (done.push(PassTree::Adaptor(last)).push(passes[n - 1]), None),
                None => (done.push(passes[n - 1]), None),
            },
        }
    }
}

/// Passes, and the adaptor that they end in.
pub open spec fn closed_with(done: Seq<PassTree>, last: Option<Seq<ManagerTree>>) -> Seq<PassTree> {
    match last {
        Some(last) => done.push(PassTree::Adaptor(last)),
        None => done,
    }
}

/// The passes of a manager, with adjacent adaptors merged where they can be.
pub open spec fn settled(manager: ManagerTree, isolated: Seq<OperationName>) -> Seq<PassTree> {
    let (done, last) = grouped(manager.passes, manager.passes.len() as int, isolated);
    closed_with(done, last)
}

/// How many nodes an adaptor has.
spec fn adaptor_total(adaptor: Option<Seq<ManagerTree>>) -> nat {
    match adaptor {
        Some(pms) => 1 + merge::total(pms),
        None => 0,
    }
}

proof fn grouping_adds_nothing(passes: Seq<PassTree>, n: int, isolated: Seq<OperationName>)
    requires
        0 <= n <= passes.len(),
    ensures
        merge::passes_total(grouped(passes, n, isolated).0) + adaptor_total(
            grouped(passes, n, isolated).1,
        ) <= tree::passes_size(passes, n),
    decreases n,
{
    if n > 0 {
        grouping_adds_nothing(passes, n - 1, isolated);
        let (done, last) = grouped(passes, n - 1, isolated);
        match passes[n - 1] {
            PassTree::Adaptor(pms) => {
                if let Some(last) = last {
                    merge::merging_adds_little(pms, last);
                    assert(tree::pass_size(PassTree::Adaptor(last)) == 1 + merge::total(last));
                    merge::passes_total_of_push(done, PassTree::Adaptor(last));
                }
                assert(tree::pass_size(passes[n - 1]) == 1 + merge::total(pms));
            },
            PassTree::Pass(_) => {
                match last {
                    Some(last) => {
                        assert(tree::pass_size(PassTree::Adaptor(last)) == 1 + merge::total(last));
                        merge::passes_total_of_push(done, PassTree::Adaptor(last));
                        merge::passes_total_of_push(
                            done.push(PassTree::Adaptor(last)),
                            passes[n - 1],
                        );
                    },
                    None => {
                        merge::passes_total_of_push(done, passes[n - 1]);
                    },
                }
            },
        }
    }
}

proof fn item_is_no_larger(passes: Seq<PassTree>, i: int, n: int)
    requires
        0 <= i < n <= passes.len(),
    ensures
        tree::pass_size(passes[i]) <= tree::passes_size(passes, n),
    decreases n,
{
    if i < n - 1 {
        item_is_no_larger(passes, i, n - 1);
    }
}

proof fn manager_is_no_larger(pms: Seq<ManagerTree>, i: int, n: int)
    requires
        0 <= i < n <= pms.len(),
    ensures
        tree::manager_size(pms[i]) <= tree::managers_size(pms, n),
    decreases n,
{
    if i < n - 1 {
        manager_is_no_larger(pms, i, n - 1);
    }
}

proof fn settled_is_smaller(manager: ManagerTree, isolated: Seq<OperationName>, i: int)
    requires
        0 <= i < settled(manager, isolated).len(),
    ensures
        settled(manager, isolated)[i] matches PassTree::Adaptor(pms) ==> merge::total(pms)
            < tree::manager_size(manager),
{
    let n = manager.passes.len() as int;
    grouping_adds_nothing(manager.passes, n, isolated);
    let (done, last) = grouped(manager.passes, n, isolated);
    if let Some(last) = last {
        assert(tree::pass_size(PassTree::Adaptor(last)) == 1 + merge::total(last));
        merge::passes_total_of_push(done, PassTree::Adaptor(last));
    }
    let items = settled(manager, isolated);
    item_is_no_larger(items, i, items.len() as int);
}

/// A pass manager that is nested in another is smaller.
pub proof fn nested_is_smaller(manager: ManagerTree, isolated: Seq<OperationName>, i: int, k: int)
    requires
        0 <= i < settled(manager, isolated).len(),
        settled(manager, isolated)[i] matches PassTree::Adaptor(pms) && 0 <= k < pms.len(),
    ensures
        settled(manager, isolated)[i] matches PassTree::Adaptor(pms) ==> tree::manager_size(pms[k])
            < tree::manager_size(manager),
{
    settled_is_smaller(manager, isolated, i);
    if let PassTree::Adaptor(pms) = settled(manager, isolated)[i] {
        manager_is_no_larger(pms, k, pms.len() as int);
    }
}

/// A pass manager with its list of passes finalized, if every pass can run where it is to run:
/// adjacent adaptors are merged where they can be, and the pass managers of all adaptors are
/// finalized.
pub open spec fn finalized(manager: ManagerTree, isolated: Seq<OperationName>) -> Option<
    ManagerTree,
>
    decreases tree::manager_size(manager), 2int, 0int,
{
    match finalized_items(manager, isolated, settled(manager, isolated).len() as int) {
        None => None,
        Some(passes) => if runs_all(passes, manager.name) {
            Some(ManagerTree { passes, ..manager })
        } else {
            None
        },
    }
}

/// Every pass can run on the operation that the pass manager is for.
pub open spec fn runs_all(passes: Seq<PassTree>, name: Option<OperationName>) -> bool {
    name matches Some(name) ==> forall|i: int|
        0 <= i < passes.len() ==> merge::runs_on(#[trigger] passes[i], name)
}

/// The first `n` of the settled passes, finalized.
pub open spec fn finalized_items(
    manager: ManagerTree,
    isolated: Seq<OperationName>,
    n: int,
) -> Option<Seq<PassTree>>
    decreases tree::manager_size(manager), 1int, n,
{
    if n <= 0 || n > settled(manager, isolated).len() {
        Some(Seq::empty())
    } else {
        match finalized_items(manager, isolated, n - 1) {
            None => None,
            Some(items) => match settled(manager, isolated)[n - 1] {
                PassTree::Pass(_) => Some(items.push(settled(manager, isolated)[n - 1])),
                PassTree::Adaptor(pms) => match finalized_nested(
                    manager,
                    isolated,
                    n - 1,
                    pms.len() as int,
                ) {
                    None => None,
                    Some(pms) => Some(items.push(PassTree::Adaptor(pms))),
                },
            },
        }
    }
}

/// The first `k` pass managers of a settled adaptor, finalized.
pub open spec fn finalized_nested(
    manager: ManagerTree,
    isolated: Seq<OperationName>,
    i: int,
    k: int,
) -> Option<Seq<ManagerTree>>
    decreases tree::manager_size(manager), 0int, k,
{
    if i < 0 || i >= settled(manager, isolated).len() {
        None
    } else {
        match settled(manager, isolated)[i] {
            PassTree::Pass(_) => None,
            PassTree::Adaptor(pms) => {
                if k <= 0 || k > pms.len() {
                    Some(Seq::empty())
                } else {
                    proof {
                        nested_is_smaller(manager, isolated, i, k - 1);
                    }
                    match (
                        finalized_nested(manager, isolated, i, k - 1),
                        finalized(pms[k - 1], isolated),
                    ) {
                        (Some(done), Some(pm)) => Some(done.push(pm)),
                        _ => None,
                    }
                }
            },
        }
    }
}

/// Every pass manager, finalized.
pub open spec fn finalized_all(
    pms: Seq<ManagerTree>,
    isolated: Seq<OperationName>,
    k: int,
) -> Option<Seq<ManagerTree>>
    decreases k,
{
    if k <= 0 || k > pms.len() {
        Some(Seq::empty())
    } else {
        match (finalized_all(pms, isolated, k - 1), finalized(pms[k - 1], isolated)) {
            (Some(done), Some(pm)) => Some(done.push(pm)),
            _ => None,
        }
    }
}

proof fn nested_are_all(manager: ManagerTree, isolated: Seq<OperationName>, i: int, k: int)
    requires
        0 <= i < settled(manager, isolated).len(),
        settled(manager, isolated)[i] matches PassTree::Adaptor(pms) && 0 <= k <= pms.len(),
    ensures
        settled(manager, isolated)[i] matches PassTree::Adaptor(pms) ==> finalized_nested(
            manager,
            isolated,
            i,
            k,
        ) == finalized_all(pms, isolated, k),
    decreases k,
{
    if k > 0 {
        nested_are_all(manager, isolated, i, k - 1);
    }
}

proof fn failing_manager_fails_all(
    pms: Seq<ManagerTree>,
    isolated: Seq<OperationName>,
    i: int,
    k: int,
)
    requires
        0 <= i < k <= pms.len(),
        finalized(pms[i], isolated) is None,
    ensures
        finalized_all(pms, isolated, k) is None,
    decreases k,
{
    if i < k - 1 {
        failing_manager_fails_all(pms, isolated, i, k - 1);
    }
}

proof fn failing_item_fails_all(
    manager: ManagerTree,
    isolated: Seq<OperationName>,
    i: int,
    n: int,
)
    requires
        0 <= i < n <= settled(manager, isolated).len(),
        finalized_items(manager, isolated, i + 1) is None,
    ensures
        finalized_items(manager, isolated, n) is None,
    decreases n,
{
    if i + 1 < n {
        failing_item_fails_all(manager, isolated, i, n - 1);
    }
}

/// A pass cannot run on the operation that its pass manager is for.
#[derive(Clone, Copy, PartialEq, Eq, Debug, Structural)]
pub struct UnschedulablePass {}

fn finalize_managers(pms: &mut Vec<OpPassManager>, isolated: &IsolatedOps) -> (done: Result<
    (),
    UnschedulablePass,
>)
    ensures
        ({
            let before = tree::manager_trees(old(pms)@);
            match finalized_all(before, isolated.names@, before.len() as int) {
                Some(after) => done is Ok && tree::manager_trees(final(pms)@) == after,
                None => done is Err,
            }
        }),
    decreases merge::total(tree::manager_trees(old(pms)@)), 2int,
{
    let ghost before = tree::manager_trees(pms@);
    let ghost count = pms@.len();
    let mut i: usize = 0;
    assert(tree::manager_trees(pms@.take(0)) =~= Seq::empty());
    while i < pms.len()
        invariant
            i <= pms@.len() == count,
            before == tree::manager_trees(old(pms)@),
            count == before.len(),
            finalized_all(before, isolated.names@, i as int) == Some(
                tree::manager_trees(pms@.take(i as int)),
            ),
            forall|j: int| i <= j < count ==> #[trigger] pms@[j] == old(pms)@[j],
        decreases count - i,
    {
        let ghost now = pms@;
        assert(before[i as int] == tree::manager_tree(now[i as int]));
        proof {
            manager_is_no_larger(before, i as int, before.len() as int);
        }
        match pms[i].finalize_pass_list(isolated) {
            Err(e) => {
                proof {
                    failing_manager_fails_all(
                        before,
                        isolated.names@,
                        i as int,
                        before.len() as int,
                    );
                }
                return Err(e);
            },
            Ok(_) => {},
        }
        proof {
            assert(pms@ =~= now.update(i as int, pms@[i as int]));
            assert(tree::manager_trees(pms@.take(i + 1)) =~= tree::manager_trees(
                now.take(i as int),
            ).push(tree::manager_tree(pms@[i as int])));
        }
        i = i + 1;
    }
    assert(pms@.take(count as int) == pms@);
    Ok(())
}

fn all_run(passes: &Vec<PassEntry>, name: &Option<OperationName>) -> (b: bool)
    ensures
        b == runs_all(tree::entry_trees(passes@), *name),
{
    if let Some(target) = name {
        let mut i: usize = 0;
        while i < passes.len()
            invariant
                i <= passes@.len(),
                *name == Some(*target),
                forall|j: int|
                    0 <= j < i ==> merge::runs_on(
                        #[trigger] tree::entry_trees(passes@)[j],
                        *target,
                    ),
            decreases passes@.len() - i,
        {
            if !passes[i].can_schedule_on(target) {
                assert(!merge::runs_on(tree::entry_trees(passes@)[i as int], *target));
                return false;
            }
            i = i + 1;
        }
    }
    true
}

fn group_passes(passes: Vec<PassEntry>, isolated: &IsolatedOps) -> (items: Vec<PassEntry>)
    ensures
        ({
            let trees = tree::entry_trees(passes@);
            let (done, last) = grouped(trees, trees.len() as int, isolated.names@);
            tree::entry_trees(items@) == closed_with(done, last)
        }),
{
    let ghost all = passes@;
    let ghost trees = tree::entry_trees(passes@);
    let ghost mut count: int = 0;
    let mut rest = passes;
    let mut done: Vec<PassEntry> = Vec::new();
    let mut last: Option<OpToOpPassAdaptor> = None;
    assert(rest@ == all.skip(0));
    assert(tree::entry_trees(done@) =~= Seq::empty());
    while rest.len() > 0
        invariant
            0 <= count <= all.len(),
            trees == tree::entry_trees(all),
            rest@ == all.skip(count),
            tree::entry_trees(done@) == grouped(trees, count, isolated.names@).0,
            match last {
                Some(last) => grouped(trees, count, isolated.names@).1 == Some(
                    tree::manager_trees(last.pms@),
                ),
                None => grouped(trees, count, isolated.names@).1 is None,
            },
        decreases rest@.len(),
    {
        let ghost before = done@;
        let pass = rest.remove(0);
        assert(pass == all[count]);
        assert(rest@ =~= all.skip(count + 1));
        assert(trees[count] == tree::entry_tree(pass));
        match pass {
            PassEntry::Adaptor(adaptor) => {
                proof {
                    tree::adaptor_tree_is(adaptor);
                }
                let mut adaptor = adaptor;
                last = match last {
                    Some(previous) => {
                        let mut previous = previous;
                        if adaptor.try_merge_into(&mut previous, isolated) {
                            Some(previous)
                        } else {
                            proof {
                                tree::adaptor_tree_is(previous);
                            }
                            done.push(PassEntry::Adaptor(previous));
                            assert(tree::entry_trees(done@) =~= tree::entry_trees(before).push(
                                PassTree::Adaptor(tree::manager_trees(previous.pms@)),
                            ));
                            Some(adaptor)
                        }
                    },
                    None => Some(adaptor),
                };
            },
            PassEntry::Pass(info) => {
                match last {
                    Some(previous) => {
                        proof {
                            tree::adaptor_tree_is(previous);
                        }
                        done.push(PassEntry::Adaptor(previous));
                        assert(tree::entry_trees(done@) =~= tree::entry_trees(before).push(
                            PassTree::Adaptor(tree::manager_trees(previous.pms@)),
                        ));
                    },
                    None => {},
                }
                last = None;
                let ghost middle = done@;
                done.push(PassEntry::Pass(info));
                assert(tree::entry_trees(done@) =~= tree::entry_trees(middle).push(
                    tree::entry_tree(pass),
                ));
            },
        }
        proof {
            count = count + 1;
        }
    }
    if let Some(last) = last {
        let ghost before = done@;
        proof {
            tree::adaptor_tree_is(last);
        }
        done.push(PassEntry::Adaptor(last));
        assert(tree::entry_trees(done@) =~= tree::entry_trees(before).push(
            PassTree::Adaptor(tree::manager_trees(last.pms@)),
        ));
    }
    done
}

fn finalize_settled(items: &mut Vec<PassEntry>, Ghost(manager): Ghost<ManagerTree>, isolated: &IsolatedOps) -> (done:
    Result<(), UnschedulablePass>)
    requires
        tree::entry_trees(old(items)@) == settled(manager, isolated.names@),
    ensures
        match finalized_items(manager, isolated.names@, old(items)@.len() as int) {
            Some(after) => done is Ok && tree::entry_trees(final(items)@) == after,
            None => done is Err,
        },
    decreases tree::manager_size(manager), 0int,
{
    let ghost before = settled(manager, isolated.names@);
    let ghost count = items@.len();
    let mut i: usize = 0;
    assert(tree::entry_trees(items@.take(0)) =~= Seq::empty());
    while i < items.len()
        invariant
            i <= items@.len() == count,
            before == settled(manager, isolated.names@),
            before == tree::entry_trees(old(items)@),
            count == before.len(),
            finalized_items(manager, isolated.names@, i as int) == Some(
                tree::entry_trees(items@.take(i as int)),
            ),
            forall|j: int| i <= j < count ==> #[trigger] items@[j] == old(items)@[j],
        decreases count - i,
    {
        let ghost now = items@;
        assert(before[i as int] == tree::entry_tree(now[i as int]));
        proof {
            settled_is_smaller(manager, isolated.names@, i as int);
        }
        match &mut items[i] {
            PassEntry::Pass(_) => {},
            PassEntry::Adaptor(adaptor) => {
                proof {
                    tree::adaptor_tree_is(*adaptor);
                    nested_are_all(
                        manager,
                        isolated.names@,
                        i as int,
                        tree::manager_trees(adaptor.pms@).len() as int,
                    );
                }
                let result = finalize_managers(&mut adaptor.pms, isolated);
                proof {
                    tree::adaptor_tree_is(*adaptor);
                }
                match result {
                    Err(e) => {
                        proof {
                            failing_item_fails_all(
                                manager,
                                isolated.names@,
                                i as int,
                                count as int,
                            );
                        }
                        return Err(e);
                    },
                    Ok(_) => {},
                }
            },
        }
        proof {
            assert(items@ =~= now.update(i as int, items@[i as int]));
            assert(tree::entry_trees(items@.take(i + 1)) =~= tree::entry_trees(
                now.take(i as int),
            ).push(tree::entry_tree(items@[i as int])));
        }
        i = i + 1;
    }
    assert(items@.take(count as int) == items@);
    Ok(())
}

impl OpPassManager {
    /// Finalizes the list of passes: adjacent adaptors are merged where they can be, and the pass
    /// managers of all adaptors are finalized. Fails if a pass cannot run on the operation that its
    /// pass manager is for.
    pub fn finalize_pass_list(&mut self, isolated: &IsolatedOps) -> (done: Result<
        (),
        UnschedulablePass,
    >)
        ensures
            match finalized(tree::manager_tree(*old(self)), isolated.names@) {
                Some(after) => done is Ok && tree::manager_tree(*final(self)) == after,
                None => done is Err,
            },
        decreases tree::manager_size(tree::manager_tree(*old(self))), 1int,
    {
        let ghost manager = tree::manager_tree(*self);
        proof {
            tree::manager_tree_is(*self);
        }
        let mut passes: Vec<PassEntry> = Vec::new();
        std::mem::swap(&mut passes, &mut self.passes);
        let mut items = group_passes(passes, isolated);
        match finalize_settled(&mut items, Ghost(manager), isolated) {
            Err(e) => {
                return Err(e);
            },
            Ok(_) => {},
        }
        self.passes = items;
        proof {
            tree::manager_tree_is(*self);
        }
        if !all_run(&self.passes, &self.name) {
            return Err(UnschedulablePass {  });
        }
        Ok(())
    }
}

} // verus!
