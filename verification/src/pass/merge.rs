//! Merging of nested pass managers.
use vstd::prelude::*;
use vstd::string::*;
use crate::hir::operation::OperationName;
use crate::pass::tree::{
    self, IsolatedOps, ManagerTree, OpPassManager, OpToOpPassAdaptor, PassEntry, PassTree,
};
use crate::symbol::Interner;
use crate::text;

verus! {

/// A pass can run on an operation: it runs on any, or on that one. Nested pass managers choose
/// the operations that they run on themselves.
pub open spec fn runs_on(pass: PassTree, name: OperationName) -> bool {
    match pass {
        PassTree::Pass(info) => match info.target {
            Some(target) => target == name,
            None => true,
        },
        PassTree::Adaptor(_) => true,
    }
}

/// A pass manager can run on an operation: it is for that one; or it is for any, the operation is
/// isolated, and all of the passes can run on it.
pub open spec fn manages(
    manager: ManagerTree,
    name: OperationName,
    isolated: Seq<OperationName>,
) -> bool {
    match manager.name {
        Some(target) => target == name,
        None => isolated.contains(name) && forall|i: int|
            0 <= i < manager.passes.len() ==> runs_on(#[trigger] manager.passes[i], name),
    }
}

impl PassEntry {
    /// Whether the pass can run on an operation.
    pub fn can_schedule_on(&self, name: &OperationName) -> (b: bool)
        ensures
            b == runs_on(tree::entry_tree(*self), *name),
    {
        match self {
            PassEntry::Pass(info) => match info.target {
                Some(target) => target == *name,
                None => true,
            },
            PassEntry::Adaptor(_) => true,
        }
    }
}

impl OpPassManager {
    /// Whether this pass manager can run on an operation.
    pub fn can_schedule_on(&self, name: &OperationName, isolated: &IsolatedOps) -> (b: bool)
        ensures
            b == manages(tree::manager_tree(*self), *name, isolated.names@),
    {
        proof {
            tree::manager_tree_is(*self);
        }
        match self.name {
            Some(target) => target == *name,
            None => {
                if !isolated.is_isolated(name) {
                    return false;
                }
                let mut i: usize = 0;
                while i < self.passes.len()
                    invariant
                        i <= self.passes@.len(),
                        self.name is None,
                        isolated.names@.contains(*name),
                        tree::manager_tree(*self).name == self.name,
                        tree::manager_tree(*self).passes == tree::entry_trees(self.passes@),
                        forall|j: int|
                            0 <= j < i ==> runs_on(
                                #[trigger] tree::manager_tree(*self).passes[j],
                                *name,
                            ),
                    decreases self.passes@.len() - i,
                {
                    if !self.passes[i].can_schedule_on(name) {
                        assert(!runs_on(tree::manager_tree(*self).passes[i as int], *name));
                        return false;
                    }
                    i = i + 1;
                }
                true
            },
        }
    }
}

/// A pass manager for any operation may want to run on the same operations as another one.
pub open spec fn in_conflict(
    generic: ManagerTree,
    other: ManagerTree,
    isolated: Seq<OperationName>,
) -> bool {
    match other.name {
        Some(name) => manages(generic, name, isolated),
        None => true,
    }
}

/// A pass manager for any operation may want to run on the same operations as one of others.
pub open spec fn in_conflict_with_any(
    generic: ManagerTree,
    others: Seq<ManagerTree>,
    isolated: Seq<OperationName>,
) -> bool {
    exists|i: int| 0 <= i < others.len() && in_conflict(generic, #[trigger] others[i], isolated)
}

/// A pass manager is for any operation, and conflicts with one of others.
pub open spec fn is_in_conflict(
    pm: ManagerTree,
    others: Seq<ManagerTree>,
    isolated: Seq<OperationName>,
) -> bool {
    pm.name is None && in_conflict_with_any(pm, others, isolated)
}

/// One of the pass managers is for any operation, and conflicts with one of the others.
pub open spec fn generic_conflict(
    pms: Seq<ManagerTree>,
    others: Seq<ManagerTree>,
    isolated: Seq<OperationName>,
) -> bool {
    exists|i: int|
        0 <= i < pms.len() && is_in_conflict(#[trigger] pms[i], others, isolated)
}

/// The pass managers of two adaptors can be run by one.
pub open spec fn mergeable(
    a: Seq<ManagerTree>,
    b: Seq<ManagerTree>,
    isolated: Seq<OperationName>,
) -> bool {
    !generic_conflict(a, b, isolated) && !generic_conflict(b, a, isolated)
}

/// The first pass manager, from `from` on, that is for the same operation.
pub open spec fn same_name_from(
    pms: Seq<ManagerTree>,
    name: Option<OperationName>,
    from: int,
) -> Option<int>
    decreases pms.len() - from,
{
    if from < 0 || from >= pms.len() {
        None
    } else if pms[from].name == name {
        Some(from)
    } else {
        same_name_from(pms, name, from + 1)
    }
}

/// A pass manager with the passes of another after its own.
pub open spec fn extended(manager: ManagerTree, other: ManagerTree) -> ManagerTree {
    ManagerTree { passes: manager.passes + other.passes, ..manager }
}

/// The pass managers with another one: its passes are added to the one for the same operation, if
/// there is one.
pub open spec fn absorbed(pms: Seq<ManagerTree>, pm: ManagerTree) -> Seq<ManagerTree> {
    match same_name_from(pms, pm.name, 0) {
        Some(at) => pms.update(at, extended(pms[at], pm)),
        None => pms.push(pm),
    }
}

/// The pass managers with the first `n` of others.
pub open spec fn absorbed_all(
    pms: Seq<ManagerTree>,
    others: Seq<ManagerTree>,
    n: int,
) -> Seq<ManagerTree>
    decreases n,
{
    if n <= 0 {
        pms
    } else {
        absorbed(absorbed_all(pms, others, n - 1), others[n - 1])
    }
}

/// The name of an operation comes before another: by the dialect, then by the operation.
pub open spec fn name_precedes(a: OperationName, b: OperationName) -> bool {
    a.dialect.index < b.dialect.index || (a.dialect == b.dialect && a.opcode.index < b.opcode.index)
}

/// A pass manager runs before another: by the operation, and those for any operation last.
pub open spec fn comes_before(a: Option<OperationName>, b: Option<OperationName>) -> bool {
    match (a, b) {
        (Some(a), Some(b)) => name_precedes(a, b),
        (Some(_), None) => true,
        _ => false,
    }
}

/// Where a pass manager is put among others that are in order: after those that are equal.
pub open spec fn place_from(
    pms: Seq<ManagerTree>,
    name: Option<OperationName>,
    from: int,
) -> int
    decreases pms.len() - from,
{
    if from < 0 || from >= pms.len() {
        pms.len() as int
    } else if comes_before(name, pms[from].name) {
        from
    } else {
        place_from(pms, name, from + 1)
    }
}

/// The pass managers in order. Those that are equal keep their order.
pub open spec fn in_order(pms: Seq<ManagerTree>) -> Seq<ManagerTree>
    decreases pms.len(),
{
    if pms.len() == 0 {
        Seq::empty()
    } else {
        let rest = in_order(pms.drop_last());
        rest.insert(place_from(rest, pms.last().name, 0), pms.last())
    }
}

/// The pass managers `a` merged into `b`.
pub open spec fn merged(a: Seq<ManagerTree>, b: Seq<ManagerTree>) -> Seq<ManagerTree> {
    in_order(absorbed_all(b, a, a.len() as int))
}

/// Where a pass manager is put lies in the list.
pub proof fn place_is_inside(pms: Seq<ManagerTree>, name: Option<OperationName>, from: int)
    requires
        0 <= from <= pms.len(),
    ensures
        from <= place_from(pms, name, from) <= pms.len(),
        forall|i: int|
            from <= i < place_from(pms, name, from) ==> !comes_before(
                name,
                (#[trigger] pms[i]).name,
            ),
        place_from(pms, name, from) < pms.len() ==> comes_before(
            name,
            pms[place_from(pms, name, from)].name,
        ),
    decreases pms.len() - from,
{
    if from < pms.len() && !comes_before(name, pms[from].name) {
        place_is_inside(pms, name, from + 1);
    }
}

/// The pass manager that is found is for the operation.
pub proof fn same_name_is_found(pms: Seq<ManagerTree>, name: Option<OperationName>, from: int)
    requires
        0 <= from <= pms.len(),
    ensures
        match same_name_from(pms, name, from) {
            Some(at) => from <= at < pms.len() && pms[at].name == name,
            None => forall|i: int| from <= i < pms.len() ==> (#[trigger] pms[i]).name != name,
        },
    decreases pms.len() - from,
{
    if from < pms.len() && pms[from].name != name {
        same_name_is_found(pms, name, from + 1);
    }
}

/// Pass managers that are in order run in that order: none comes before one that it follows.
pub proof fn order_is_kept(pms: Seq<ManagerTree>)
    ensures
        in_order(pms).len() == pms.len(),
        forall|i: int, j: int|
            0 <= i < j < pms.len() ==> !comes_before(
                (#[trigger] in_order(pms)[j]).name,
                (#[trigger] in_order(pms)[i]).name,
            ),
    decreases pms.len(),
{
    if pms.len() > 0 {
        let rest = in_order(pms.drop_last());
        let last = pms.last();
        order_is_kept(pms.drop_last());
        place_is_inside(rest, last.name, 0);
        let at = place_from(rest, last.name, 0);
        let all = in_order(pms);
        assert(all == rest.insert(at, last));
        assert forall|i: int, j: int| 0 <= i < j < all.len() implies !comes_before(
            (#[trigger] all[j]).name,
            (#[trigger] all[i]).name,
        ) by {
            if j < at {
                assert(all[i] == rest[i] && all[j] == rest[j]);
            } else if j == at {
                assert(all[i] == rest[i]);
            } else if i < at {
                assert(all[i] == rest[i] && all[j] == rest[j - 1]);
            } else if i == at {
                assert(all[j] == rest[j - 1]);
                assert(comes_before(last.name, rest[at].name));
                if j - 1 > at {
                    assert(!comes_before(rest[j - 1].name, rest[at].name));
                }
            } else {
                assert(all[i] == rest[i - 1] && all[j] == rest[j - 1]);
            }
        }
    }
}

// The sizes of trees.

/// How many nodes pass managers have.
pub open spec fn total(pms: Seq<ManagerTree>) -> nat {
    tree::managers_size(pms, pms.len() as int)
}

proof fn prefix_size(a: Seq<ManagerTree>, b: Seq<ManagerTree>, n: int)
    requires
        0 <= n <= a.len(),
        n <= b.len(),
        forall|i: int| 0 <= i < n ==> a[i] == b[i],
    ensures
        tree::managers_size(a, n) == tree::managers_size(b, n),
    decreases n,
{
    if n > 0 {
        prefix_size(a, b, n - 1);
    }
}

/// The size of a list of pass managers is that of the list without the last one, and its own.
pub proof fn total_of_push(pms: Seq<ManagerTree>, pm: ManagerTree)
    ensures
        total(pms.push(pm)) == total(pms) + tree::manager_size(pm),
{
    prefix_size(pms.push(pm), pms, pms.len() as int);
}

/// A pass manager that is put into a list adds its size.
pub proof fn total_of_insert(pms: Seq<ManagerTree>, at: int, pm: ManagerTree)
    requires
        0 <= at <= pms.len(),
    ensures
        total(pms.insert(at, pm)) == total(pms) + tree::manager_size(pm),
    decreases pms.len(),
{
    if at == pms.len() {
        assert(pms.insert(at, pm) =~= pms.push(pm));
        total_of_push(pms, pm);
    } else {
        let rest = pms.drop_last();
        total_of_insert(rest, at, pm);
        assert(pms.insert(at, pm) =~= rest.insert(at, pm).push(pms.last()));
        total_of_push(rest.insert(at, pm), pms.last());
        assert(pms =~= rest.push(pms.last()));
        total_of_push(rest, pms.last());
    }
}

/// A pass manager that replaces another changes the size by the difference.
pub proof fn total_of_update(pms: Seq<ManagerTree>, at: int, pm: ManagerTree)
    requires
        0 <= at < pms.len(),
    ensures
        total(pms.update(at, pm)) + tree::manager_size(pms[at]) == total(pms) + tree::manager_size(pm),
{
    let rest = pms.remove(at);
    assert(pms =~= rest.insert(at, pms[at]));
    assert(pms.update(at, pm) =~= rest.insert(at, pm));
    total_of_insert(rest, at, pms[at]);
    total_of_insert(rest, at, pm);
}

proof fn passes_prefix_size(a: Seq<PassTree>, b: Seq<PassTree>, n: int)
    requires
        0 <= n <= a.len(),
        n <= b.len(),
        forall|i: int| 0 <= i < n ==> a[i] == b[i],
    ensures
        tree::passes_size(a, n) == tree::passes_size(b, n),
    decreases n,
{
    if n > 0 {
        passes_prefix_size(a, b, n - 1);
    }
}

/// How many nodes passes have.
pub open spec fn passes_total(passes: Seq<PassTree>) -> nat {
    tree::passes_size(passes, passes.len() as int)
}

/// A pass that is added adds its size.
pub proof fn passes_total_of_push(passes: Seq<PassTree>, pass: PassTree)
    ensures
        passes_total(passes.push(pass)) == passes_total(passes) + tree::pass_size(pass),
{
    passes_prefix_size(passes.push(pass), passes, passes.len() as int);
}

proof fn passes_total_of_sum(a: Seq<PassTree>, b: Seq<PassTree>)
    ensures
        passes_total(a + b) == passes_total(a) + passes_total(b),
    decreases b.len(),
{
    if b.len() == 0 {
        assert(a + b =~= a);
    } else {
        passes_total_of_sum(a, b.drop_last());
        assert(a + b =~= (a + b.drop_last()).push(b.last()));
        passes_total_of_push(a + b.drop_last(), b.last());
        assert(b =~= b.drop_last().push(b.last()));
        passes_total_of_push(b.drop_last(), b.last());
    }
}

proof fn absorbing_adds_little(pms: Seq<ManagerTree>, pm: ManagerTree)
    ensures
        total(absorbed(pms, pm)) <= total(pms) + tree::manager_size(pm),
{
    same_name_is_found(pms, pm.name, 0);
    match same_name_from(pms, pm.name, 0) {
        Some(at) => {
            total_of_update(pms, at, extended(pms[at], pm));
            passes_total_of_sum(pms[at].passes, pm.passes);
        },
        None => {
            total_of_push(pms, pm);
        },
    }
}

proof fn absorbing_all_adds_little(pms: Seq<ManagerTree>, others: Seq<ManagerTree>, n: int)
    requires
        0 <= n <= others.len(),
    ensures
        total(absorbed_all(pms, others, n)) <= total(pms) + tree::managers_size(others, n),
    decreases n,
{
    if n > 0 {
        absorbing_all_adds_little(pms, others, n - 1);
        absorbing_adds_little(absorbed_all(pms, others, n - 1), others[n - 1]);
    }
}

proof fn ordering_adds_nothing(pms: Seq<ManagerTree>)
    ensures
        total(in_order(pms)) == total(pms),
    decreases pms.len(),
{
    if pms.len() > 0 {
        let rest = in_order(pms.drop_last());
        ordering_adds_nothing(pms.drop_last());
        place_is_inside(rest, pms.last().name, 0);
        total_of_insert(rest, place_from(rest, pms.last().name, 0), pms.last());
        assert(pms =~= pms.drop_last().push(pms.last()));
        total_of_push(pms.drop_last(), pms.last());
    }
}

/// Pass managers that are merged are no larger than both.
pub proof fn merging_adds_little(a: Seq<ManagerTree>, b: Seq<ManagerTree>)
    ensures
        total(merged(a, b)) <= total(a) + total(b),
{
    absorbing_all_adds_little(b, a, a.len() as int);
    ordering_adds_nothing(absorbed_all(b, a, a.len() as int));
}

// What merging keeps.

/// The passes that pass managers run on the operations of a name, or on any operation, in the
/// order in which they run.
pub open spec fn passes_for(pms: Seq<ManagerTree>, name: Option<OperationName>) -> Seq<PassTree>
    decreases pms.len(),
{
    if pms.len() == 0 {
        Seq::empty()
    } else {
        passes_for(pms.drop_last(), name) + own_passes(pms.last(), name)
    }
}

/// The passes of a pass manager, if it is for the operations of a name.
pub open spec fn own_passes(pm: ManagerTree, name: Option<OperationName>) -> Seq<PassTree> {
    if pm.name == name {
        pm.passes
    } else {
        Seq::empty()
    }
}

/// No two pass managers are for the same operations.
pub open spec fn are_distinct(pms: Seq<ManagerTree>) -> bool {
    forall|i: int, j: int|
        0 <= i < j < pms.len() ==> (#[trigger] pms[i]).name != (#[trigger] pms[j]).name
}

proof fn passes_of_push(pms: Seq<ManagerTree>, pm: ManagerTree, name: Option<OperationName>)
    ensures
        passes_for(pms.push(pm), name) == passes_for(pms, name) + own_passes(pm, name),
{
    assert(pms.push(pm).drop_last() =~= pms);
}

proof fn passes_of_insert(
    pms: Seq<ManagerTree>,
    at: int,
    pm: ManagerTree,
    name: Option<OperationName>,
)
    requires
        0 <= at <= pms.len(),
        forall|i: int| at <= i < pms.len() ==> (#[trigger] pms[i]).name != pm.name,
    ensures
        passes_for(pms.insert(at, pm), name) == passes_for(pms, name) + own_passes(pm, name),
    decreases pms.len(),
{
    if at == pms.len() {
        assert(pms.insert(at, pm) =~= pms.push(pm));
        passes_of_push(pms, pm, name);
    } else {
        let rest = pms.drop_last();
        assert forall|i: int| at <= i < rest.len() implies (#[trigger] rest[i]).name != pm.name by {
            assert(rest[i] == pms[i]);
        }
        passes_of_insert(rest, at, pm, name);
        assert(pms.insert(at, pm) =~= rest.insert(at, pm).push(pms.last()));
        passes_of_push(rest.insert(at, pm), pms.last(), name);
        assert(pms.last().name != pm.name);
        assert(passes_for(pms.insert(at, pm), name) =~= passes_for(pms, name) + own_passes(
            pm,
            name,
        ));
    }
}

proof fn passes_of_absorbed(pms: Seq<ManagerTree>, pm: ManagerTree, name: Option<OperationName>)
    requires
        are_distinct(pms),
    ensures
        are_distinct(absorbed(pms, pm)),
        passes_for(absorbed(pms, pm), name) == passes_for(pms, name) + own_passes(pm, name),
{
    same_name_is_found(pms, pm.name, 0);
    match same_name_from(pms, pm.name, 0) {
        Some(at) => {
            let rest = pms.remove(at);
            let with = extended(pms[at], pm);
            assert forall|i: int| at <= i < rest.len() implies (#[trigger] rest[i]).name
                != pm.name by {
                assert(rest[i] == pms[i + 1]);
            }
            assert(pms =~= rest.insert(at, pms[at]));
            assert(pms.update(at, with) =~= rest.insert(at, with));
            passes_of_insert(rest, at, pms[at], name);
            passes_of_insert(rest, at, with, name);
            assert(passes_for(absorbed(pms, pm), name) =~= passes_for(pms, name) + own_passes(
                pm,
                name,
            ));
        },
        None => {
            passes_of_push(pms, pm, name);
        },
    }
}

proof fn passes_of_all_absorbed(
    pms: Seq<ManagerTree>,
    others: Seq<ManagerTree>,
    n: int,
    name: Option<OperationName>,
)
    requires
        are_distinct(pms),
        0 <= n <= others.len(),
    ensures
        are_distinct(absorbed_all(pms, others, n)),
        passes_for(absorbed_all(pms, others, n), name) == passes_for(pms, name) + passes_for(
            others.take(n),
            name,
        ),
    decreases n,
{
    if n > 0 {
        passes_of_all_absorbed(pms, others, n - 1, name);
        passes_of_absorbed(absorbed_all(pms, others, n - 1), others[n - 1], name);
        assert(others.take(n).drop_last() =~= others.take(n - 1));
        assert(passes_for(absorbed_all(pms, others, n), name) =~= passes_for(pms, name)
            + passes_for(others.take(n), name));
    } else {
        assert(passes_for(absorbed_all(pms, others, n), name) =~= passes_for(pms, name)
            + passes_for(others.take(n), name));
    }
}

proof fn ordering_moves_managers(pms: Seq<ManagerTree>)
    ensures
        in_order(pms).len() == pms.len(),
        forall|i: int| 0 <= i < pms.len() ==> pms.contains(#[trigger] in_order(pms)[i]),
    decreases pms.len(),
{
    order_is_kept(pms);
    if pms.len() > 0 {
        let front = pms.drop_last();
        let rest = in_order(front);
        ordering_moves_managers(front);
        place_is_inside(rest, pms.last().name, 0);
        let at = place_from(rest, pms.last().name, 0);
        assert forall|i: int| 0 <= i < pms.len() implies pms.contains(
            #[trigger] in_order(pms)[i],
        ) by {
            if i == at {
                assert(pms[pms.len() - 1] == in_order(pms)[i]);
            } else {
                let k = if i < at {
                    i
                } else {
                    i - 1
                };
                assert(in_order(pms)[i] == rest[k]);
                let j = choose|j: int| 0 <= j < front.len() && front[j] == rest[k];
                assert(pms[j] == rest[k]);
            }
        }
    }
}

proof fn passes_in_order(pms: Seq<ManagerTree>, name: Option<OperationName>)
    ensures
        passes_for(in_order(pms), name) == passes_for(pms, name),
        are_distinct(pms) ==> are_distinct(in_order(pms)),
    decreases pms.len(),
{
    if pms.len() > 0 {
        let front = pms.drop_last();
        let last = pms.last();
        let rest = in_order(front);
        passes_in_order(front, name);
        order_is_kept(front);
        place_is_inside(rest, last.name, 0);
        let at = place_from(rest, last.name, 0);
        assert forall|i: int| at <= i < rest.len() implies (#[trigger] rest[i]).name
            != last.name by {
            if i > at {
                assert(!comes_before(rest[i].name, rest[at].name));
            }
        }
        passes_of_insert(rest, at, last, name);
        if are_distinct(pms) {
            ordering_moves_managers(front);
            assert forall|i: int| 0 <= i < rest.len() implies (#[trigger] rest[i]).name
                != last.name by {
                let j = choose|j: int| 0 <= j < front.len() && front[j] == rest[i];
                assert(pms[j] == rest[i]);
            }
            let all = rest.insert(at, last);
            assert(are_distinct(front)) by {
                assert forall|i: int, j: int| 0 <= i < j < front.len() implies (
                #[trigger] front[i]).name != (#[trigger] front[j]).name by {
                    assert(front[i] == pms[i] && front[j] == pms[j]);
                }
            }
            assert forall|i: int, j: int| 0 <= i < j < all.len() implies (#[trigger] all[i]).name
                != (#[trigger] all[j]).name by {
                let p = if i < at {
                    i
                } else {
                    i - 1
                };
                let q = if j < at {
                    j
                } else {
                    j - 1
                };
                if i == at {
                    assert(all[j] == rest[q]);
                } else if j == at {
                    assert(all[i] == rest[p]);
                } else {
                    assert(all[i] == rest[p] && all[j] == rest[q]);
                }
            }
        }
    }
}

/// Merging loses no pass: the passes for the operations of a name are those of the adaptor that
/// was merged into, and after them those of the adaptor that was merged. As long as no two pass
/// managers of an adaptor are for the same operations, merging keeps it so.
pub proof fn no_pass_is_lost(
    a: Seq<ManagerTree>,
    b: Seq<ManagerTree>,
    name: Option<OperationName>,
)
    requires
        are_distinct(b),
    ensures
        passes_for(merged(a, b), name) == passes_for(b, name) + passes_for(a, name),
        are_distinct(merged(a, b)),
{
    let n = a.len() as int;
    assert(a.take(n) =~= a);
    passes_of_all_absorbed(b, a, n, name);
    passes_in_order(absorbed_all(b, a, n), name);
}

fn conflicts_with_any(
    generic: &OpPassManager,
    others: &Vec<OpPassManager>,
    isolated: &IsolatedOps,
) -> (b: bool)
    ensures
        b == in_conflict_with_any(
            tree::manager_tree(*generic),
            tree::manager_trees(others@),
            isolated.names@,
        ),
{
    let ghost trees = tree::manager_trees(others@);
    let mut i: usize = 0;
    while i < others.len()
        invariant
            i <= others@.len(),
            trees == tree::manager_trees(others@),
            forall|j: int|
                0 <= j < i ==> !in_conflict(
                    tree::manager_tree(*generic),
                    #[trigger] trees[j],
                    isolated.names@,
                ),
        decreases others@.len() - i,
    {
        proof {
            tree::manager_tree_is(others@[i as int]);
        }
        let conflict = match others[i].name {
            Some(name) => generic.can_schedule_on(&name, isolated),
            None => true,
        };
        if conflict {
            assert(in_conflict(
                tree::manager_tree(*generic),
                trees[i as int],
                isolated.names@,
            ));
            return true;
        }
        i = i + 1;
    }
    false
}

fn has_generic_conflict(
    pms: &Vec<OpPassManager>,
    others: &Vec<OpPassManager>,
    isolated: &IsolatedOps,
) -> (b: bool)
    ensures
        b == generic_conflict(
            tree::manager_trees(pms@),
            tree::manager_trees(others@),
            isolated.names@,
        ),
{
    let ghost trees = tree::manager_trees(pms@);
    let mut i: usize = 0;
    while i < pms.len()
        invariant
            i <= pms@.len(),
            trees == tree::manager_trees(pms@),
            forall|j: int|
                0 <= j < i ==> !is_in_conflict(
                    #[trigger] trees[j],
                    tree::manager_trees(others@),
                    isolated.names@,
                ),
        decreases pms@.len() - i,
    {
        proof {
            tree::manager_tree_is(pms@[i as int]);
        }
        if pms[i].name.is_none() && conflicts_with_any(&pms[i], others, isolated) {
            assert(is_in_conflict(
                trees[i as int],
                tree::manager_trees(others@),
                isolated.names@,
            ));
            return true;
        }
        i = i + 1;
    }
    false
}

fn same_name(a: &Option<OperationName>, b: &Option<OperationName>) -> (same: bool)
    ensures
        same == (*a == *b),
{
    match (a, b) {
        (Some(a), Some(b)) => *a == *b,
        (None, None) => true,
        _ => false,
    }
}

fn is_before(a: &Option<OperationName>, b: &Option<OperationName>) -> (before: bool)
    ensures
        before == comes_before(*a, *b),
{
    match (a, b) {
        (Some(a), Some(b)) => a.dialect.index < b.dialect.index || (a.dialect == b.dialect
            && a.opcode.index < b.opcode.index),
        (Some(_), None) => true,
        _ => false,
    }
}

fn absorb(pms: &mut Vec<OpPassManager>, pm: OpPassManager)
    ensures
        tree::manager_trees(final(pms)@) == absorbed(
            tree::manager_trees(old(pms)@),
            tree::manager_tree(pm),
        ),
{
    let ghost trees = tree::manager_trees(pms@);
    let ghost before = pms@;
    proof {
        tree::manager_tree_is(pm);
    }
    let mut i: usize = 0;
    while i < pms.len()
        invariant
            i <= pms@.len(),
            pms@ == before,
            trees == tree::manager_trees(before),
            tree::manager_tree(pm).name == pm.name,
            tree::manager_tree(pm).passes == tree::entry_trees(pm.passes@),
            same_name_from(trees, pm.name, 0) == same_name_from(trees, pm.name, i as int),
            before == old(pms)@,
        decreases pms@.len() - i,
    {
        proof {
            tree::manager_tree_is(pms@[i as int]);
        }
        if same_name(&pms[i].name, &pm.name) {
            let ghost existing = pms@[i as int];
            let ghost added = pm.passes@;
            let ghost pm_tree = tree::manager_tree(pm);
            let mut passes = pm.passes;
            pms[i].passes.append(&mut passes);
            proof {
                let after = pms@[i as int];
                tree::manager_tree_is(after);
                assert(after.passes@ == existing.passes@ + added);
                assert(tree::entry_trees(after.passes@) =~= tree::entry_trees(existing.passes@)
                    + tree::entry_trees(added));
                assert(tree::manager_tree(after) == extended(trees[i as int], pm_tree));
                assert(tree::manager_trees(pms@) =~= trees.update(
                    i as int,
                    extended(trees[i as int], pm_tree),
                ));
            }
            return;
        }
        i = i + 1;
    }
    pms.push(pm);
    assert(tree::manager_trees(pms@) =~= trees.push(tree::manager_tree(pm)));
}

fn put_in_order(pms: &mut Vec<OpPassManager>)
    ensures
        tree::manager_trees(final(pms)@) == in_order(tree::manager_trees(old(pms)@)),
{
    let ghost all = tree::manager_trees(pms@);
    let ghost mut done: int = 0;
    let mut sorted: Vec<OpPassManager> = Vec::new();
    assert(pms@ == pms@.skip(0));
    assert(tree::manager_trees(sorted@) =~= in_order(all.take(0)));
    while pms.len() > 0
        invariant
            0 <= done <= all.len(),
            all == tree::manager_trees(old(pms)@),
            pms@ == old(pms)@.skip(done),
            tree::manager_trees(sorted@) == in_order(all.take(done)),
        decreases pms@.len(),
    {
        let ghost trees = tree::manager_trees(sorted@);
        let ghost before = sorted@;
        let pm = pms.remove(0);
        let ghost pm_tree = tree::manager_tree(pm);
        assert(pm == old(pms)@[done]);
        assert(pms@ =~= old(pms)@.skip(done + 1));
        proof {
            tree::manager_tree_is(pm);
        }
        let mut at: usize = 0;
        while at < sorted.len() && !is_before(&pm.name, &sorted[at].name)
            invariant
                at <= sorted@.len(),
                sorted@ == before,
                trees == tree::manager_trees(before),
                pm_tree == tree::manager_tree(pm),
                pm_tree.name == pm.name,
                place_from(trees, pm_tree.name, 0) == place_from(trees, pm_tree.name, at as int),
            decreases sorted@.len() - at,
        {
            proof {
                tree::manager_tree_is(sorted@[at as int]);
            }
            at = at + 1;
        }
        proof {
            if at < sorted@.len() {
                tree::manager_tree_is(sorted@[at as int]);
            }
            assert(place_from(trees, pm_tree.name, 0) == at);
        }
        sorted.insert(at, pm);
        proof {
            assert(tree::manager_trees(sorted@) =~= trees.insert(at as int, pm_tree));
            assert(all.take(done + 1).drop_last() =~= all.take(done));
            assert(all.take(done + 1).last() == pm_tree);
            done = done + 1;
        }
    }
    assert(all.take(all.len() as int) == all);
    *pms = sorted;
}

impl OpToOpPassAdaptor {
    /// An adaptor for one pass manager.
    pub fn new(pm: OpPassManager) -> (adaptor: Self)
        ensures
            adaptor.pms@ == seq![pm],
    {
        let mut pms: Vec<OpPassManager> = Vec::new();
        pms.push(pm);
        assert(pms@ =~= seq![pm]);
        OpToOpPassAdaptor { pms }
    }

    /// The pass managers.
    pub fn pass_managers(&self) -> (pms: &Vec<OpPassManager>)
        ensures
            *pms == self.pms,
    {
        &self.pms
    }

    /// The pass managers, to be changed.
    pub fn pass_managers_mut(&mut self) -> (pms: &mut Vec<OpPassManager>)
        ensures
            *pms == old(self).pms,
            final(self).pms == *final(pms),
    {
        &mut self.pms
    }

    /// Tries to merge the pass managers of this adaptor into those of `rhs`.
    ///
    /// That is not possible if one of the adaptors has a pass manager for any operation that may
    /// want to run on the same operations as a pass manager of the other. Pass managers for the
    /// same operation become one, and afterwards they are in the order of their names, with the
    /// one for any operation last.
    pub fn try_merge_into(&mut self, rhs: &mut Self, isolated: &IsolatedOps) -> (done: bool)
        ensures
            ({
                let a = tree::manager_trees(old(self).pms@);
                let b = tree::manager_trees(old(rhs).pms@);
                &&& done == mergeable(a, b, isolated.names@)
                &&& done ==> final(self).pms@.len() == 0 && tree::manager_trees(final(rhs).pms@)
                    == merged(a, b)
                &&& !done ==> *final(self) == *old(self) && *final(rhs) == *old(rhs)
            }),
    {
        let ghost a = tree::manager_trees(self.pms@);
        let ghost b = tree::manager_trees(rhs.pms@);
        if has_generic_conflict(&self.pms, &rhs.pms, isolated) {
            return false;
        }
        if has_generic_conflict(&rhs.pms, &self.pms, isolated) {
            return false;
        }
        let ghost mut moved: int = 0;
        assert(self.pms@ == old(self).pms@.skip(0));
        while self.pms.len() > 0
            invariant
                0 <= moved <= a.len(),
                a == tree::manager_trees(old(self).pms@),
                self.pms@ == old(self).pms@.skip(moved),
                tree::manager_trees(rhs.pms@) == absorbed_all(b, a, moved),
            decreases self.pms@.len(),
        {
            let pm = self.pms.remove(0);
            assert(pm == old(self).pms@[moved]);
            assert(self.pms@ =~= old(self).pms@.skip(moved + 1));
            absorb(&mut rhs.pms, pm);
            proof {
                moved = moved + 1;
            }
        }
        put_in_order(&mut rhs.pms);
        true
    }

    /// What the adaptor is called: the names of the operations that it runs on.
    pub open spec fn title(&self, interner: &Interner) -> Seq<char> {
        "Pipeline Collection: ["@ + text::joined(
            self.pms@.map_values(|pm: OpPassManager| anchor_shown(pm.name, interner)),
            ", "@,
        ) + "]"@
    }

    /// What the adaptor is called.
    pub fn name(&self, interner: &Interner) -> (out: String)
        requires
            forall|i: int|
                0 <= i < self.pms@.len() ==> ((#[trigger] self.pms@[i]).name matches Some(name)
                    ==> name.known(interner)),
        ensures
            out@ == self.title(interner),
    {
        let ghost all = self.pms@.map_values(
            |pm: OpPassManager| anchor_shown(pm.name, interner),
        );
        let mut parts: Vec<String> = Vec::new();
        let mut i: usize = 0;
        assert(text::texts(parts@) =~= all.take(0));
        while i < self.pms.len()
            invariant
                i <= self.pms@.len(),
                forall|i: int|
                    0 <= i < self.pms@.len() ==> ((#[trigger] self.pms@[i]).name matches Some(
                        name,
                    ) ==> name.known(interner)),
                all == self.pms@.map_values(
                    |pm: OpPassManager| anchor_shown(pm.name, interner),
                ),
                text::texts(parts@) == all.take(i as int),
            decreases self.pms@.len() - i,
        {
            let part = show_anchor(&self.pms[i].name, interner);
            let ghost before = parts@;
            parts.push(part);
            assert(text::texts(parts@) =~= text::texts(before).push(part@));
            assert(all.take(i + 1) =~= all.take(i as int).push(all[i as int]));
            i = i + 1;
        }
        assert(all.take(all.len() as int) == all);
        let mut out = String::new();
        out.append("Pipeline Collection: [");
        out.append(text::join(&parts, ", ").as_str());
        out.append("]");
        assert(out@ =~= self.title(interner));
        out
    }
}

/// What a pass manager runs on, as text.
pub open spec fn anchor_shown(name: Option<OperationName>, interner: &Interner) -> Seq<char> {
    match name {
        Some(name) => name.shown(interner),
        None => "any"@,
    }
}

/// What a pass manager runs on, as text.
pub fn show_anchor(name: &Option<OperationName>, interner: &Interner) -> (out: String)
    requires
        name matches Some(name) ==> name.known(interner),
    ensures
        out@ == anchor_shown(*name, interner),
{
    match name {
        Some(name) => name.show(interner),
        None => "any".to_owned(),
    }
}

} // verus!
