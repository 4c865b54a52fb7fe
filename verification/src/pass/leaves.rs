//! Finalization keeps every pass where it runs.
use vstd::prelude::*;
use vstd::multiset::Multiset;
use crate::hir::operation::OperationName;
use crate::pass::finalize;
use crate::pass::merge;
use crate::pass::run::{self, Event, OpRef, PassOutcome, Settings};
use crate::pass::tree::{self, ManagerTree, PassInfo, PassTree};

verus! {

/// A pass, with what the pass managers around it are for, from the outermost in.
pub ghost struct Leaf {
    pub under: Seq<Option<OperationName>>,
    pub pass: PassInfo,
}

/// The passes of a pass manager that is nested in others.
pub open spec fn manager_leaves(
    manager: ManagerTree,
    under: Seq<Option<OperationName>>,
) -> Multiset<Leaf>
    decreases manager, 0int,
{
    passes_leaves(manager.passes, manager.passes.len() as int, under.push(manager.name))
}

/// The first `n` of the passes, with those that are nested in them.
pub open spec fn passes_leaves(
    passes: Seq<PassTree>,
    n: int,
    under: Seq<Option<OperationName>>,
) -> Multiset<Leaf>
    decreases passes, n,
{
    if n <= 0 || n > passes.len() {
        Multiset::empty()
    } else {
        passes_leaves(passes, n - 1, under).add(pass_leaves(passes[n - 1], under))
    }
}

/// A pass, or the passes that are nested in it.
pub open spec fn pass_leaves(pass: PassTree, under: Seq<Option<OperationName>>) -> Multiset<Leaf>
    decreases pass, 0int,
{
    match pass {
        PassTree::Pass(info) => Multiset::singleton(Leaf { under, pass: info }),
        PassTree::Adaptor(pms) => managers_leaves(pms, pms.len() as int, under),
    }
}

/// The passes of the first `n` pass managers.
pub open spec fn managers_leaves(
    pms: Seq<ManagerTree>,
    n: int,
    under: Seq<Option<OperationName>>,
) -> Multiset<Leaf>
    decreases pms, n,
{
    if n <= 0 || n > pms.len() {
        Multiset::empty()
    } else {
        managers_leaves(pms, n - 1, under).add(manager_leaves(pms[n - 1], under))
    }
}

spec fn of_all(pms: Seq<ManagerTree>, under: Seq<Option<OperationName>>) -> Multiset<Leaf> {
    managers_leaves(pms, pms.len() as int, under)
}

spec fn of_passes(passes: Seq<PassTree>, under: Seq<Option<OperationName>>) -> Multiset<Leaf> {
    passes_leaves(passes, passes.len() as int, under)
}

spec fn of_adaptor(
    adaptor: Option<Seq<ManagerTree>>,
    under: Seq<Option<OperationName>>,
) -> Multiset<Leaf> {
    match adaptor {
        Some(pms) => of_all(pms, under),
        None => Multiset::empty(),
    }
}

proof fn managers_prefix(
    a: Seq<ManagerTree>,
    b: Seq<ManagerTree>,
    n: int,
    under: Seq<Option<OperationName>>,
)
    requires
        0 <= n <= a.len(),
        n <= b.len(),
        forall|i: int| 0 <= i < n ==> a[i] == b[i],
    ensures
        managers_leaves(a, n, under) == managers_leaves(b, n, under),
    decreases n,
{
    if n > 0 {
        managers_prefix(a, b, n - 1, under);
    }
}

proof fn managers_push(
    pms: Seq<ManagerTree>,
    pm: ManagerTree,
    under: Seq<Option<OperationName>>,
)
    ensures
        of_all(pms.push(pm), under) == of_all(pms, under).add(manager_leaves(pm, under)),
{
    managers_prefix(pms.push(pm), pms, pms.len() as int, under);
}

proof fn managers_insert(
    pms: Seq<ManagerTree>,
    at: int,
    pm: ManagerTree,
    under: Seq<Option<OperationName>>,
)
    requires
        0 <= at <= pms.len(),
    ensures
        of_all(pms.insert(at, pm), under) == of_all(pms, under).add(manager_leaves(pm, under)),
    decreases pms.len(),
{
    if at == pms.len() {
        assert(pms.insert(at, pm) =~= pms.push(pm));
        managers_push(pms, pm, under);
    } else {
        let rest = pms.drop_last();
        managers_insert(rest, at, pm, under);
        assert(pms.insert(at, pm) =~= rest.insert(at, pm).push(pms.last()));
        managers_push(rest.insert(at, pm), pms.last(), under);
        assert(pms =~= rest.push(pms.last()));
        managers_push(rest, pms.last(), under);
        assert(of_all(pms.insert(at, pm), under) =~= of_all(pms, under).add(
            manager_leaves(pm, under),
        ));
    }
}

proof fn passes_prefix(
    a: Seq<PassTree>,
    b: Seq<PassTree>,
    n: int,
    under: Seq<Option<OperationName>>,
)
    requires
        0 <= n <= a.len(),
        n <= b.len(),
        forall|i: int| 0 <= i < n ==> a[i] == b[i],
    ensures
        passes_leaves(a, n, under) == passes_leaves(b, n, under),
    decreases n,
{
    if n > 0 {
        passes_prefix(a, b, n - 1, under);
    }
}

proof fn passes_push(passes: Seq<PassTree>, pass: PassTree, under: Seq<Option<OperationName>>)
    ensures
        of_passes(passes.push(pass), under) == of_passes(passes, under).add(
            pass_leaves(pass, under),
        ),
{
    passes_prefix(passes.push(pass), passes, passes.len() as int, under);
}

proof fn passes_sum(a: Seq<PassTree>, b: Seq<PassTree>, under: Seq<Option<OperationName>>)
    ensures
        of_passes(a + b, under) == of_passes(a, under).add(of_passes(b, under)),
    decreases b.len(),
{
    if b.len() == 0 {
        assert(a + b =~= a);
        assert(of_passes(a, under) =~= of_passes(a, under).add(of_passes(b, under)));
    } else {
        passes_sum(a, b.drop_last(), under);
        assert(a + b =~= (a + b.drop_last()).push(b.last()));
        passes_push(a + b.drop_last(), b.last(), under);
        assert(b =~= b.drop_last().push(b.last()));
        passes_push(b.drop_last(), b.last(), under);
        assert(of_passes(a + b, under) =~= of_passes(a, under).add(of_passes(b, under)));
    }
}

proof fn absorbing_keeps(pms: Seq<ManagerTree>, pm: ManagerTree, under: Seq<Option<OperationName>>)
    ensures
        of_all(merge::absorbed(pms, pm), under) == of_all(pms, under).add(
            manager_leaves(pm, under),
        ),
{
    merge::same_name_is_found(pms, pm.name, 0);
    match merge::same_name_from(pms, pm.name, 0) {
        Some(at) => {
            let rest = pms.remove(at);
            let with = merge::extended(pms[at], pm);
            assert(pms =~= rest.insert(at, pms[at]));
            assert(pms.update(at, with) =~= rest.insert(at, with));
            managers_insert(rest, at, pms[at], under);
            managers_insert(rest, at, with, under);
            passes_sum(pms[at].passes, pm.passes, under.push(pm.name));
            assert(of_all(merge::absorbed(pms, pm), under) =~= of_all(pms, under).add(
                manager_leaves(pm, under),
            ));
        },
        None => {
            managers_push(pms, pm, under);
        },
    }
}

proof fn absorbing_all_keeps(
    pms: Seq<ManagerTree>,
    others: Seq<ManagerTree>,
    n: int,
    under: Seq<Option<OperationName>>,
)
    requires
        0 <= n <= others.len(),
    ensures
        of_all(merge::absorbed_all(pms, others, n), under) == of_all(pms, under).add(
            managers_leaves(others, n, under),
        ),
    decreases n,
{
    if n > 0 {
        absorbing_all_keeps(pms, others, n - 1, under);
        absorbing_keeps(merge::absorbed_all(pms, others, n - 1), others[n - 1], under);
    }
    assert(of_all(merge::absorbed_all(pms, others, n), under) =~= of_all(pms, under).add(
        managers_leaves(others, n, under),
    ));
}

proof fn ordering_keeps(pms: Seq<ManagerTree>, under: Seq<Option<OperationName>>)
    ensures
        of_all(merge::in_order(pms), under) == of_all(pms, under),
    decreases pms.len(),
{
    if pms.len() > 0 {
        let rest = merge::in_order(pms.drop_last());
        ordering_keeps(pms.drop_last(), under);
        merge::place_is_inside(rest, pms.last().name, 0);
        managers_insert(
            rest,
            merge::place_from(rest, pms.last().name, 0),
            pms.last(),
            under,
        );
        assert(pms =~= pms.drop_last().push(pms.last()));
        managers_push(pms.drop_last(), pms.last(), under);
    }
}

/// Merging keeps every pass where it runs.
pub proof fn merging_keeps_passes(
    a: Seq<ManagerTree>,
    b: Seq<ManagerTree>,
    under: Seq<Option<OperationName>>,
)
    ensures
        pass_leaves(PassTree::Adaptor(merge::merged(a, b)), under) == pass_leaves(
            PassTree::Adaptor(b),
            under,
        ).add(pass_leaves(PassTree::Adaptor(a), under)),
{
    absorbing_all_keeps(b, a, a.len() as int, under);
    ordering_keeps(merge::absorbed_all(b, a, a.len() as int), under);
}

proof fn grouping_keeps(
    passes: Seq<PassTree>,
    n: int,
    isolated: Seq<OperationName>,
    under: Seq<Option<OperationName>>,
)
    requires
        0 <= n <= passes.len(),
    ensures
        of_passes(finalize::grouped(passes, n, isolated).0, under).add(
            of_adaptor(finalize::grouped(passes, n, isolated).1, under),
        ) == passes_leaves(passes, n, under),
    decreases n,
{
    if n > 0 {
        grouping_keeps(passes, n - 1, isolated, under);
        let (done, last) = finalize::grouped(passes, n - 1, isolated);
        if let Some(last) = last {
            passes_push(done, PassTree::Adaptor(last), under);
            assert(pass_leaves(PassTree::Adaptor(last), under) == of_all(last, under));
        }
        match passes[n - 1] {
            PassTree::Adaptor(pms) => {
                assert(pass_leaves(passes[n - 1], under) == of_all(pms, under));
                if let Some(last) = last {
                    merging_keeps_passes(pms, last, under);
                    assert(pass_leaves(PassTree::Adaptor(merge::merged(pms, last)), under)
                        == of_all(merge::merged(pms, last), under));
                }
            },
            PassTree::Pass(_) => {
                passes_push(done, passes[n - 1], under);
                if let Some(last) = last {
                    passes_push(done.push(PassTree::Adaptor(last)), passes[n - 1], under);
                }
            },
        }
    }
    assert(of_passes(finalize::grouped(passes, n, isolated).0, under).add(
        of_adaptor(finalize::grouped(passes, n, isolated).1, under),
    ) =~= passes_leaves(passes, n, under));
}

proof fn settling_keeps(
    manager: ManagerTree,
    isolated: Seq<OperationName>,
    under: Seq<Option<OperationName>>,
)
    ensures
        of_passes(finalize::settled(manager, isolated), under) == of_passes(manager.passes, under),
{
    let n = manager.passes.len() as int;
    grouping_keeps(manager.passes, n, isolated, under);
    let (done, last) = finalize::grouped(manager.passes, n, isolated);
    match last {
        Some(last) => passes_push(done, PassTree::Adaptor(last), under),
        None => assert(of_passes(done, under) =~= of_passes(done, under).add(Multiset::empty())),
    }
}

proof fn finalizing_nested_keeps(
    manager: ManagerTree,
    isolated: Seq<OperationName>,
    i: int,
    k: int,
    under: Seq<Option<OperationName>>,
)
    requires
        0 <= i < finalize::settled(manager, isolated).len(),
        finalize::settled(manager, isolated)[i] matches PassTree::Adaptor(pms) && 0 <= k
            <= pms.len(),
    ensures
        finalize::settled(manager, isolated)[i] matches PassTree::Adaptor(pms) ==> (
        finalize::finalized_nested(manager, isolated, i, k) matches Some(after) ==> of_all(
            after,
            under,
        ) == managers_leaves(pms, k, under)),
    decreases tree::manager_size(manager), 0int, k,
{
    if k > 0 {
        finalizing_nested_keeps(manager, isolated, i, k - 1, under);
        if let PassTree::Adaptor(pms) = finalize::settled(manager, isolated)[i] {
            finalize::nested_is_smaller(manager, isolated, i, k - 1);
            finalizing_keeps_passes(pms[k - 1], isolated, under);
            if let Some(before) = finalize::finalized_nested(manager, isolated, i, k - 1) {
                if let Some(pm) = finalize::finalized(pms[k - 1], isolated) {
                    managers_push(before, pm, under);
                }
            }
        }
    }
}

proof fn finalizing_items_keeps(
    manager: ManagerTree,
    isolated: Seq<OperationName>,
    n: int,
    under: Seq<Option<OperationName>>,
)
    requires
        0 <= n <= finalize::settled(manager, isolated).len(),
    ensures
        finalize::finalized_items(manager, isolated, n) matches Some(after) ==> of_passes(
            after,
            under,
        ) == passes_leaves(finalize::settled(manager, isolated), n, under),
    decreases tree::manager_size(manager), 1int, n,
{
    if n > 0 {
        finalizing_items_keeps(manager, isolated, n - 1, under);
        if let Some(before) = finalize::finalized_items(manager, isolated, n - 1) {
            match finalize::settled(manager, isolated)[n - 1] {
                PassTree::Pass(_) => {
                    passes_push(before, finalize::settled(manager, isolated)[n - 1], under);
                },
                PassTree::Adaptor(pms) => {
                    let k = pms.len() as int;
                    finalizing_nested_keeps(manager, isolated, n - 1, k, under);
                    if let Some(after) = finalize::finalized_nested(manager, isolated, n - 1, k) {
                        passes_push(before, PassTree::Adaptor(after), under);
                        assert(pass_leaves(PassTree::Adaptor(after), under) == of_all(
                            after,
                            under,
                        ));
                        assert(pass_leaves(PassTree::Adaptor(pms), under) == of_all(pms, under));
                    }
                },
            }
        }
    }
}

/// Finalizing the list of passes of a pass manager keeps every pass: there are as many of each as
/// before, and the pass managers around each are for the same operations.
pub proof fn finalizing_keeps_passes(
    manager: ManagerTree,
    isolated: Seq<OperationName>,
    under: Seq<Option<OperationName>>,
)
    ensures
        finalize::finalized(manager, isolated) matches Some(after) ==> manager_leaves(after, under)
            == manager_leaves(manager, under),
    decreases tree::manager_size(manager), 2int, 0int,
{
    let n = finalize::settled(manager, isolated).len() as int;
    finalizing_items_keeps(manager, isolated, n, under.push(manager.name));
    settling_keeps(manager, isolated, under.push(manager.name));
}

proof fn nested_leaves_are_deeper(
    pms: Seq<ManagerTree>,
    n: int,
    under: Seq<Option<OperationName>>,
    leaf: Leaf,
)
    requires
        0 <= n <= pms.len(),
        managers_leaves(pms, n, under).count(leaf) > 0,
    ensures
        leaf.under.len() > under.len(),
    decreases pms, n,
{
    if n > 0 {
        if managers_leaves(pms, n - 1, under).count(leaf) > 0 {
            nested_leaves_are_deeper(pms, n - 1, under, leaf);
        } else {
            let pm = pms[n - 1];
            assert(manager_leaves(pm, under).count(leaf) > 0);
            leaves_are_deep(pm.passes, pm.passes.len() as int, under.push(pm.name), leaf);
        }
    }
}

proof fn leaves_are_deep(
    passes: Seq<PassTree>,
    n: int,
    under: Seq<Option<OperationName>>,
    leaf: Leaf,
)
    requires
        0 <= n <= passes.len(),
        passes_leaves(passes, n, under).count(leaf) > 0,
    ensures
        leaf.under.len() >= under.len(),
        leaf.under == under ==> passes.take(n).contains(PassTree::Pass(leaf.pass)),
    decreases passes, n,
{
    if n > 0 {
        if passes_leaves(passes, n - 1, under).count(leaf) > 0 {
            leaves_are_deep(passes, n - 1, under, leaf);
            if leaf.under == under {
                let front = passes.take(n - 1);
                let i = choose|i: int|
                    0 <= i < front.len() && front[i] == PassTree::Pass(leaf.pass);
                assert(passes.take(n)[i] == PassTree::Pass(leaf.pass));
            }
        } else {
            assert(pass_leaves(passes[n - 1], under).count(leaf) > 0);
            match passes[n - 1] {
                PassTree::Pass(info) => {
                    assert(leaf == Leaf { under, pass: info });
                    assert(passes.take(n)[n - 1] == PassTree::Pass(leaf.pass));
                },
                PassTree::Adaptor(pms) => {
                    nested_leaves_are_deeper(pms, pms.len() as int, under, leaf);
                },
            }
        }
    }
}

proof fn own_pass_is_a_leaf(
    passes: Seq<PassTree>,
    n: int,
    under: Seq<Option<OperationName>>,
    i: int,
    pass: PassInfo,
)
    requires
        0 <= i < n <= passes.len(),
        passes[i] == PassTree::Pass(pass),
    ensures
        passes_leaves(passes, n, under).count(Leaf { under, pass }) > 0,
    decreases n,
{
    if i < n - 1 {
        own_pass_is_a_leaf(passes, n - 1, under, i, pass);
    } else {
        assert(pass_leaves(passes[i], under).count(Leaf { under, pass }) == 1);
    }
}

/// A pass of a pass manager whose list of passes is finalized, and whose passes then run to the
/// end on an operation, is run on that operation, and succeeds.
pub proof fn every_own_pass_runs(
    manager: ManagerTree,
    i: int,
    parent: Option<PassTree>,
    op: OpRef,
    settings: Settings,
    log: Seq<Event>,
    at: int,
)
    requires
        0 <= i < manager.passes.len(),
        manager.passes[i] is Pass,
        finalize::finalized(manager, settings.isolated) matches Some(after) && (run::pipeline_run(
            after,
            parent,
            op,
            settings,
            log,
            at,
        ) matches Some((_, Ok(_)))),
    ensures
        manager.passes[i] matches PassTree::Pass(pass) ==> exists|k: int, outcome: PassOutcome|
            at <= k && outcome.succeeded && #[trigger] run::holds(
                log,
                k,
                Event::PassRan { pass, op, outcome },
            ),
{
    let after = finalize::finalized(manager, settings.isolated)->0;
    let n = after.passes.len() as int;
    let under = seq![manager.name];
    if let PassTree::Pass(pass) = manager.passes[i] {
        finalizing_keeps_passes(manager, settings.isolated, Seq::empty());
        assert(Seq::<Option<OperationName>>::empty().push(manager.name) =~= under);
        own_pass_is_a_leaf(manager.passes, manager.passes.len() as int, under, i, pass);
        leaves_are_deep(after.passes, n, under, Leaf { under, pass });
        assert(after.passes.take(n) =~= after.passes);
        let j = choose|j: int| 0 <= j < n && after.passes[j] == PassTree::Pass(pass);
        let begin = if settings.verify {
            at + 2
        } else {
            at + 1
        };
        run::every_pass_ran(after.passes, 0, op, settings, log, begin, j);
    }
}

} // verus!
