//! Strongly connected components, by two depth-first searches.
use vstd::prelude::*;
use crate::operands::graph::{self, DiGraph, Direction};
use crate::operands::operand_set::{Operand, OperandSet};

verus! {

/// `x` has been entered by the search, but not left.
pub open spec fn open_node(visited: Set<Operand>, left: Seq<Operand>, x: Operand) -> bool {
    visited.contains(x) && !left.contains(x)
}

/// All that `x` leads to has been left.
pub open spec fn exhausted(edges: Set<(Operand, Operand)>, left: Seq<Operand>, x: Operand) -> bool {
    forall|y: Operand| #[trigger] graph::reach(edges, x, y) ==> left.contains(y)
}

/// Some open node and `x` lead to each other.
pub open spec fn has_open_mate(
    edges: Set<(Operand, Operand)>,
    visited: Set<Operand>,
    left: Seq<Operand>,
    x: Operand,
) -> bool {
    exists|z: Operand| open_node(visited, left, z) && #[trigger] graph::mutual(edges, z, x)
}

/// Some node that was left no earlier than the one at `j`, and `x`, lead to each other.
pub open spec fn has_late_mate(
    edges: Set<(Operand, Operand)>,
    left: Seq<Operand>,
    j: int,
    x: Operand,
) -> bool {
    exists|i: int| j <= i < left.len() && graph::mutual(edges, #[trigger] left[i], x)
}

/// What holds throughout the first search, where `left` are the nodes in the order in which they
/// were left.
pub open spec fn search_state(
    edges: Set<(Operand, Operand)>,
    visited: Set<Operand>,
    left: Seq<Operand>,
) -> bool {
    &&& left.no_duplicates()
    &&& forall|x: Operand| #[trigger] left.contains(x) ==> visited.contains(x)
    &&& forall|x: Operand, y: Operand|
        left.contains(x) && #[trigger] edges.contains((x, y)) ==> visited.contains(y)
    &&& forall|x: Operand| #[trigger]
        left.contains(x) ==> exhausted(edges, left, x) || has_open_mate(edges, visited, left, x)
    &&& forall|x: Operand, j: int|
        left.contains(x) && 0 <= j < left.len() && #[trigger] graph::reach(edges, x, left[j])
            ==> has_late_mate(edges, left, j, x) || has_open_mate(edges, visited, left, x)
}

proof fn enter(
    edges: Set<(Operand, Operand)>,
    visited: Set<Operand>,
    left: Seq<Operand>,
    n: Operand,
)
    requires
        search_state(edges, visited, left),
        !visited.contains(n),
    ensures
        search_state(edges, visited.insert(n), left),
        forall|z: Operand|
            open_node(visited.insert(n), left, z) <==> open_node(visited, left, z) || z == n,
{
    let after = visited.insert(n);
    assert(!left.contains(n));
    assert forall|x: Operand| has_open_mate(edges, visited, left, x) implies has_open_mate(
        edges,
        after,
        left,
        x,
    ) by {
        let z = choose|z: Operand|
            open_node(visited, left, z) && #[trigger] graph::mutual(edges, z, x);
        assert(open_node(after, left, z) && graph::mutual(edges, z, x));
    }
}

proof fn leave(
    edges: Set<(Operand, Operand)>,
    visited: Set<Operand>,
    left: Seq<Operand>,
    n: Operand,
)
    requires
        search_state(edges, visited, left),
        open_node(visited, left, n),
        forall|y: Operand| #[trigger] edges.contains((n, y)) ==> visited.contains(y),
        forall|z: Operand| open_node(visited, left, z) ==> #[trigger] graph::reach(edges, z, n),
    ensures
        search_state(edges, visited, left.push(n)),
        forall|z: Operand|
            open_node(visited, left.push(n), z) <==> open_node(visited, left, z) && z != n,
{
    let after = left.push(n);
    assert forall|x: Operand| #[trigger] after.contains(x) <==> left.contains(x) || x == n by {
        if left.contains(x) {
            let i = choose|i: int| 0 <= i < left.len() && left[i] == x;
            assert(after[i] == x);
        }
        assert(after[left.len() as int] == n);
    }
    graph::reach_self(edges, n);
    // The node itself: unless all that it leads to has been left, it leads to an open node.
    assert(exhausted(edges, after, n) || has_open_mate(edges, visited, after, n)) by {
        if !exhausted(edges, after, n) {
            let w = choose|w: Operand| #[trigger]
                graph::reach(edges, n, w) && !after.contains(w);
            let inside = after.to_set();
            let edge = graph::leaving_edge(edges, inside, n, w);
            let (a, b) = edge;
            assert(after.contains(a));
            assert(visited.contains(b));
            assert(open_node(visited, left, b));
            graph::reach_edge(edges, a, b);
            graph::reach_join(edges, n, a, b);
            assert(open_node(visited, after, b) && graph::mutual(edges, b, n));
        }
    }
    assert forall|x: Operand| #[trigger] after.contains(x) implies exhausted(edges, after, x)
        || has_open_mate(edges, visited, after, x) by {
        if x != n {
            if exhausted(edges, left, x) {
                assert(exhausted(edges, after, x));
            } else {
                let z = choose|z: Operand|
                    open_node(visited, left, z) && #[trigger] graph::mutual(edges, z, x);
                if z != n {
                    assert(open_node(visited, after, z) && graph::mutual(edges, z, x));
                } else {
                    mates_share(edges, visited, after, n, x);
                }
            }
        }
    }
    assert forall|x: Operand, j: int|
        after.contains(x) && 0 <= j < after.len() && #[trigger] graph::reach(
            edges,
            x,
            after[j],
        ) implies has_late_mate(edges, after, j, x) || has_open_mate(edges, visited, after, x) by {
        let last = left.len() as int;
        assert(after[last] == n);
        if x == n {
            assert(graph::mutual(edges, after[last], x));
        } else if j == last {
            assert(!exhausted(edges, left, x));
            let z = choose|z: Operand|
                open_node(visited, left, z) && #[trigger] graph::mutual(edges, z, x);
            if z == n {
                assert(graph::mutual(edges, after[last], x));
            } else {
                assert(open_node(visited, after, z) && graph::mutual(edges, z, x));
            }
        } else {
            assert(after[j] == left[j]);
            assert(graph::reach(edges, x, left[j]));
            if has_late_mate(edges, left, j, x) {
                let i = choose|i: int|
                    j <= i < left.len() && graph::mutual(edges, #[trigger] left[i], x);
                assert(after[i] == left[i]);
                assert(graph::mutual(edges, after[i], x));
            } else {
                let z = choose|z: Operand|
                    open_node(visited, left, z) && #[trigger] graph::mutual(edges, z, x);
                if z == n {
                    assert(graph::mutual(edges, after[last], x));
                } else {
                    assert(open_node(visited, after, z) && graph::mutual(edges, z, x));
                }
            }
        }
    }
}

proof fn mates_share(
    edges: Set<(Operand, Operand)>,
    visited: Set<Operand>,
    left: Seq<Operand>,
    n: Operand,
    x: Operand,
)
    requires
        graph::mutual(edges, n, x),
        exhausted(edges, left, n) || has_open_mate(edges, visited, left, n),
    ensures
        exhausted(edges, left, x) || has_open_mate(edges, visited, left, x),
{
    if exhausted(edges, left, n) {
        assert forall|y: Operand| #[trigger] graph::reach(edges, x, y) implies left.contains(y) by {
            graph::reach_join(edges, n, x, y);
        }
    } else {
        let z = choose|z: Operand|
            open_node(visited, left, z) && #[trigger] graph::mutual(edges, z, n);
        graph::reach_join(edges, z, n, x);
        graph::reach_join(edges, x, n, z);
        assert(open_node(visited, left, z) && graph::mutual(edges, z, x));
    }
}

/// The nodes that have not been visited become fewer.
proof fn fewer_left(nodes: Set<Operand>, before: Set<Operand>, after: Set<Operand>, n: Operand)
    requires
        nodes.finite(),
        nodes.contains(n),
        !before.contains(n),
        before.subset_of(after),
        after.contains(n),
    ensures
        nodes.difference(after).len() < nodes.difference(before).len(),
{
    let a = nodes.difference(before);
    let b = nodes.difference(after);
    assert(b.subset_of(a.remove(n)));
    vstd::set_lib::lemma_len_subset(b, a.remove(n));
}

/// Visits what `node` leads to, and records the nodes in the order in which they are left.
pub fn dfs_finish_order(
    graph: &DiGraph,
    node: Operand,
    visited: &mut OperandSet,
    finish_order: &mut Vec<Operand>,
)
    requires
        graph.wf(),
        old(visited).wf(),
        graph.node_set().contains(node),
        !old(visited)@.contains(node),
        old(visited)@.subset_of(graph.node_set()),
        search_state(graph.edge_set(), old(visited)@, old(finish_order)@),
        forall|z: Operand|
            open_node(old(visited)@, old(finish_order)@, z) ==> #[trigger] graph::reach(
                graph.edge_set(),
                z,
                node,
            ),
    ensures
        final(visited).wf(),
        final(visited)@.subset_of(graph.node_set()),
        old(visited)@.subset_of(final(visited)@),
        final(visited)@.contains(node),
        search_state(graph.edge_set(), final(visited)@, final(finish_order)@),
        forall|z: Operand|
            open_node(final(visited)@, final(finish_order)@, z) <==> open_node(
                old(visited)@,
                old(finish_order)@,
                z,
            ),
    decreases graph.node_set().difference(old(visited)@).len(),
{
    let ghost edges = graph.edge_set();
    proof {
        graph::edges_join_nodes(*graph);
        enter(edges, visited@, finish_order@, node);
    }
    let _ = visited.insert(node);
    let neighbors = graph.neighbors(node, Direction::Outgoing);
    let mut i: usize = 0;
    proof {
        graph::reach_self(edges, node);
        fewer_left(graph.node_set(), old(visited)@, visited@, node);
    }
    while i < neighbors.len()
        invariant
            i <= neighbors@.len(),
            graph.wf(),
            edges == graph.edge_set(),
            graph.node_set().finite(),
            graph.node_set().contains(node),
            forall|x: Operand, y: Operand| #[trigger] edges.contains((x, y))
                ==> graph.node_set().contains(x) && graph.node_set().contains(y),
            forall|x: Operand| #[trigger] neighbors@.contains(x) <==> edges.contains((node, x)),
            visited.wf(),
            visited@.subset_of(graph.node_set()),
            !old(visited)@.contains(node),
            old(visited)@.subset_of(visited@),
            visited@.contains(node),
            graph.node_set().difference(visited@).len() < graph.node_set().difference(
                old(visited)@,
            ).len(),
            search_state(edges, visited@, finish_order@),
            forall|z: Operand|
                open_node(visited@, finish_order@, z) <==> open_node(
                    old(visited)@,
                    old(finish_order)@,
                    z,
                ) || z == node,
            forall|z: Operand|
                open_node(visited@, finish_order@, z) ==> #[trigger] graph::reach(edges, z, node),
            forall|j: int| 0 <= j < i ==> visited@.contains(#[trigger] neighbors@[j]),
        decreases neighbors@.len() - i,
    {
        let neighbor = neighbors[i];
        assert(neighbors@.contains(neighbor));
        if !visited.contains(neighbor) {
            proof {
                graph::reach_edge(edges, node, neighbor);
                assert forall|z: Operand|
                    open_node(visited@, finish_order@, z) implies #[trigger] graph::reach(
                    edges,
                    z,
                    neighbor,
                ) by {
                    assert(graph::reach(edges, z, node));
                    graph::reach_join(edges, z, node, neighbor);
                }
            }
            let ghost before = visited@;
            let ghost order = finish_order@;
            dfs_finish_order(graph, neighbor, visited, finish_order);
            proof {
                fewer_left(graph.node_set(), before, visited@, neighbor);
                assert forall|z: Operand|
                    open_node(visited@, finish_order@, z) implies #[trigger] graph::reach(
                    edges,
                    z,
                    node,
                ) by {
                    assert(open_node(before, order, z));
                    assert(graph::reach(edges, z, node));
                }
            }
        }
        i = i + 1;
    }
    proof {
        assert forall|y: Operand| #[trigger] edges.contains((node, y)) implies visited@.contains(y) by {
            assert(neighbors@.contains(y));
            let j = choose|j: int| 0 <= j < neighbors@.len() && neighbors@[j] == y;
            assert(visited@.contains(neighbors@[j]));
        }
        assert(open_node(visited@, finish_order@, node));
        leave(edges, visited@, finish_order@, node);
    }
    finish_order.push(node);
    assert(!open_node(old(visited)@, old(finish_order)@, node));
}

/// `component` was grown by exactly what became visited.
pub open spec fn grown(
    before: Set<Operand>,
    after: Set<Operand>,
    component: Seq<Operand>,
    component_after: Seq<Operand>,
) -> bool {
    let added = component_after.skip(component.len() as int);
    &&& component.len() <= component_after.len()
    &&& component_after.take(component.len() as int) == component
    &&& before.subset_of(after)
    &&& added.no_duplicates()
    &&& forall|x: Operand| #[trigger]
        added.contains(x) <==> after.contains(x) && !before.contains(x)
}

proof fn grown_twice(
    v0: Set<Operand>,
    v1: Set<Operand>,
    v2: Set<Operand>,
    c0: Seq<Operand>,
    c1: Seq<Operand>,
    c2: Seq<Operand>,
)
    requires
        grown(v0, v1, c0, c1),
        grown(v1, v2, c1, c2),
    ensures
        grown(v0, v2, c0, c2),
{
    let a = c1.skip(c0.len() as int);
    let b = c2.skip(c1.len() as int);
    let ab = c2.skip(c0.len() as int);
    assert(c2.take(c0.len() as int) == c2.take(c1.len() as int).take(c0.len() as int));
    assert(c2 == c2.take(c1.len() as int) + b);
    assert(ab == a + b);
    assert forall|x: Operand| #[trigger] ab.contains(x) <==> a.contains(x) || b.contains(x) by {
        if a.contains(x) {
            let i = choose|i: int| 0 <= i < a.len() && a[i] == x;
            assert(ab[i] == x);
        }
        if b.contains(x) {
            let i = choose|i: int| 0 <= i < b.len() && b[i] == x;
            assert(ab[a.len() + i] == x);
        }
    }
    assert forall|i: int, j: int| 0 <= i < ab.len() && 0 <= j < ab.len() && i != j implies ab[i]
        != ab[j] by {
        if i < a.len() && j >= a.len() {
            assert(a.contains(a[i]));
            assert(b.contains(b[j - a.len()]));
        } else if j < a.len() && i >= a.len() {
            assert(a.contains(a[j]));
            assert(b.contains(b[i - a.len()]));
        }
    }
}

/// Collects the nodes that lead to `node` and have not been visited.
pub fn dfs_component(
    graph: &DiGraph,
    node: Operand,
    visited: &mut OperandSet,
    component: &mut Vec<Operand>,
)
    requires
        graph.wf(),
        old(visited).wf(),
        graph.node_set().contains(node),
        !old(visited)@.contains(node),
        old(visited)@.subset_of(graph.node_set()),
    ensures
        final(visited).wf(),
        final(visited)@.subset_of(graph.node_set()),
        final(visited)@.contains(node),
        grown(old(visited)@, final(visited)@, old(component)@, final(component)@),
        final(component)@.len() > old(component)@.len(),
        final(component)@[old(component)@.len() as int] == node,
        forall|y: Operand| #[trigger]
            final(visited)@.contains(y) && !old(visited)@.contains(y) ==> graph::reach(
                graph.edge_set(),
                y,
                node,
            ),
        forall|x: Operand, y: Operand|
            final(visited)@.contains(y) && !old(visited)@.contains(y)
                && #[trigger] graph.edge_set().contains((x, y)) ==> final(visited)@.contains(x),
    decreases graph.node_set().difference(old(visited)@).len(),
{
    let ghost edges = graph.edge_set();
    let ghost v0 = visited@;
    let ghost c0 = component@;
    let _ = visited.insert(node);
    component.push(node);
    let neighbors = graph.neighbors(node, Direction::Incoming);
    let mut i: usize = 0;
    proof {
        graph::edges_join_nodes(*graph);
        graph::reach_self(edges, node);
        fewer_left(graph.node_set(), v0, visited@, node);
        assert(component@.take(c0.len() as int) == c0);
        assert(component@.skip(c0.len() as int) == seq![node]);
        assert(seq![node][0] == node);
        assert(grown(v0, visited@, c0, component@));
    }
    while i < neighbors.len()
        invariant
            i <= neighbors@.len(),
            graph.wf(),
            edges == graph.edge_set(),
            v0 == old(visited)@,
            c0 == old(component)@,
            graph.node_set().finite(),
            graph.node_set().contains(node),
            forall|x: Operand, y: Operand| #[trigger] edges.contains((x, y))
                ==> graph.node_set().contains(x) && graph.node_set().contains(y),
            forall|x: Operand| #[trigger] neighbors@.contains(x) <==> edges.contains((x, node)),
            visited.wf(),
            visited@.subset_of(graph.node_set()),
            !v0.contains(node),
            visited@.contains(node),
            graph.node_set().difference(visited@).len() < graph.node_set().difference(v0).len(),
            grown(v0, visited@, c0, component@),
            component@.len() > c0.len(),
            component@[c0.len() as int] == node,
            forall|y: Operand| #[trigger]
                visited@.contains(y) && !v0.contains(y) ==> graph::reach(edges, y, node),
            forall|x: Operand, y: Operand|
                visited@.contains(y) && !v0.contains(y) && y != node
                    && #[trigger] edges.contains((x, y)) ==> visited@.contains(x),
            forall|j: int| 0 <= j < i ==> visited@.contains(#[trigger] neighbors@[j]),
        decreases neighbors@.len() - i,
    {
        let neighbor = neighbors[i];
        assert(neighbors@.contains(neighbor));
        if !visited.contains(neighbor) {
            let ghost v1 = visited@;
            let ghost c1 = component@;
            dfs_component(graph, neighbor, visited, component);
            proof {
                fewer_left(graph.node_set(), v1, visited@, neighbor);
                grown_twice(v0, v1, visited@, c0, c1, component@);
                assert(component@.take(c1.len() as int)[c0.len() as int] == node);
                graph::reach_edge(edges, neighbor, node);
                assert forall|y: Operand| #[trigger]
                    visited@.contains(y) && !v0.contains(y) implies graph::reach(
                    edges,
                    y,
                    node,
                ) by {
                    if !v1.contains(y) {
                        graph::reach_join(edges, y, neighbor, node);
                    }
                }
                assert forall|x: Operand, y: Operand|
                    visited@.contains(y) && !v0.contains(y) && y != node
                        && #[trigger] edges.contains((x, y)) implies visited@.contains(x) by {
                    if v1.contains(y) {
                        assert(v1.contains(x));
                    }
                }
            }
        }
        i = i + 1;
    }
    proof {
        assert forall|x: Operand, y: Operand|
            visited@.contains(y) && !v0.contains(y)
                && #[trigger] edges.contains((x, y)) implies visited@.contains(x) by {
            if y == node {
                assert(neighbors@.contains(x));
                let j = choose|j: int| 0 <= j < neighbors@.len() && neighbors@[j] == x;
                assert(visited@.contains(neighbors@[j]));
            }
        }
    }
}

/// `components` are classes of nodes that lead to each other, without repetition.
pub open spec fn are_classes(
    edges: Set<(Operand, Operand)>,
    components: Seq<Vec<Operand>>,
) -> bool {
    &&& forall|i: int|
        0 <= i < components.len() ==> (#[trigger] components[i])@.len() > 0
            && components[i]@.no_duplicates()
    &&& forall|i: int, j: int, x: Operand, y: Operand|
        0 <= i < components.len() && 0 <= j < components.len() && #[trigger] components[i]@.contains(
            x,
        ) && #[trigger] components[j]@.contains(y) ==> (graph::mutual(edges, x, y) <==> i == j)
}

/// `x` is in one of the components.
pub open spec fn covered(components: Seq<Vec<Operand>>, x: Operand) -> bool {
    exists|i: int| 0 <= i < components.len() && #[trigger] components[i]@.contains(x)
}

/// No component leads to an earlier one.
pub open spec fn leads_forward(
    edges: Set<(Operand, Operand)>,
    components: Seq<Vec<Operand>>,
) -> bool {
    forall|i: int, j: int, x: Operand, y: Operand|
        0 <= i < components.len() && 0 <= j < components.len() && #[trigger] components[i]@.contains(
            x,
        ) && #[trigger] components[j]@.contains(y) && graph::reach(edges, x, y) ==> i <= j
}

/// No component leads to a later one: the components are in reverse topological order.
pub open spec fn leads_backward(
    edges: Set<(Operand, Operand)>,
    components: Seq<Vec<Operand>>,
) -> bool {
    forall|i: int, j: int, x: Operand, y: Operand|
        0 <= i < components.len() && 0 <= j < components.len() && #[trigger] components[i]@.contains(
            x,
        ) && #[trigger] components[j]@.contains(y) && graph::reach(edges, x, y) ==> j <= i
}

/// From each node, the nodes that it leads to are left no later than some node of its class.
#[verifier::opaque]
pub open spec fn late_mates(edges: Set<(Operand, Operand)>, order: Seq<Operand>) -> bool {
    forall|x: Operand, j: int|
        order.contains(x) && 0 <= j < order.len() && #[trigger] graph::reach(edges, x, order[j])
            ==> has_late_mate(edges, order, j, x)
}

proof fn late_mate(edges: Set<(Operand, Operand)>, order: Seq<Operand>, x: Operand, j: int)
    requires
        late_mates(edges, order),
        order.contains(x),
        0 <= j < order.len(),
        graph::reach(edges, x, order[j]),
    ensures
        has_late_mate(edges, order, j, x),
{
    reveal(late_mates);
}

proof fn search_is_over(
    edges: Set<(Operand, Operand)>,
    visited: Set<Operand>,
    order: Seq<Operand>,
)
    requires
        search_state(edges, visited, order),
        forall|z: Operand| !open_node(visited, order, z),
    ensures
        late_mates(edges, order),
{
    reveal(late_mates);
}

/// Whatever leads to a visited node has been visited.
pub open spec fn closed_above(edges: Set<(Operand, Operand)>, visited: Set<Operand>) -> bool {
    forall|x: Operand, y: Operand|
        visited.contains(y) && #[trigger] graph::reach(edges, x, y) ==> visited.contains(x)
}

/// The nodes that the second search collects from `root` are those that `root` leads to and that
/// lead to `root`.
proof fn collected_class(
    edges: Set<(Operand, Operand)>,
    order: Seq<Operand>,
    k: int,
    before: Set<Operand>,
    after: Set<Operand>,
)
    requires
        0 <= k < order.len(),
        late_mates(edges, order),
        forall|x: Operand| #[trigger] after.contains(x) ==> order.contains(x),
        forall|x: Operand, j: int|
            0 <= j < order.len() && #[trigger] graph::reach(edges, x, order[j]) ==> order.contains(x),
        forall|i: int| k < i < order.len() ==> before.contains(#[trigger] order[i]),
        closed_above(edges, before),
        !before.contains(order[k]),
        after.contains(order[k]),
        before.subset_of(after),
        forall|y: Operand| #[trigger]
            after.contains(y) && !before.contains(y) ==> graph::reach(edges, y, order[k]),
        forall|x: Operand, y: Operand|
            after.contains(y) && !before.contains(y) && #[trigger] edges.contains((x, y))
                ==> after.contains(x),
    ensures
        closed_above(edges, after),
        forall|y: Operand|
            after.contains(y) && !before.contains(y) <==> #[trigger] graph::mutual(
                edges,
                y,
                order[k],
            ),
{
    let root = order[k];
    graph::reach_self(edges, root);
    // Whatever leads to the root was visited before, or the root leads back to it.
    assert forall|y: Operand| #[trigger] graph::reach(edges, y, root) && !before.contains(y) implies graph::mutual(
        edges,
        y,
        root,
    ) by {
        late_mate(edges, order, y, k);
        let i = choose|i: int| k <= i < order.len() && graph::mutual(edges, #[trigger] order[i], y);
        if i > k {
            assert(before.contains(order[i]));
            assert(graph::reach(edges, y, order[i]));
        }
    }
    // Whatever leads to the root is visited now.
    assert forall|y: Operand| #[trigger] graph::reach(edges, y, root) implies after.contains(y) by {
        if !after.contains(y) {
            let outside = Set::new(|z: Operand| !after.contains(z));
            let (a, b) = graph::leaving_edge(edges, outside, y, root);
            if before.contains(b) {
                graph::reach_edge(edges, a, b);
                assert(before.contains(a));
            }
        }
    }
    assert forall|y: Operand|
        after.contains(y) && !before.contains(y) <==> #[trigger] graph::mutual(edges, y, root) by {
        if graph::mutual(edges, y, root) {
            assert(graph::reach(edges, y, root));
            if before.contains(y) {
                assert(graph::reach(edges, root, y));
                assert(before.contains(root));
            }
        }
        if after.contains(y) && !before.contains(y) {
            assert(graph::reach(edges, y, root));
        }
    }
    assert forall|x: Operand, y: Operand|
        after.contains(y) && #[trigger] graph::reach(edges, x, y) implies after.contains(x) by {
        if !before.contains(y) {
            graph::reach_join(edges, x, y, root);
        }
    }
}

/// One more class keeps the classes apart and in order.
proof fn add_class(
    edges: Set<(Operand, Operand)>,
    classes: Seq<Vec<Operand>>,
    component: Vec<Operand>,
    root: Operand,
    before: Set<Operand>,
    after: Seq<Vec<Operand>>,
)
    requires
        after == classes.push(component),
        are_classes(edges, classes),
        leads_forward(edges, classes),
        closed_above(edges, before),
        forall|x: Operand| #[trigger] before.contains(x) <==> covered(classes, x),
        component@.len() > 0,
        component@.no_duplicates(),
        forall|x: Operand| #[trigger]
            component@.contains(x) <==> graph::mutual(edges, x, root),
        forall|x: Operand| #[trigger] component@.contains(x) ==> !before.contains(x),
    ensures
        are_classes(edges, after),
        leads_forward(edges, after),
{
    let last = classes.len() as int;
    assert(after[last] == component);
    assert forall|i: int, x: Operand|
        0 <= i < last && #[trigger] after[i]@.contains(x) implies before.contains(x) by {
        assert(classes[i]@.contains(x));
        assert(covered(classes, x));
    }
    assert forall|i: int| 0 <= i < after.len() implies (#[trigger] after[i])@.len() > 0
        && after[i]@.no_duplicates() by {
        if i < last {
            assert(after[i] == classes[i]);
        }
    }
    assert forall|i: int, j: int, x: Operand, y: Operand|
        0 <= i < after.len() && 0 <= j < after.len() && #[trigger] after[i]@.contains(x)
            && #[trigger] after[j]@.contains(y) implies (graph::mutual(edges, x, y) <==> i == j) by {
        if i < last && j < last {
            assert(classes[i]@.contains(x) && classes[j]@.contains(y));
        } else if i == last && j == last {
            graph::reach_join(edges, x, root, y);
            graph::reach_join(edges, y, root, x);
        } else if i == last {
            assert(component@.contains(x));
            assert(before.contains(y));
            if graph::mutual(edges, x, y) {
                assert(graph::reach(edges, x, y));
            }
        } else {
            assert(component@.contains(y));
            assert(before.contains(x));
            if graph::mutual(edges, x, y) {
                assert(graph::reach(edges, y, x));
            }
        }
    }
    assert forall|i: int, j: int, x: Operand, y: Operand|
        0 <= i < after.len() && 0 <= j < after.len() && #[trigger] after[i]@.contains(x)
            && #[trigger] after[j]@.contains(y) && graph::reach(edges, x, y) implies i <= j by {
        if i < last && j < last {
            assert(classes[i]@.contains(x) && classes[j]@.contains(y));
        } else if i == last && j < last {
            assert(before.contains(y));
            assert(component@.contains(x));
        }
    }
}

fn reversed(components: Vec<Vec<Operand>>) -> (out: Vec<Vec<Operand>>)
    ensures
        out@ == components@.reverse(),
{
    let ghost all = components@;
    let mut components = components;
    let mut out: Vec<Vec<Operand>> = Vec::new();
    while components.len() > 0
        invariant
            components@.len() <= all.len(),
            components@ == all.take(components@.len() as int),
            out@ == all.reverse().take(all.len() - components@.len()),
        decreases components@.len(),
    {
        let ghost before = components@;
        let component = components.pop().unwrap();
        assert(component == all[before.len() - 1]);
        out.push(component);
        assert(out@ == all.reverse().take(all.len() - components@.len()));
    }
    assert(all.reverse().take(all.len() as int) == all.reverse());
    out
}

/// The strongly connected components of `graph`, in reverse topological order.
pub fn kosaraju_scc(graph: &DiGraph) -> (components: Vec<Vec<Operand>>)
    requires
        graph.wf(),
    ensures
        are_classes(graph.edge_set(), components@),
        forall|x: Operand| #[trigger] graph.node_set().contains(x) <==> covered(components@, x),
        leads_backward(graph.edge_set(), components@),
{
    let ghost edges = graph.edge_set();
    let mut visited = OperandSet::new();
    let mut finish_order: Vec<Operand> = Vec::new();
    let nodes = graph.nodes();
    let mut i: usize = 0;
    proof {
        graph::edges_join_nodes(*graph);
    }
    while i < nodes.len()
        invariant
            i <= nodes@.len(),
            graph.wf(),
            edges == graph.edge_set(),
            nodes@.to_set() == graph.node_set(),
            visited.wf(),
            visited@.subset_of(graph.node_set()),
            search_state(edges, visited@, finish_order@),
            forall|z: Operand| !open_node(visited@, finish_order@, z),
            forall|j: int| 0 <= j < i ==> visited@.contains(#[trigger] nodes@[j]),
        decreases nodes@.len() - i,
    {
        let node = nodes[i];
        assert(nodes@.to_set().contains(node));
        if !visited.contains(node) {
            dfs_finish_order(graph, node, &mut visited, &mut finish_order);
        }
        i = i + 1;
    }
    let ghost order = finish_order@;
    proof {
        assert forall|x: Operand| #[trigger] graph.node_set().contains(x) <==> order.contains(x) by {
            if graph.node_set().contains(x) {
                assert(nodes@.to_set().contains(x));
                let j = choose|j: int| 0 <= j < nodes@.len() && nodes@[j] == x;
                assert(visited@.contains(nodes@[j]));
                assert(!open_node(visited@, order, x));
            }
        }
        search_is_over(edges, visited@, order);
        assert forall|x: Operand, j: int|
            0 <= j < order.len() && #[trigger] graph::reach(edges, x, order[j]) implies order.contains(
            x,
        ) by {
            assert(order.contains(order[j]));
            if !graph.node_set().contains(x) {
                let outside = Set::new(|z: Operand| !graph.node_set().contains(z));
                let (a, b) = graph::leaving_edge(edges, outside, x, order[j]);
                assert(false);
            }
        }
    }
    let mut visited = OperandSet::new();
    let mut components: Vec<Vec<Operand>> = Vec::new();
    let mut k: usize = finish_order.len();
    while k > 0
        invariant
            k <= order.len(),
            order == finish_order@,
            graph.wf(),
            edges == graph.edge_set(),
            forall|x: Operand| #[trigger] graph.node_set().contains(x) <==> order.contains(x),
            late_mates(edges, order),
            forall|x: Operand, j: int|
                0 <= j < order.len() && #[trigger] graph::reach(edges, x, order[j])
                    ==> order.contains(x),
            visited.wf(),
            visited@.subset_of(graph.node_set()),
            closed_above(edges, visited@),
            forall|j: int| k <= j < order.len() ==> visited@.contains(#[trigger] order[j]),
            are_classes(edges, components@),
            leads_forward(edges, components@),
            forall|x: Operand| #[trigger] visited@.contains(x) <==> covered(components@, x),
        decreases k,
    {
        k = k - 1;
        let node = finish_order[k];
        assert(order.contains(node));
        if !visited.contains(node) {
            let ghost before = visited@;
            let ghost classes = components@;
            let mut component: Vec<Operand> = Vec::new();
            dfs_component(graph, node, &mut visited, &mut component);
            proof {
                assert(component@.skip(0) == component@);
                collected_class(edges, order, k as int, before, visited@);
                assert forall|x: Operand| #[trigger] component@.contains(x) <==> graph::mutual(
                    edges,
                    x,
                    node,
                ) by {
                    assert(component@.contains(x) <==> visited@.contains(x) && !before.contains(x));
                }
            }
            components.push(component);
            proof {
                add_class(edges, classes, component, node, before, components@);
                assert forall|x: Operand| #[trigger] visited@.contains(x) <==> covered(
                    components@,
                    x,
                ) by {
                    if before.contains(x) {
                        let i = choose|i: int|
                            0 <= i < classes.len() && #[trigger] classes[i]@.contains(x);
                        assert(components@[i]@.contains(x));
                    } else if visited@.contains(x) {
                        assert(graph::mutual(edges, x, node));
                        assert(components@[classes.len() as int]@.contains(x));
                    }
                    if covered(components@, x) {
                        let i = choose|i: int|
                            0 <= i < components@.len() && #[trigger] components@[i]@.contains(x);
                        if i < classes.len() {
                            assert(classes[i]@.contains(x));
                            assert(before.contains(x));
                        } else {
                            assert(component@.contains(x));
                            assert(graph::mutual(edges, x, node));
                        }
                    }
                }
            }
        }
    }
    proof {
        assert forall|x: Operand| #[trigger] graph.node_set().contains(x) <==> covered(
            components@,
            x,
        ) by {
            if graph.node_set().contains(x) {
                let j = choose|j: int| 0 <= j < order.len() && order[j] == x;
                assert(visited@.contains(order[j]));
            }
            if covered(components@, x) {
                assert(visited@.contains(x));
            }
        }
    }
    let ghost forward = components@;
    let backward = reversed(components);
    proof {
        let n = forward.len();
        assert forall|i: int| 0 <= i < n implies #[trigger] backward@[i] == forward[n - 1 - i] by {}
        assert forall|x: Operand| #[trigger] graph.node_set().contains(x) <==> covered(
            backward@,
            x,
        ) by {
            if covered(forward, x) {
                let i = choose|i: int| 0 <= i < n && #[trigger] forward[i]@.contains(x);
                assert(backward@[n - 1 - i]@.contains(x));
            }
            if covered(backward@, x) {
                let i = choose|i: int| 0 <= i < n && #[trigger] backward@[i]@.contains(x);
                assert(forward[n - 1 - i]@.contains(x));
            }
        }
        assert forall|i: int, j: int, x: Operand, y: Operand|
            0 <= i < n && 0 <= j < n && #[trigger] backward@[i]@.contains(x)
                && #[trigger] backward@[j]@.contains(y) implies (graph::mutual(edges, x, y) <==> i
            == j) && (graph::reach(edges, x, y) ==> j <= i) by {
            assert(forward[n - 1 - i]@.contains(x));
            assert(forward[n - 1 - j]@.contains(y));
        }
    }
    backward
}

} // verus!
