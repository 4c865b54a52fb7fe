//! Directed graphs of operands, and their strongly connected components.
use vstd::prelude::*;
use crate::operands::operand_set::{self, Operand, OperandSet};

verus! {

/// An edge leads from item `i` of `p` to the next.
pub open spec fn is_step(edges: Set<(Operand, Operand)>, p: Seq<Operand>, i: int) -> bool {
    edges.contains((p[i], p[i + 1]))
}

/// Edges lead from each item of `p` to the next.
pub open spec fn is_path(edges: Set<(Operand, Operand)>, p: Seq<Operand>) -> bool {
    &&& p.len() > 0
    &&& forall|i: int| 0 <= i < p.len() - 1 ==> #[trigger] is_step(edges, p, i)
}

/// A path leads from `x` to `y`. Every node leads to itself.
pub open spec fn reach(edges: Set<(Operand, Operand)>, x: Operand, y: Operand) -> bool {
    exists|p: Seq<Operand>| #[trigger] is_path(edges, p) && p[0] == x && p.last() == y
}

/// `x` and `y` lead to each other.
pub open spec fn mutual(edges: Set<(Operand, Operand)>, x: Operand, y: Operand) -> bool {
    reach(edges, x, y) && reach(edges, y, x)
}

/// Every node leads to itself.
pub proof fn reach_self(edges: Set<(Operand, Operand)>, x: Operand)
    ensures
        reach(edges, x, x),
{
    assert(is_path(edges, seq![x]));
}

/// An edge is a path.
pub proof fn reach_edge(edges: Set<(Operand, Operand)>, x: Operand, y: Operand)
    requires
        edges.contains((x, y)),
    ensures
        reach(edges, x, y),
{
    let p = seq![x, y];
    assert(is_path(edges, p));
}

/// Paths can be joined.
pub proof fn reach_join(edges: Set<(Operand, Operand)>, x: Operand, y: Operand, z: Operand)
    requires
        reach(edges, x, y),
        reach(edges, y, z),
    ensures
        reach(edges, x, z),
{
    let p = choose|p: Seq<Operand>| #[trigger] is_path(edges, p) && p[0] == x && p.last() == y;
    let q = choose|q: Seq<Operand>| #[trigger] is_path(edges, q) && q[0] == y && q.last() == z;
    let r = p + q.drop_first();
    assert forall|i: int| 0 <= i < r.len() - 1 implies #[trigger] is_step(edges, r, i) by {
        if i < p.len() - 1 {
            assert(is_step(edges, p, i));
        } else {
            assert(is_step(edges, q, i - (p.len() - 1)));
        }
    }
    assert(is_path(edges, r));
    if q.len() == 1 {
        assert(r.last() == p.last());
    }
}

/// A path that leaves a set has an edge that leaves it.
pub proof fn leaving_edge(
    edges: Set<(Operand, Operand)>,
    inside: Set<Operand>,
    x: Operand,
    y: Operand,
) -> (edge: (Operand, Operand))
    requires
        reach(edges, x, y),
        inside.contains(x),
        !inside.contains(y),
    ensures
        edges.contains(edge),
        inside.contains(edge.0),
        !inside.contains(edge.1),
        reach(edges, x, edge.0),
        reach(edges, edge.1, y),
{
    let p = choose|p: Seq<Operand>| #[trigger] is_path(edges, p) && p[0] == x && p.last() == y;
    leaving_edge_of(edges, inside, p)
}

proof fn leaving_edge_of(
    edges: Set<(Operand, Operand)>,
    inside: Set<Operand>,
    p: Seq<Operand>,
) -> (edge: (Operand, Operand))
    requires
        is_path(edges, p),
        inside.contains(p[0]),
        !inside.contains(p.last()),
    ensures
        edges.contains(edge),
        inside.contains(edge.0),
        !inside.contains(edge.1),
        reach(edges, p[0], edge.0),
        reach(edges, edge.1, p.last()),
    decreases p.len(),
{
    assert(p.len() > 1);
    assert(is_step(edges, p, 0));
    let q = p.drop_first();
    assert forall|i: int| 0 <= i < q.len() - 1 implies #[trigger] is_step(edges, q, i) by {
        assert(is_step(edges, p, i + 1));
    }
    assert(is_path(edges, q));
    if inside.contains(p[1]) {
        let edge = leaving_edge_of(edges, inside, q);
        reach_edge(edges, p[0], p[1]);
        reach_join(edges, p[0], p[1], edge.0);
        edge
    } else {
        reach_self(edges, p[0]);
        assert(reach(edges, p[1], p.last()));
        (p[0], p[1])
    }
}

/// The direction in which edges are followed.
#[derive(Clone, Copy, PartialEq, Eq, Debug, Structural)]
pub enum Direction {
    /// From a node to those that it points to.
    Outgoing,
    /// From a node to those that point to it.
    Incoming,
}

/// A directed graph of operands.
pub struct DiGraph {
    nodes: OperandSet,
    edges: Vec<(Operand, Operand)>,
}

impl DiGraph {
    /// The nodes of the graph.
    pub closed spec fn node_set(&self) -> Set<Operand> {
        self.nodes@
    }

    /// The edges of the graph.
    pub closed spec fn edge_set(&self) -> Set<(Operand, Operand)> {
        self.edges@.to_set()
    }

    /// Edges lead from node to node, and no edge is held twice.
    pub closed spec fn wf(&self) -> bool {
        &&& self.nodes.wf()
        &&& self.edges@.no_duplicates()
        &&& forall|i: int|
            0 <= i < self.edges@.len() ==> self.nodes@.contains((#[trigger] self.edges@[i]).0)
                && self.nodes@.contains(self.edges@[i].1)
    }

    /// A graph without nodes.
    pub fn new() -> (graph: DiGraph)
        ensures
            graph.wf(),
            graph.node_set() == Set::<Operand>::empty(),
            graph.edge_set() == Set::<(Operand, Operand)>::empty(),
    {
        let graph = DiGraph { nodes: OperandSet::new(), edges: Vec::new() };
        assert(graph.edge_set() == Set::<(Operand, Operand)>::empty());
        graph
    }

    /// Adds `node` to the graph, unless it is there, and returns it.
    pub fn add_node(&mut self, node: Operand) -> (added: Operand)
        requires
            old(self).wf(),
        ensures
            final(self).wf(),
            added == node,
            final(self).node_set() == old(self).node_set().insert(node),
            final(self).edge_set() == old(self).edge_set(),
    {
        let _ = self.nodes.insert(node);
        node
    }

    fn has_edge(&self, from: Operand, to: Operand) -> (b: bool)
        ensures
            b == self.edge_set().contains((from, to)),
    {
        let mut i: usize = 0;
        while i < self.edges.len()
            invariant
                i <= self.edges@.len(),
                forall|j: int| 0 <= j < i ==> self.edges@[j] != (from, to),
            decreases self.edges@.len() - i,
        {
            if self.edges[i].0 == from && self.edges[i].1 == to {
                assert(self.edges@[i as int] == (from, to));
                return true;
            }
            i = i + 1;
        }
        false
    }

    /// Adds an edge from `from` to `to`, unless it is there. Both become nodes of the graph.
    pub fn add_edge(&mut self, from: Operand, to: Operand)
        requires
            old(self).wf(),
        ensures
            final(self).wf(),
            final(self).node_set() == old(self).node_set().insert(from).insert(to),
            final(self).edge_set() == old(self).edge_set().insert((from, to)),
    {
        let known = self.has_edge(from, to);
        let _ = self.nodes.insert(from);
        let _ = self.nodes.insert(to);
        if !known {
            let ghost before = self.edges@;
            self.edges.push((from, to));
            proof {
                assert forall|e: (Operand, Operand)| self.edges@.contains(e) == (before.contains(e)
                    || e == (from, to)) by {
                    if before.contains(e) {
                        let j = choose|j: int| 0 <= j < before.len() && before[j] == e;
                        assert(self.edges@[j] == e);
                    }
                    assert(self.edges@[before.len() as int] == (from, to));
                }
            }
        }
        assert(self.edge_set() == old(self).edge_set().insert((from, to)));
    }

    /// The neighbors of `node` in the given direction, in ascending order.
    pub fn neighbors(&self, node: Operand, direction: Direction) -> (found: Vec<Operand>)
        requires
            self.wf(),
        ensures
            forall|x: Operand| #[trigger] found@.contains(x) <==> self.adjacent(node, direction, x),
            forall|i: int, j: int| 0 <= i < j < found@.len() ==> found@[i].rank() < found@[j].rank(),
    {
        let mut found = OperandSet::new();
        let mut i: usize = 0;
        while i < self.edges.len()
            invariant
                i <= self.edges@.len(),
                found.wf(),
                forall|x: Operand| #[trigger] found@.contains(x) <==> exists|j: int|
                    0 <= j < i && (match direction {
                        Direction::Outgoing => #[trigger] self.edges@[j] == (node, x),
                        Direction::Incoming => self.edges@[j] == (x, node),
                    }),
            decreases self.edges@.len() - i,
        {
            let ghost before = found@;
            let edge = self.edges[i];
            match direction {
                Direction::Outgoing => {
                    if edge.0 == node {
                        let _ = found.insert(edge.1);
                    }
                },
                Direction::Incoming => {
                    if edge.1 == node {
                        let _ = found.insert(edge.0);
                    }
                },
            }
            proof {
                assert forall|x: Operand| #[trigger] found@.contains(x) implies exists|j: int|
                    0 <= j < i + 1 && (match direction {
                        Direction::Outgoing => #[trigger] self.edges@[j] == (node, x),
                        Direction::Incoming => self.edges@[j] == (x, node),
                    }) by {
                    if !before.contains(x) {
                        assert(self.edges@[i as int] == edge);
                    }
                }
            }
            i = i + 1;
        }
        proof {
            assert forall|x: Operand| #[trigger] found.list().contains(x) implies self.adjacent(
                node,
                direction,
                x,
            ) by {
                assert(found@.contains(x));
            }
            assert forall|x: Operand| self.adjacent(node, direction, x) implies #[trigger] found.list().contains(
                x,
            ) by {
                assert(found@.contains(x)) by {
                    let e = match direction {
                        Direction::Outgoing => (node, x),
                        Direction::Incoming => (x, node),
                    };
                    assert(self.edges@.contains(e));
                    let j = choose|j: int| 0 <= j < self.edges@.len() && self.edges@[j] == e;
                    assert(self.edges@[j] == e);
                }
            }
        }
        found.to_vec()
    }

    /// `x` is a neighbor of `node` in the given direction.
    pub open spec fn adjacent(&self, node: Operand, direction: Direction, x: Operand) -> bool {
        match direction {
            Direction::Outgoing => self.edge_set().contains((node, x)),
            Direction::Incoming => self.edge_set().contains((x, node)),
        }
    }

    /// The nodes of the graph, in ascending order.
    pub fn nodes(&self) -> (nodes: Vec<Operand>)
        requires
            self.wf(),
        ensures
            nodes@.to_set() == self.node_set(),
            forall|i: int, j: int| 0 <= i < j < nodes@.len() ==> nodes@[i].rank() < nodes@[j].rank(),
    {
        self.nodes.to_vec()
    }
}

/// The edges of a graph are between its nodes, of which it has finitely many.
pub proof fn edges_join_nodes(graph: DiGraph)
    requires
        graph.wf(),
    ensures
        graph.node_set().finite(),
        forall|x: Operand, y: Operand| #[trigger] graph.edge_set().contains((x, y))
            ==> graph.node_set().contains(x) && graph.node_set().contains(y),
{
    operand_set::set_list(graph.nodes);
    assert forall|x: Operand, y: Operand| #[trigger] graph.edge_set().contains((x, y)) implies graph.node_set().contains(
        x,
    ) && graph.node_set().contains(y) by {
        let i = choose|i: int| 0 <= i < graph.edges@.len() && graph.edges@[i] == (x, y);
        assert(graph.edges@[i] == (x, y));
    }
}

} // verus!
