//! A tactic that puts operands in place by following the cycles of the moves they need.
use vstd::prelude::*;
use crate::operands::graph::{self, DiGraph, Direction};
use crate::operands::operand_set::{Operand, ValueOrAlias};
use crate::operands::scc::{self, kosaraju_scc};
use crate::operands::solution::{self, SolutionBuilder};

verus! {

/// Why a tactic gave up.
#[derive(Clone, Copy, PartialEq, Eq, Debug, Structural)]
pub enum TacticError {
    NotApplicable,
}

/// The problem can be solved: no operand is on the stack or expected twice, and each expected
/// operand is on the stack, or is a copy of an operand that is.
pub open spec fn solvable(stack: Seq<ValueOrAlias>, goal: Seq<ValueOrAlias>) -> bool {
    &&& stack.no_duplicates()
    &&& goal.no_duplicates()
    &&& forall|j: int|
        0 <= j < goal.len() ==> stack.contains(#[trigger] goal[j]) || (goal[j].alias != 0
            && stack.contains(goal[j].original()))
}

/// The node of position `p`.
pub open spec fn node_at(stack: Seq<ValueOrAlias>, p: int) -> Operand {
    Operand { pos: p as u8, value: stack[p] }
}

/// `n` is the node of its position.
pub open spec fn is_node(stack: Seq<ValueOrAlias>, n: Operand) -> bool {
    n.pos < stack.len() && stack[n.pos as int] == n.value
}

/// The operand at position `p` is the one expected there.
pub open spec fn in_place(stack: Seq<ValueOrAlias>, goal: Seq<ValueOrAlias>, p: int) -> bool {
    p < goal.len() && stack[p] == goal[p]
}

/// No two edges share their start, and no two share their end.
pub open spec fn single_edges(edges: Set<(Operand, Operand)>) -> bool {
    &&& forall|a: Operand, b: Operand, c: Operand|
        #![trigger edges.contains((a, b)), edges.contains((a, c))]
        edges.contains((a, b)) && edges.contains((a, c)) ==> b == c
    &&& forall|a: Operand, b: Operand, c: Operand|
        #![trigger edges.contains((a, c)), edges.contains((b, c))]
        edges.contains((a, c)) && edges.contains((b, c)) ==> a == b
}

/// `a` has an edge.
pub open spec fn has_next(edges: Set<(Operand, Operand)>, a: Operand) -> bool {
    exists|b: Operand| edges.contains((a, b))
}

/// `b` has an edge that leads to it.
pub open spec fn has_previous(edges: Set<(Operand, Operand)>, b: Operand) -> bool {
    exists|a: Operand| edges.contains((a, b))
}

/// The graph holds the moves that the expected operands need, closed to cycles.
#[verifier::opaque]
pub open spec fn is_move_graph(
    stack: Seq<ValueOrAlias>,
    goal: Seq<ValueOrAlias>,
    nodes: Set<Operand>,
    edges: Set<(Operand, Operand)>,
) -> bool {
    &&& single_edges(edges)
    &&& forall|n: Operand| #[trigger]
        nodes.contains(n) ==> is_node(stack, n) && !in_place(stack, goal, n.pos as int)
            && has_next(edges, n)
    &&& forall|p: int, j: int|
        #![trigger stack[p], goal[j]]
        0 <= p < stack.len() && 0 <= j < goal.len() && stack[p] == goal[j] && p != j
            ==> edges.contains((node_at(stack, p), node_at(stack, j)))
}

/// The tactic.
pub struct Linear;

impl Linear {
    /// The cost of the tactic: the number of copies it makes, but at least 1.
    pub fn cost(&self, builder: &SolutionBuilder) -> (cost: usize)
        requires
            builder.wf(),
        ensures
            cost >= 1,
            builder.goal().filter(|v: ValueOrAlias| v.alias != 0).len() >= 1 ==> cost
                == builder.goal().filter(|v: ValueOrAlias| v.alias != 0).len(),
            builder.goal().filter(|v: ValueOrAlias| v.alias != 0).len() == 0 ==> cost == 1,
    {
        let ghost is_copy = |v: ValueOrAlias| v.alias != 0;
        let mut copies: usize = 0;
        let n: usize = builder.num_expected();
        let mut i: usize = 0;
        proof {
            reveal(Seq::filter);
        }
        while i < n
            invariant
                i <= n == builder.goal().len() <= 255,
                is_copy == (|v: ValueOrAlias| v.alias != 0),
                copies <= i,
                copies == builder.goal().take(i as int).filter(is_copy).len(),
            decreases n - i,
        {
            proof {
                reveal(Seq::filter);
                assert(builder.goal().take(i + 1).drop_last() == builder.goal().take(i as int));
            }
            if builder.unwrap_expected(i as u8).is_alias() {
                copies = copies + 1;
            }
            i = i + 1;
        }
        assert(builder.goal().take(n as int) == builder.goal());
        if copies > 1 {
            copies
        } else {
            1
        }
    }
}

/// Makes the copies that are expected and not on the stack.
fn materialize(builder: &mut SolutionBuilder)
    requires
        old(builder).wf(),
        solvable(old(builder).stack(), old(builder).goal()),
        old(builder).stack().len() + old(builder).goal().len() <= 255,
    ensures
        final(builder).wf(),
        old(builder).led_to(&*final(builder)),
        final(builder).stack().no_duplicates(),
        forall|j: int|
            0 <= j < final(builder).goal().len() ==> final(builder).stack().contains(
                #[trigger] final(builder).goal()[j],
            ),
        forall|v: ValueOrAlias| #[trigger]
            old(builder).stack().contains(v) ==> final(builder).stack().contains(v),
        forall|v: ValueOrAlias| #[trigger]
            final(builder).stack().contains(v) ==> old(builder).stack().contains(v)
                || old(builder).goal().contains(v),
        (forall|j: int| 0 <= j < old(builder).goal().len() ==> old(builder).stack().contains(
            #[trigger] old(builder).goal()[j],
        )) ==> *final(builder) == *old(builder),
{
    let ghost goal = builder.goal();
    let ghost first = builder.stack();
    let n: usize = builder.num_expected();
    let mut i: usize = 0;
    proof {
        solution::led_to_self(*builder);
    }
    while i < n
        invariant
            i <= n == goal.len(),
            goal == old(builder).goal(),
            first == old(builder).stack(),
            builder.goal() == goal,
            builder.wf(),
            solvable(first, goal),
            first.len() + goal.len() <= 255,
            builder.stack().len() <= first.len() + i,
            old(builder).led_to(builder),
            builder.stack().no_duplicates(),
            forall|j: int| 0 <= j < i ==> builder.stack().contains(#[trigger] goal[j]),
            forall|v: ValueOrAlias| #[trigger]
                first.contains(v) ==> builder.stack().contains(v),
            forall|v: ValueOrAlias| #[trigger]
                builder.stack().contains(v) ==> first.contains(v) || goal.contains(v),
            (forall|j: int| 0 <= j < goal.len() ==> first.contains(#[trigger] goal[j]))
                ==> *builder == *old(builder),
        decreases n - i,
    {
        let value = builder.unwrap_expected(i as u8);
        assert(value == goal[i as int]);
        match builder.get_current_position(&value) {
            Some(_) => {},
            None => {
                assert(!first.contains(value));
                let original = value.unaliased();
                let at: u8 = builder.unwrap_current_position(&original);
                let ghost before = *builder;
                builder.dup(at, value.alias);
                proof {
                    let after = builder.stack();
                    solution::led_to_join(*old(builder), before, *builder);
                    assert(after == seq![value] + before.stack());
                    assert forall|v: ValueOrAlias| #[trigger] after.contains(v) <==> v == value
                        || before.stack().contains(v) by {
                        if before.stack().contains(v) {
                            let k = choose|k: int|
                                0 <= k < before.stack().len() && before.stack()[k] == v;
                            assert(after[k + 1] == v);
                        }
                        assert(after[0] == value);
                    }
                    assert(after.no_duplicates()) by {
                        assert forall|x: int, y: int|
                            0 <= x < after.len() && 0 <= y < after.len() && x != y implies after[x]
                            != after[y] by {
                            if x == 0 {
                                assert(before.stack().contains(before.stack()[y - 1]));
                            } else if y == 0 {
                                assert(before.stack().contains(before.stack()[x - 1]));
                            }
                        }
                    }
                    assert(goal.contains(value));
                }
            },
        }
        i = i + 1;
    }
}

/// What the graph holds once the first `n` expected operands have been looked at.
pub open spec fn holds_moves(
    stack: Seq<ValueOrAlias>,
    goal: Seq<ValueOrAlias>,
    n: int,
    nodes: Set<Operand>,
    edges: Set<(Operand, Operand)>,
) -> bool {
    &&& forall|a: Operand, b: Operand| #[trigger]
        edges.contains((a, b)) ==> is_node(stack, a) && is_node(stack, b) && b.pos < n
            && goal[b.pos as int] == a.value && nodes.contains(a) && nodes.contains(b)
    &&& forall|p: int, j: int|
        #![trigger stack[p], goal[j]]
        0 <= p < stack.len() && 0 <= j < n && stack[p] == goal[j] && p != j ==> edges.contains(
            (node_at(stack, p), node_at(stack, j)),
        )
    &&& forall|x: Operand| #[trigger]
        nodes.contains(x) ==> is_node(stack, x) && !in_place(stack, goal, x.pos as int) && (
        goal.contains(x.value) || has_previous(edges, x))
}

/// `extra` are the operands that are not expected but stand where another one is expected.
pub open spec fn holds_extra(
    goal: Seq<ValueOrAlias>,
    extra: Seq<ValueOrAlias>,
    nodes: Set<Operand>,
) -> bool {
    &&& extra.no_duplicates()
    &&& forall|x: Operand| #[trigger]
        nodes.contains(x) ==> goal.contains(x.value) || extra.contains(x.value)
    &&& forall|k: int|
        0 <= k < extra.len() ==> !goal.contains(#[trigger] extra[k]) && exists|x: Operand|
            nodes.contains(x) && x.value == extra[k]
}

/// There are no more expected operands than operands on the stack.
proof fn goal_fits(stack: Seq<ValueOrAlias>, goal: Seq<ValueOrAlias>)
    requires
        goal.no_duplicates(),
        forall|j: int| 0 <= j < goal.len() ==> stack.contains(#[trigger] goal[j]),
    ensures
        goal.len() <= stack.len(),
{
    goal.unique_seq_to_set();
    assert(goal.to_set().subset_of(stack.to_set()));
    vstd::set_lib::lemma_len_subset(goal.to_set(), stack.to_set());
    vstd::seq_lib::seq_to_set_is_finite(stack);
    stack.lemma_cardinality_of_set();
}

fn holds(list: &Vec<ValueOrAlias>, value: ValueOrAlias) -> (b: bool)
    ensures
        b == list@.contains(value),
{
    let mut i: usize = 0;
    while i < list.len()
        invariant
            i <= list@.len(),
            forall|j: int| 0 <= j < i ==> list@[j] != value,
        decreases list@.len() - i,
    {
        if list[i] == value {
            return true;
        }
        i = i + 1;
    }
    false
}

/// Adds the moves of the expected operands to the graph, and returns the operands that are in
/// the way and not expected.
fn add_moves(builder: &SolutionBuilder, graph: &mut DiGraph) -> (extra: Vec<ValueOrAlias>)
    requires
        builder.wf(),
        builder.stack().no_duplicates(),
        builder.goal().no_duplicates(),
        forall|j: int|
            0 <= j < builder.goal().len() ==> builder.stack().contains(
                #[trigger] builder.goal()[j],
            ),
        old(graph).wf(),
        old(graph).node_set() == Set::<Operand>::empty(),
        old(graph).edge_set() == Set::<(Operand, Operand)>::empty(),
    ensures
        final(graph).wf(),
        holds_moves(
            builder.stack(),
            builder.goal(),
            builder.goal().len() as int,
            final(graph).node_set(),
            final(graph).edge_set(),
        ),
        holds_extra(builder.goal(), extra@, final(graph).node_set()),
        builder.solved() ==> final(graph).node_set() == Set::<Operand>::empty(),
{
    let ghost stack = builder.stack();
    let ghost goal = builder.goal();
    let n: usize = builder.num_expected();
    let mut extra: Vec<ValueOrAlias> = Vec::new();
    let mut i: usize = 0;
    proof {
        goal_fits(stack, goal);
    }
    while i < n
        invariant
            i <= n == goal.len() <= stack.len() <= 255,
            stack == builder.stack(),
            goal == builder.goal(),
            builder.wf(),
            stack.no_duplicates(),
            goal.no_duplicates(),
            forall|j: int| 0 <= j < goal.len() ==> stack.contains(#[trigger] goal[j]),
            graph.wf(),
            holds_moves(stack, goal, i as int, graph.node_set(), graph.edge_set()),
            holds_extra(goal, extra@, graph.node_set()),
            builder.solved() ==> graph.node_set() == Set::<Operand>::empty(),
        decreases n - i,
    {
        let value = builder.unwrap_expected(i as u8);
        assert(value == goal[i as int]);
        let at: u8 = builder.unwrap_current_position(&value);
        if at as usize != i {
            let to: u8 = i as u8;
            let occupied_by = builder.unwrap_current(to);
            let ghost nodes = graph.node_set();
            let ghost edges = graph.edge_set();
            let from_node = graph.add_node(Operand { pos: at, value });
            let to_node = graph.add_node(Operand { pos: to, value: occupied_by });
            graph.add_edge(from_node, to_node);
            proof {
                let nodes2 = graph.node_set();
                let edges2 = graph.edge_set();
                if builder.solved() {
                    assert(goal[i as int] == stack.subrange(0, goal.len() as int)[i as int]);
                    assert(false);
                }
                assert(from_node == node_at(stack, at as int));
                assert(to_node == node_at(stack, i as int));
                assert forall|x: Operand| #[trigger] nodes2.contains(x) <==> nodes.contains(x) || x
                    == from_node || x == to_node by {}
                assert forall|a: Operand, b: Operand| #[trigger] edges2.contains((a, b)) <==> edges.contains(
                    (a, b),
                ) || (a == from_node && b == to_node) by {}
                assert forall|p: int, j: int|
                    #![trigger stack[p], goal[j]]
                    0 <= p < stack.len() && 0 <= j < i + 1 && stack[p] == goal[j] && p
                        != j implies edges2.contains((node_at(stack, p), node_at(stack, j))) by {
                    if j == i {
                        assert(p == at);
                    }
                }
                assert(edges2.contains((from_node, to_node)));
                assert(has_previous(edges2, to_node));
                assert forall|x: Operand| #[trigger] nodes2.contains(x) implies is_node(stack, x)
                    && !in_place(stack, goal, x.pos as int) && (goal.contains(x.value)
                    || has_previous(edges2, x)) by {
                    if nodes.contains(x) {
                        if has_previous(edges, x) {
                            let a = choose|a: Operand| edges.contains((a, x));
                            assert(edges2.contains((a, x)));
                        }
                    } else if x == from_node {
                        assert(goal.contains(goal[i as int]));
                    }
                }
                assert(holds_moves(stack, goal, i + 1, nodes2, edges2));
            }
            let expected = builder.get_expected_position(&occupied_by).is_some();
            let ghost before = extra@;
            if !expected && !holds(&extra, occupied_by) {
                extra.push(occupied_by);
            }
            proof {
                let nodes2 = graph.node_set();
                assert(goal.contains(value)) by {
                    assert(goal[i as int] == value);
                }
                assert(expected == goal.contains(occupied_by)) by {
                    if expected {
                        let k = choose|k: int| 0 <= k < goal.len() && goal[k] == occupied_by;
                    }
                }
                assert forall|v: ValueOrAlias| before.contains(v) implies #[trigger] extra@.contains(
                    v,
                ) by {
                    let k = choose|k: int| 0 <= k < before.len() && before[k] == v;
                    assert(extra@[k] == v);
                }
                assert(!goal.contains(occupied_by) ==> extra@.contains(occupied_by)) by {
                    if !goal.contains(occupied_by) && !before.contains(occupied_by) {
                        assert(extra@[before.len() as int] == occupied_by);
                    }
                }
                assert forall|x: Operand| #[trigger] nodes2.contains(x) implies goal.contains(
                    x.value,
                ) || extra@.contains(x.value) by {}
                assert forall|k: int| 0 <= k < extra@.len() implies !goal.contains(
                    #[trigger] extra@[k],
                ) && exists|x: Operand| nodes2.contains(x) && x.value == extra@[k] by {
                    if k < before.len() {
                        assert(before[k] == extra@[k]);
                        let x = choose|x: Operand| nodes.contains(x) && x.value == before[k];
                        assert(nodes2.contains(x));
                    } else {
                        assert(nodes2.contains(to_node) && to_node.value == extra@[k]);
                    }
                }
            }
        }
        i = i + 1;
    }
    extra
}

/// The start of the path that leads to `operand`.
fn path_start(graph: &DiGraph, operand: Operand) -> (root: Operand)
    requires
        graph.wf(),
        single_edges(graph.edge_set()),
        graph.node_set().contains(operand),
        has_previous(graph.edge_set(), operand),
        !has_next(graph.edge_set(), operand),
    ensures
        graph.node_set().contains(root),
        !has_previous(graph.edge_set(), root),
        root != operand,
{
    let ghost edges = graph.edge_set();
    let mut root = operand;
    let ghost mut trail: Seq<Operand> = seq![operand];
    let mut parents = graph.neighbors(operand, Direction::Incoming);
    proof {
        graph::edges_join_nodes(*graph);
        let a = choose|a: Operand| edges.contains((a, operand));
        assert(parents@.contains(a));
        trail_is_short(graph.node_set(), trail);
    }
    while parents.len() > 0
        invariant
            graph.wf(),
            edges == graph.edge_set(),
            single_edges(edges),
            !has_next(edges, operand),
            has_previous(edges, operand),
            graph.node_set().finite(),
            forall|x: Operand, y: Operand| #[trigger] edges.contains((x, y))
                ==> graph.node_set().contains(x) && graph.node_set().contains(y),
            forall|x: Operand| #[trigger] parents@.contains(x) <==> edges.contains((x, root)),
            trail.len() > 0,
            trail[0] == operand,
            trail.last() == root,
            trail.no_duplicates(),
            forall|i: int| 0 <= i < trail.len() ==> graph.node_set().contains(#[trigger] trail[i]),
            forall|i: int| 0 < i < trail.len() ==> edges.contains((#[trigger] trail[i], trail[i - 1])),
            trail.len() <= graph.node_set().len(),
        decreases graph.node_set().len() - trail.len(),
    {
        let parent = parents[0];
        proof {
            assert(parents@.contains(parent));
            let longer = trail.push(parent);
            assert forall|i: int| 0 <= i < trail.len() implies trail[i] != parent by {
                if trail[i] == parent {
                    if i == 0 {
                        assert(edges.contains((operand, root)));
                    } else {
                        assert(edges.contains((trail[i], trail[i - 1])));
                        assert(edges.contains((parent, root)));
                        assert(trail[i - 1] == trail[trail.len() - 1]);
                    }
                }
            }
            trail = longer;
            trail_is_short(graph.node_set(), trail);
        }
        root = parent;
        parents = graph.neighbors(root, Direction::Incoming);
    }
    proof {
        if has_previous(edges, root) {
            let a = choose|a: Operand| edges.contains((a, root));
            assert(parents@.contains(a));
        }
    }
    root
}

/// A list of different nodes is no longer than there are nodes.
proof fn trail_is_short(nodes: Set<Operand>, trail: Seq<Operand>)
    requires
        nodes.finite(),
        trail.no_duplicates(),
        forall|i: int| 0 <= i < trail.len() ==> nodes.contains(#[trigger] trail[i]),
    ensures
        trail.len() <= nodes.len(),
{
    trail.unique_seq_to_set();
    assert(trail.to_set().subset_of(nodes));
    vstd::set_lib::lemma_len_subset(trail.to_set(), nodes);
}

/// Closes each path of moves to a cycle: the operand at its end, which is not expected, goes
/// where the path starts.
fn close_paths(builder: &SolutionBuilder, graph: &mut DiGraph, extra: &Vec<ValueOrAlias>)
    requires
        builder.wf(),
        builder.stack().no_duplicates(),
        builder.goal().no_duplicates(),
        forall|j: int|
            0 <= j < builder.goal().len() ==> builder.stack().contains(
                #[trigger] builder.goal()[j],
            ),
        old(graph).wf(),
        holds_moves(
            builder.stack(),
            builder.goal(),
            builder.goal().len() as int,
            old(graph).node_set(),
            old(graph).edge_set(),
        ),
        holds_extra(builder.goal(), extra@, old(graph).node_set()),
    ensures
        final(graph).wf(),
        final(graph).node_set() == old(graph).node_set(),
        is_move_graph(
            builder.stack(),
            builder.goal(),
            final(graph).node_set(),
            final(graph).edge_set(),
        ),
{
    let ghost stack = builder.stack();
    let ghost goal = builder.goal();
    let ghost nodes = graph.node_set();
    let ghost edges0 = graph.edge_set();
    proof {
        assert forall|a: Operand, b: Operand, c: Operand|
            #![trigger edges0.contains((a, b)), edges0.contains((a, c))]
            edges0.contains((a, b)) && edges0.contains((a, c)) implies b == c by {
            assert(goal[b.pos as int] == goal[c.pos as int]);
        }
        assert forall|a: Operand, b: Operand, c: Operand|
            #![trigger edges0.contains((a, c)), edges0.contains((b, c))]
            edges0.contains((a, c)) && edges0.contains((b, c)) implies a == b by {
            assert(stack[a.pos as int] == stack[b.pos as int]);
        }
        assert forall|x: Operand| #[trigger] nodes.contains(x) && goal.contains(x.value) implies has_next(
            edges0,
            x,
        ) by {
            let j = choose|j: int| 0 <= j < goal.len() && goal[j] == x.value;
            assert(stack[x.pos as int] == goal[j]);
            assert(node_at(stack, x.pos as int) == x);
            assert(edges0.contains((x, node_at(stack, j))));
        }
    }
    let mut i: usize = 0;
    while i < extra.len()
        invariant
            i <= extra@.len(),
            stack == builder.stack(),
            goal == builder.goal(),
            builder.wf(),
            stack.no_duplicates(),
            graph.wf(),
            graph.node_set() == nodes,
            holds_extra(goal, extra@, nodes),
            single_edges(graph.edge_set()),
            edges0.subset_of(graph.edge_set()),
            forall|x: Operand| #[trigger]
                nodes.contains(x) ==> is_node(stack, x) && !in_place(stack, goal, x.pos as int) && (
                goal.contains(x.value) || has_previous(edges0, x)),
            forall|x: Operand| #[trigger]
                nodes.contains(x) && goal.contains(x.value) ==> has_next(edges0, x),
            forall|x: Operand, k: int|
                #![trigger nodes.contains(x), extra@[k]]
                nodes.contains(x) && 0 <= k < extra@.len() && x.value == extra@[k] ==> (has_next(
                    graph.edge_set(),
                    x,
                ) <==> k < i),
        decreases extra@.len() - i,
    {
        let value = extra[i];
        let ghost x = choose|x: Operand| nodes.contains(x) && x.value == extra@[i as int];
        assert(stack.contains(value)) by {
            assert(stack[x.pos as int] == value);
        }
        let at: u8 = builder.unwrap_current_position(&value);
        let operand = Operand { pos: at, value };
        assert(operand == x);
        let ghost edges = graph.edge_set();
        proof {
            assert(!goal.contains(x.value));
            let a = choose|a: Operand| edges0.contains((a, x));
            assert(edges.contains((a, x)));
        }
        let root = path_start(graph, operand);
        graph.add_edge(operand, root);
        proof {
            let edges2 = graph.edge_set();
            assert(graph.node_set() == nodes);
            assert forall|a: Operand, b: Operand| #[trigger] edges2.contains((a, b)) <==> edges.contains(
                (a, b),
            ) || (a == operand && b == root) by {}
            assert forall|y: Operand, k: int|
                #![trigger nodes.contains(y), extra@[k]]
                nodes.contains(y) && 0 <= k < extra@.len() && y.value == extra@[k] implies (has_next(
                edges2,
                y,
            ) <==> k < i + 1) by {
                if k == i {
                    assert(y == operand);
                    assert(edges2.contains((operand, root)));
                } else if k < i {
                    let b = choose|b: Operand| edges.contains((y, b));
                    assert(edges2.contains((y, b)));
                } else {
                    assert(y != operand);
                    if has_next(edges2, y) {
                        let b = choose|b: Operand| edges2.contains((y, b));
                        assert(edges.contains((y, b)));
                    }
                }
            }
        }
        i = i + 1;
    }
    proof {
        let edges = graph.edge_set();
        assert forall|x: Operand| #[trigger] nodes.contains(x) implies has_next(edges, x) by {
            if goal.contains(x.value) {
                let b = choose|b: Operand| edges0.contains((x, b));
                assert(edges.contains((x, b)));
            } else {
                let k = choose|k: int| 0 <= k < extra@.len() && extra@[k] == x.value;
                assert(x.value == extra@[k]);
            }
        }
        reveal(is_move_graph);
    }
}

/// The moves, closed to cycles, are a rotation.
proof fn move_graph_is_rotation(
    graph: DiGraph,
    stack: Seq<ValueOrAlias>,
    goal: Seq<ValueOrAlias>,
)
    requires
        graph.wf(),
        is_move_graph(stack, goal, graph.node_set(), graph.edge_set()),
    ensures
        is_rotation(graph.node_set(), graph.edge_set()),
{
    reveal(is_move_graph);
    reveal(is_rotation);
    graph::edges_join_nodes(graph);
}

/// Where every node has one edge out and at most one in, what a node leads to leads back to it.
proof fn leads_back(
    nodes: Set<Operand>,
    edges: Set<(Operand, Operand)>,
    x: Operand,
    y: Operand,
)
    requires
        nodes.finite(),
        single_edges(edges),
        forall|a: Operand, b: Operand| #[trigger]
            edges.contains((a, b)) ==> nodes.contains(a) && nodes.contains(b),
        forall|a: Operand| #[trigger] nodes.contains(a) ==> has_next(edges, a),
        nodes.contains(x),
        graph::reach(edges, x, y),
    ensures
        graph::reach(edges, y, x),
{
    // The nodes that `y` leads to.
    let after = nodes.filter(|z: Operand| graph::reach(edges, y, z));
    let next = |a: Operand| choose|b: Operand| edges.contains((a, b));
    assert(nodes.contains(y)) by {
        if !nodes.contains(y) {
            let (a, b) = graph::leaving_edge(edges, nodes, x, y);
            assert(false);
        }
    }
    graph::reach_self(edges, y);
    assert forall|a: Operand| after.contains(a) implies after.contains(#[trigger] next(a))
        && edges.contains((a, next(a))) by {
        assert(has_next(edges, a));
        assert(edges.contains((a, next(a))));
        graph::reach_edge(edges, a, next(a));
        graph::reach_join(edges, y, a, next(a));
    }
    // Each of them comes after one of them.
    let image = after.map(next);
    assert(vstd::relations::injective_on(next, after)) by {
        assert forall|a: Operand, b: Operand|
            after.contains(a) && after.contains(b) && next(a) == next(b) implies a == b by {
            assert(edges.contains((a, next(a))));
            assert(edges.contains((b, next(b))));
        }
    }
    nodes.lemma_len_filter(|z: Operand| graph::reach(edges, y, z));
    vstd::set_lib::lemma_map_size(after, image, next);
    assert(image.subset_of(after));
    vstd::set_lib::lemma_subset_equality(image, after);
    // So the whole path from `x` to `y` is among them.
    if !after.contains(x) {
        let outside = Set::new(|z: Operand| !after.contains(z));
        let (a, b) = graph::leaving_edge(edges, outside, x, y);
        assert(after.contains(b));
        assert(image.contains(b));
        let c = choose|c: Operand| after.contains(c) && next(c) == b;
        assert(edges.contains((c, b)));
        assert(edges.contains((a, b)));
        assert(false);
    }
}

/// The stack, with its top back at position `at` if it was moved up from there.
pub open spec fn put_back(stack: Seq<ValueOrAlias>, at: int) -> Seq<ValueOrAlias> {
    if at == 0 {
        stack
    } else {
        solution::lowered(stack, at)
    }
}

/// Exchanging the top with a deeper operand, while the top belongs at `at`.
proof fn exchange_below(stack: Seq<ValueOrAlias>, at: int, i: int)
    requires
        0 <= at < i < stack.len(),
    ensures
        put_back(solution::exchanged(stack, i), at) == put_back(stack, at).update(
            at,
            put_back(stack, at)[i],
        ).update(i, put_back(stack, at)[at]),
{
    let a = put_back(solution::exchanged(stack, i), at);
    let l = put_back(stack, at);
    let b = l.update(at, l[i]).update(i, l[at]);
    assert(a == b);
}

/// The operand of `component` that is closest to the top.
fn shallowest(component: &Vec<Operand>) -> (start: Operand)
    requires
        component@.len() > 0,
    ensures
        component@.contains(start),
        forall|x: Operand| #[trigger] component@.contains(x) ==> start.pos <= x.pos,
{
    let mut start = component[0];
    let mut i: usize = 1;
    while i < component.len()
        invariant
            1 <= i <= component@.len(),
            component@.contains(start),
            forall|j: int| 0 <= j < i ==> start.pos <= (#[trigger] component@[j]).pos,
        decreases component@.len() - i,
    {
        if component[i].pos < start.pos {
            start = component[i];
        }
        i = i + 1;
    }
    start
}

/// Every node has one edge out and at most one in, and no two nodes share a position.
#[verifier::opaque]
pub open spec fn is_rotation(nodes: Set<Operand>, edges: Set<(Operand, Operand)>) -> bool {
    &&& nodes.finite()
    &&& single_edges(edges)
    &&& forall|a: Operand, b: Operand| #[trigger]
        edges.contains((a, b)) ==> nodes.contains(a) && nodes.contains(b)
    &&& forall|a: Operand| #[trigger] nodes.contains(a) ==> has_next(edges, a)
    &&& forall|a: Operand, b: Operand|
        #![trigger nodes.contains(a), nodes.contains(b)]
        nodes.contains(a) && nodes.contains(b) && a.pos == b.pos ==> a == b
}

/// `component` are the nodes that lead to each other with any one of them.
#[verifier::opaque]
pub open spec fn is_class(
    nodes: Set<Operand>,
    edges: Set<(Operand, Operand)>,
    component: Seq<Operand>,
) -> bool {
    &&& forall|x: Operand| #[trigger] component.contains(x) ==> nodes.contains(x)
    &&& forall|x: Operand, y: Operand|
        component.contains(x) ==> (#[trigger] graph::mutual(edges, x, y) <==> component.contains(y))
}

/// An edge leads from the item before `i` to item `i`.
pub open spec fn linked(edges: Set<(Operand, Operand)>, trail: Seq<Operand>, i: int) -> bool {
    edges.contains((trail[i - 1], trail[i]))
}

/// The value of the item before `i` is at the position of item `i`.
pub open spec fn placed(stack: Seq<ValueOrAlias>, trail: Seq<Operand>, i: int) -> bool {
    stack[trail[i].pos as int] == trail[i - 1].value
}

/// No item of `trail` has position `p`.
pub open spec fn free(trail: Seq<Operand>, p: int) -> bool {
    forall|x: Operand| #[trigger] trail.contains(x) ==> x.pos != p
}

/// The state after the items of `trail` have been exchanged, one after the other, with the one
/// that belongs at the position of the first.
pub open spec fn walked(
    edges: Set<(Operand, Operand)>,
    component: Seq<Operand>,
    first: Seq<ValueOrAlias>,
    stack: Seq<ValueOrAlias>,
    trail: Seq<Operand>,
) -> bool {
    &&& trail.len() > 0
    &&& trail.no_duplicates()
    &&& stack.len() == first.len()
    &&& forall|x: Operand| #[trigger] trail.contains(x) ==> component.contains(x)
    &&& forall|i: int| 0 < i < trail.len() ==> #[trigger] linked(edges, trail, i)
    &&& forall|i: int| 0 < i < trail.len() ==> #[trigger] placed(stack, trail, i)
    &&& stack[trail[0].pos as int] == trail.last().value
    &&& forall|p: int|
        0 <= p < first.len() && free(trail, p) ==> #[trigger] stack[p] == first[p]
}

/// The next item of a walk is one of the component, and not one that was passed.
proof fn walk_goes_on(
    nodes: Set<Operand>,
    edges: Set<(Operand, Operand)>,
    component: Seq<Operand>,
    trail: Seq<Operand>,
    child: Operand,
)
    requires
        is_rotation(nodes, edges),
        is_class(nodes, edges, component),
        trail.len() > 0,
        trail.no_duplicates(),
        forall|x: Operand| #[trigger] trail.contains(x) ==> component.contains(x),
        forall|i: int| 0 < i < trail.len() ==> #[trigger] linked(edges, trail, i),
        edges.contains((trail.last(), child)),
        child != trail[0],
    ensures
        component.contains(child),
        !trail.contains(child),
        free(trail, child.pos as int),
        trail.push(child).no_duplicates(),
        trail.len() < nodes.len(),
{
    let last = trail.last();
    assert(component.contains(child)) by {
        reveal(is_rotation);
        reveal(is_class);
        assert(trail.contains(last));
        graph::reach_edge(edges, last, child);
        leads_back(nodes, edges, last, child);
        assert(graph::mutual(edges, last, child));
    }
    assert(!trail.contains(child)) by {
        if trail.contains(child) {
            let i = choose|i: int| 0 <= i < trail.len() && trail[i] == child;
            assert(linked(edges, trail, i));
            reveal(is_rotation);
            assert(edges.contains((trail[i - 1], child)));
            assert(trail[i - 1] == trail[trail.len() - 1]);
        }
    }
    assert(nodes.contains(child) && forall|x: Operand| #[trigger]
        trail.contains(x) ==> nodes.contains(x)) by {
        reveal(is_class);
    }
    assert(free(trail, child.pos as int)) by {
        reveal(is_rotation);
    }
    let longer = trail.push(child);
    assert(longer.no_duplicates()) by {
        assert forall|i: int, j: int|
            0 <= i < longer.len() && 0 <= j < longer.len() && i != j implies longer[i]
            != longer[j] by {
            if i == trail.len() {
                assert(trail.contains(trail[j]));
            } else if j == trail.len() {
                assert(trail.contains(trail[i]));
            }
        }
    }
    assert forall|i: int| 0 <= i < longer.len() implies nodes.contains(#[trigger] longer[i]) by {
        if i < trail.len() {
            assert(trail.contains(trail[i]));
        }
    }
    assert(nodes.finite()) by {
        reveal(is_rotation);
    }
    trail_is_short(nodes, longer);
}

/// One exchange takes the walk one item further.
proof fn walk_step(
    nodes: Set<Operand>,
    edges: Set<(Operand, Operand)>,
    component: Seq<Operand>,
    first: Seq<ValueOrAlias>,
    before: Seq<ValueOrAlias>,
    after: Seq<ValueOrAlias>,
    trail: Seq<Operand>,
    child: Operand,
)
    requires
        is_rotation(nodes, edges),
        is_class(nodes, edges, component),
        forall|x: Operand| #[trigger] component.contains(x) ==> is_node(first, x),
        walked(edges, component, first, before, trail),
        edges.contains((trail.last(), child)),
        child != trail[0],
        after == before.update(trail[0].pos as int, before[child.pos as int]).update(
            child.pos as int,
            before[trail[0].pos as int],
        ),
    ensures
        walked(edges, component, first, after, trail.push(child)),
{
    let longer = trail.push(child);
    let start = trail[0];
    walk_goes_on(nodes, edges, component, trail, child);
    assert(trail.contains(start));
    assert(component.contains(start));
    assert(before[child.pos as int] == first[child.pos as int]);
    assert forall|x: Operand| #[trigger] longer.contains(x) <==> trail.contains(x) || x == child by {
        if trail.contains(x) {
            let i = choose|i: int| 0 <= i < trail.len() && trail[i] == x;
            assert(longer[i] == x);
        }
        assert(longer[trail.len() as int] == child);
    }
    assert forall|i: int| 0 < i < longer.len() implies #[trigger] linked(edges, longer, i) by {
        if i < trail.len() {
            assert(linked(edges, trail, i));
        }
    }
    assert forall|i: int| 0 < i < longer.len() implies #[trigger] placed(after, longer, i) by {
        if i < trail.len() {
            assert(placed(before, trail, i));
            assert(trail.contains(trail[i]));
            assert(trail[i].pos != child.pos);
            assert(trail[i].pos != start.pos) by {
                reveal(is_rotation);
                reveal(is_class);
                assert(nodes.contains(trail[i]) && nodes.contains(start));
                assert(trail[i] != trail[0]);
            }
        }
    }
    assert forall|p: int| 0 <= p < first.len() && free(longer, p) implies #[trigger] after[p]
        == first[p] by {
        assert(longer.contains(start));
        assert(longer.contains(child));
        assert forall|x: Operand| #[trigger] trail.contains(x) implies x.pos != p by {
            assert(longer.contains(x));
        }
        assert(free(trail, p));
        assert(before[p] == first[p]);
    }
}

/// Puts the operands of one cycle in place: each goes to the position of the next.
fn resolve(builder: &mut SolutionBuilder, graph: &DiGraph, component: &Vec<Operand>)
    requires
        old(builder).wf(),
        graph.wf(),
        is_rotation(graph.node_set(), graph.edge_set()),
        is_class(graph.node_set(), graph.edge_set(), component@),
        component@.len() > 0,
        forall|x: Operand| #[trigger]
            component@.contains(x) ==> is_node(old(builder).stack(), x),
    ensures
        final(builder).wf(),
        old(builder).led_to(&*final(builder)),
        final(builder).stack().len() == old(builder).stack().len(),
        forall|a: Operand, b: Operand| #[trigger]
            graph.edge_set().contains((a, b)) && component@.contains(a)
                ==> final(builder).stack()[b.pos as int] == a.value,
        forall|p: int|
            0 <= p < old(builder).stack().len() && free(component@, p)
                ==> #[trigger] final(builder).stack()[p] == old(builder).stack()[p],
{
    let ghost edges = graph.edge_set();
    let ghost nodes = graph.node_set();
    let ghost first = builder.stack();
    let start = shallowest(component);
    let at: u8 = start.pos;
    proof {
        solution::led_to_self(*builder);
    }
    if at > 0 {
        builder.movup(at);
    }
    let ghost mut trail: Seq<Operand> = seq![start];
    assert(put_back(builder.stack(), at as int) == first);
    assert(nodes.contains(start)) by {
        reveal(is_class);
    }
    let mut child = next_of(graph, start);
    proof {
        assert(trail[0] == start);
        assert(walked(edges, component@, first, first, trail));
        assert(nodes.finite()) by {
            reveal(is_rotation);
        }
        trail_is_short(nodes, trail);
    }
    while child != start
        invariant
            edges == graph.edge_set(),
            nodes == graph.node_set(),
            first == old(builder).stack(),
            graph.wf(),
            is_rotation(nodes, edges),
            is_class(nodes, edges, component@),
            forall|x: Operand| #[trigger] component@.contains(x) ==> is_node(first, x),
            component@.contains(start),
            forall|x: Operand| #[trigger] component@.contains(x) ==> start.pos <= x.pos,
            at == start.pos,
            builder.wf(),
            old(builder).led_to(builder),
            builder.stack().len() == first.len(),
            walked(edges, component@, first, put_back(builder.stack(), at as int), trail),
            trail[0] == start,
            trail.len() <= nodes.len(),
            edges.contains((trail.last(), child)),
        decreases nodes.len() - trail.len(),
    {
        let ghost before = *builder;
        proof {
            walk_goes_on(nodes, edges, component@, trail, child);
            assert(trail.contains(start)) by {
                assert(trail[0] == start);
            }
            exchange_below(before.stack(), at as int, child.pos as int);
        }
        builder.swap(child.pos);
        proof {
            solution::led_to_join(*old(builder), before, *builder);
            walk_step(
                nodes,
                edges,
                component@,
                first,
                put_back(before.stack(), at as int),
                put_back(builder.stack(), at as int),
                trail,
                child,
            );
            trail = trail.push(child);
            assert(nodes.contains(child)) by {
                reveal(is_class);
            }
        }
        child = next_of(graph, child);
    }
    let ghost walked_stack = put_back(builder.stack(), at as int);
    if at > 0 {
        let ghost before = *builder;
        builder.movdn(at);
        proof {
            solution::led_to_join(*old(builder), before, *builder);
        }
    }
    proof {
        assert(builder.stack() == walked_stack);
        assert forall|a: Operand, b: Operand| #[trigger]
            edges.contains((a, b)) && component@.contains(a) implies builder.stack()[b.pos as int]
            == a.value by {
            cycle_is_component(nodes, edges, component@, trail, a);
            let i = choose|i: int| 0 <= i < trail.len() && trail[i] == a;
            reveal(is_rotation);
            if i == trail.len() - 1 {
                assert(edges.contains((a, start)));
                assert(b == start);
            } else {
                assert(linked(edges, trail, i + 1));
                assert(edges.contains((a, trail[i + 1])));
                assert(b == trail[i + 1]);
                assert(placed(walked_stack, trail, i + 1));
            }
        }
        assert forall|p: int| 0 <= p < first.len() && free(component@, p) implies #[trigger] builder.stack()[p]
            == first[p] by {
            assert(free(trail, p));
        }
    }
}

/// The operand that `node` has an edge to.
fn next_of(graph: &DiGraph, node: Operand) -> (next: Operand)
    requires
        graph.wf(),
        is_rotation(graph.node_set(), graph.edge_set()),
        graph.node_set().contains(node),
    ensures
        graph.edge_set().contains((node, next)),
{
    let next = graph.neighbors(node, Direction::Outgoing);
    proof {
        reveal(is_rotation);
        assert(has_next(graph.edge_set(), node));
        let b = choose|b: Operand| graph.edge_set().contains((node, b));
        assert(next@.contains(b));
        assert(next@.contains(next@[0]));
    }
    next[0]
}

/// A trail that returns to its start holds the whole component.
proof fn cycle_is_component(
    nodes: Set<Operand>,
    edges: Set<(Operand, Operand)>,
    component: Seq<Operand>,
    trail: Seq<Operand>,
    a: Operand,
)
    requires
        is_rotation(nodes, edges),
        is_class(nodes, edges, component),
        trail.len() > 0,
        edges.contains((trail.last(), trail[0])),
        forall|i: int| 0 < i < trail.len() ==> #[trigger] linked(edges, trail, i),
        component.contains(trail[0]),
        component.contains(a),
    ensures
        trail.contains(a),
{
    let start = trail[0];
    assert(graph::mutual(edges, start, a)) by {
        reveal(is_class);
    }
    if !trail.contains(a) {
        assert(trail.to_set().contains(start)) by {
            assert(trail.contains(trail[0]));
        }
        let (x, y) = graph::leaving_edge(edges, trail.to_set(), start, a);
        let i = choose|i: int| 0 <= i < trail.len() && trail[i] == x;
        if i == trail.len() - 1 {
            assert(edges.contains((x, start)));
            assert(y == start) by {
                reveal(is_rotation);
            }
        } else {
            assert(linked(edges, trail, i + 1));
            assert(edges.contains((x, trail[i + 1])));
            assert(y == trail[i + 1]) by {
                reveal(is_rotation);
            }
            assert(trail.contains(trail[i + 1]));
        }
    }
}

/// What the cycles handled so far have made of the stack.
spec fn resolved(
    stack: Seq<ValueOrAlias>,
    now: Seq<ValueOrAlias>,
    edges: Set<(Operand, Operand)>,
    components: Seq<Vec<Operand>>,
    n: int,
) -> bool {
    &&& now.len() == stack.len()
    &&& forall|k: int, a: Operand, b: Operand|
        #![trigger components[k]@.contains(a), edges.contains((a, b))]
        0 <= k < n && components[k]@.contains(a) && edges.contains((a, b)) ==> now[b.pos as int]
            == a.value
    &&& forall|p: int|
        0 <= p < stack.len() && (forall|k: int|
            0 <= k < n ==> free(#[trigger] components[k]@, p)) ==> #[trigger] now[p] == stack[p]
}

/// The components of a graph that is a rotation are its cycles.
proof fn component_is_class(
    nodes: Set<Operand>,
    edges: Set<(Operand, Operand)>,
    components: Seq<Vec<Operand>>,
    k: int,
)
    requires
        is_rotation(nodes, edges),
        scc::are_classes(edges, components),
        forall|x: Operand| #[trigger] nodes.contains(x) <==> scc::covered(components, x),
        0 <= k < components.len(),
    ensures
        is_class(nodes, edges, components[k]@),
{
    let component = components[k]@;
    reveal(is_class);
    assert forall|x: Operand| #[trigger] component.contains(x) implies nodes.contains(x) by {
        assert(scc::covered(components, x));
    }
    assert forall|x: Operand, y: Operand| component.contains(x) implies (#[trigger] graph::mutual(
        edges,
        x,
        y,
    ) <==> component.contains(y)) by {
        if graph::mutual(edges, x, y) {
            assert(nodes.contains(y)) by {
                if !nodes.contains(y) {
                    reveal(is_rotation);
                    let (a, b) = graph::leaving_edge(edges, nodes, x, y);
                    assert(nodes.contains(b));
                }
            }
            let j = choose|j: int| 0 <= j < components.len() && #[trigger] components[j]@.contains(y);
            assert(components[k]@.contains(x));
        }
    }
}

/// The nodes of an edge are in the same component.
proof fn edge_in_component(
    nodes: Set<Operand>,
    edges: Set<(Operand, Operand)>,
    component: Seq<Operand>,
    a: Operand,
    b: Operand,
)
    requires
        is_rotation(nodes, edges),
        is_class(nodes, edges, component),
        component.contains(a),
        edges.contains((a, b)),
    ensures
        component.contains(b),
{
    reveal(is_rotation);
    reveal(is_class);
    graph::reach_edge(edges, a, b);
    leads_back(nodes, edges, a, b);
    assert(graph::mutual(edges, a, b));
}

impl Linear {
    /// Copies and moves operands until the expected ones are on top of the stack, in order.
    ///
    /// First the copies are made. The moves that the expected operands then need form paths and
    /// cycles; a path is closed by sending the operand at its end, which is not expected, to its
    /// start. Each cycle is put in place by exchanges with the top of the stack.
    pub fn apply(&mut self, builder: &mut SolutionBuilder) -> (result: Result<(), TacticError>)
        requires
            old(builder).wf(),
            solvable(old(builder).stack(), old(builder).goal()),
            old(builder).stack().len() + old(builder).goal().len() <= 255,
        ensures
            result is Ok,
            final(builder).wf(),
            final(builder).solved(),
            old(builder).led_to(&*final(builder)),
            final(builder).stack().no_duplicates(),
            forall|v: ValueOrAlias| #[trigger]
                final(builder).stack().contains(v) <==> old(builder).stack().contains(v) || old(
                    builder,
                ).goal().contains(v),
            old(builder).solved() ==> *final(builder) == *old(builder),
    {
        let ghost goal = builder.goal();
        proof {
            if builder.solved() {
                assert forall|j: int| 0 <= j < goal.len() implies builder.stack().contains(
                    #[trigger] goal[j],
                ) by {
                    assert(goal == builder.stack().subrange(0, goal.len() as int));
                    assert(builder.stack()[j] == goal[j]);
                }
            }
        }
        materialize(builder);
        let ghost copied = *builder;
        let ghost stack = builder.stack();
        proof {
            goal_fits(stack, goal);
        }
        let mut graph = DiGraph::new();
        let extra = add_moves(builder, &mut graph);
        close_paths(builder, &mut graph, &extra);
        let ghost nodes = graph.node_set();
        let ghost edges = graph.edge_set();
        proof {
            move_graph_is_rotation(graph, stack, goal);
        }
        let components = kosaraju_scc(&graph);
        let mut k: usize = 0;
        proof {
            solution::led_to_self(*builder);
            if copied.solved() {
                assert(components@.len() == 0) by {
                    if components@.len() > 0 {
                        assert(components@[0]@.contains(components@[0]@[0]));
                        assert(scc::covered(components@, components@[0]@[0]));
                        assert(nodes.contains(components@[0]@[0]));
                    }
                }
            }
        }
        while k < components.len()
            invariant
                k <= components@.len(),
                graph.wf(),
                nodes == graph.node_set(),
                edges == graph.edge_set(),
                stack == copied.stack(),
                is_move_graph(stack, goal, nodes, edges),
                is_rotation(nodes, edges),
                scc::are_classes(edges, components@),
                forall|x: Operand| #[trigger] nodes.contains(x) <==> scc::covered(components@, x),
                builder.wf(),
                copied.led_to(builder),
                resolved(stack, builder.stack(), edges, components@, k as int),
                components@.len() == 0 ==> *builder == copied,
            decreases components@.len() - k,
        {
            let ghost before = *builder;
            proof {
                component_is_class(nodes, edges, components@, k as int);
                untouched_component(stack, goal, before.stack(), nodes, edges, components@, k as int);
            }
            resolve(builder, &graph, &components[k]);
            proof {
                nodes_are_nodes(stack, goal, nodes, edges);
                solution::led_to_join(copied, before, *builder);
                one_more_resolved(
                    stack,
                    before.stack(),
                    builder.stack(),
                    nodes,
                    edges,
                    components@,
                    k as int,
                );
            }
            k = k + 1;
        }
        proof {
            solution::led_to_join(*old(builder), copied, *builder);
            let now = builder.stack();
            moves_are_done(stack, goal, now, nodes, edges, components@);
            nothing_is_added(stack, now);
            assert(goal == now.subrange(0, goal.len() as int));
            assert forall|v: ValueOrAlias| #[trigger] now.contains(v) <==> old(
                builder,
            ).stack().contains(v) || goal.contains(v) by {
                if goal.contains(v) {
                    let j = choose|j: int| 0 <= j < goal.len() && goal[j] == v;
                    assert(now[j] == v);
                }
            }
        }
        Ok(())
    }
}

/// A stack of the same size that holds the same operands holds no others, and none twice.
proof fn nothing_is_added(stack: Seq<ValueOrAlias>, now: Seq<ValueOrAlias>)
    requires
        stack.no_duplicates(),
        now.len() == stack.len(),
        forall|v: ValueOrAlias| #[trigger] stack.contains(v) ==> now.contains(v),
    ensures
        now.no_duplicates(),
        forall|v: ValueOrAlias| #[trigger] now.contains(v) ==> stack.contains(v),
{
    broadcast use vstd::seq_lib::seq_to_set_is_finite;

    stack.unique_seq_to_set();
    now.lemma_cardinality_of_set();
    assert(stack.to_set().subset_of(now.to_set())) by {
        assert forall|v: ValueOrAlias| #[trigger] stack.to_set().contains(v) implies now.to_set().contains(
        v) by {
            assert(stack.contains(v));
        }
    }
    vstd::set_lib::lemma_len_subset(stack.to_set(), now.to_set());
    vstd::set_lib::lemma_subset_equality(stack.to_set(), now.to_set());
    now.lemma_no_dup_set_cardinality();
    assert forall|v: ValueOrAlias| #[trigger] now.contains(v) implies stack.contains(v) by {
        assert(now.to_set().contains(v));
        assert(stack.to_set().contains(v));
    }
}

/// The nodes of the graph are nodes of the stack.
proof fn nodes_are_nodes(
    stack: Seq<ValueOrAlias>,
    goal: Seq<ValueOrAlias>,
    nodes: Set<Operand>,
    edges: Set<(Operand, Operand)>,
)
    requires
        is_move_graph(stack, goal, nodes, edges),
    ensures
        forall|x: Operand| #[trigger]
            nodes.contains(x) ==> is_node(stack, x) && !in_place(stack, goal, x.pos as int),
{
    reveal(is_move_graph);
}

/// The operands of a component that was not handled yet are where they were.
proof fn untouched_component(
    stack: Seq<ValueOrAlias>,
    goal: Seq<ValueOrAlias>,
    now: Seq<ValueOrAlias>,
    nodes: Set<Operand>,
    edges: Set<(Operand, Operand)>,
    components: Seq<Vec<Operand>>,
    k: int,
)
    requires
        is_move_graph(stack, goal, nodes, edges),
        is_rotation(nodes, edges),
        scc::are_classes(edges, components),
        forall|x: Operand| #[trigger] nodes.contains(x) <==> scc::covered(components, x),
        resolved(stack, now, edges, components, k),
        0 <= k < components.len(),
    ensures
        components[k]@.len() > 0,
        forall|x: Operand| #[trigger] components[k]@.contains(x) ==> is_node(now, x),
{
    nodes_are_nodes(stack, goal, nodes, edges);
    assert forall|x: Operand| #[trigger] components[k]@.contains(x) implies is_node(now, x) by {
        assert(scc::covered(components, x));
        assert(nodes.contains(x));
        assert(is_node(stack, x));
        graph::reach_self(edges, x);
        assert forall|i: int| 0 <= i < k implies free(#[trigger] components[i]@, x.pos as int) by {
            assert forall|y: Operand| #[trigger] components[i]@.contains(y) implies y.pos
                != x.pos by {
                assert(scc::covered(components, y));
                assert(nodes.contains(y));
                if y.pos == x.pos {
                    assert(x == y);
                    assert(graph::mutual(edges, x, y));
                }
            }
        }
        assert(now[x.pos as int] == stack[x.pos as int]);
    }
}

/// Handling one more component leaves the others as they are.
proof fn one_more_resolved(
    stack: Seq<ValueOrAlias>,
    before: Seq<ValueOrAlias>,
    after: Seq<ValueOrAlias>,
    nodes: Set<Operand>,
    edges: Set<(Operand, Operand)>,
    components: Seq<Vec<Operand>>,
    k: int,
)
    requires
        is_rotation(nodes, edges),
        scc::are_classes(edges, components),
        forall|x: Operand| #[trigger] nodes.contains(x) <==> scc::covered(components, x),
        forall|x: Operand| #[trigger] nodes.contains(x) ==> is_node(stack, x),
        0 <= k < components.len(),
        resolved(stack, before, edges, components, k),
        after.len() == before.len(),
        forall|a: Operand, b: Operand| #[trigger]
            edges.contains((a, b)) && components[k]@.contains(a) ==> after[b.pos as int] == a.value,
        forall|p: int|
            0 <= p < before.len() && free(components[k]@, p) ==> #[trigger] after[p] == before[p],
    ensures
        resolved(stack, after, edges, components, k + 1),
{
    assert forall|i: int, a: Operand, b: Operand|
        #![trigger components[i]@.contains(a), edges.contains((a, b))]
        0 <= i < k + 1 && components[i]@.contains(a) && edges.contains(
            (a, b),
        ) implies after[b.pos as int] == a.value by {
        if i < k {
            assert(before[b.pos as int] == a.value);
            component_is_class(nodes, edges, components, i);
            edge_in_component(nodes, edges, components[i]@, a, b);
            assert(scc::covered(components, b));
            assert(nodes.contains(b));
            assert(free(components[k]@, b.pos as int)) by {
                assert forall|y: Operand| #[trigger] components[k]@.contains(y) implies y.pos
                    != b.pos by {
                    assert(scc::covered(components, y));
                    assert(nodes.contains(y));
                    if y.pos == b.pos {
                        graph::reach_self(edges, y);
                        assert(graph::mutual(edges, b, y));
                    }
                }
            }
            assert(after[b.pos as int] == before[b.pos as int]);
        }
    }
    assert forall|p: int|
        0 <= p < stack.len() && (forall|i: int|
            0 <= i < k + 1 ==> free(#[trigger] components[i]@, p)) implies #[trigger] after[p]
        == stack[p] by {
        assert(free(components[k]@, p));
        assert(after[p] == before[p]);
        assert forall|i: int| 0 <= i < k implies free(#[trigger] components[i]@, p) by {}
        assert(before[p] == stack[p]);
    }
}

/// Once all components are handled, the expected operands are in place, and none is lost.
proof fn moves_are_done(
    stack: Seq<ValueOrAlias>,
    goal: Seq<ValueOrAlias>,
    now: Seq<ValueOrAlias>,
    nodes: Set<Operand>,
    edges: Set<(Operand, Operand)>,
    components: Seq<Vec<Operand>>,
)
    requires
        stack.len() <= 255,
        goal.len() <= stack.len(),
        forall|j: int| 0 <= j < goal.len() ==> stack.contains(#[trigger] goal[j]),
        is_move_graph(stack, goal, nodes, edges),
        is_rotation(nodes, edges),
        scc::are_classes(edges, components),
        forall|x: Operand| #[trigger] nodes.contains(x) <==> scc::covered(components, x),
        resolved(stack, now, edges, components, components.len() as int),
    ensures
        forall|j: int| 0 <= j < goal.len() ==> #[trigger] now[j] == goal[j],
        forall|v: ValueOrAlias| #[trigger] stack.contains(v) ==> now.contains(v),
{
    nodes_are_nodes(stack, goal, nodes, edges);
    // A position without a node is free in every component.
    assert forall|p: int| 0 <= p < stack.len() && !nodes.contains(node_at(stack, p)) implies #[trigger] now[p]
        == stack[p] by {
        assert forall|k: int| 0 <= k < components.len() implies free(#[trigger] components[k]@, p) by {
            assert forall|y: Operand| #[trigger] components[k]@.contains(y) implies y.pos != p by {
                assert(scc::covered(components, y));
                assert(nodes.contains(y));
                if y.pos == p {
                    assert(y == node_at(stack, p));
                }
            }
        }
    }
    assert forall|j: int| 0 <= j < goal.len() implies #[trigger] now[j] == goal[j] by {
        let p = choose|p: int| 0 <= p < stack.len() && stack[p] == goal[j];
        if p == j {
            assert(in_place(stack, goal, j));
            assert(!nodes.contains(node_at(stack, j)));
        } else {
            let a = node_at(stack, p);
            let b = node_at(stack, j);
            assert(edges.contains((a, b))) by {
                reveal(is_move_graph);
            }
            assert(nodes.contains(a)) by {
                reveal(is_rotation);
            }
            let k = choose|k: int| 0 <= k < components.len() && #[trigger] components[k]@.contains(a);
            assert(now[b.pos as int] == a.value);
        }
    }
    assert forall|v: ValueOrAlias| #[trigger] stack.contains(v) implies now.contains(v) by {
        let p = choose|p: int| 0 <= p < stack.len() && stack[p] == v;
        let a = node_at(stack, p);
        if nodes.contains(a) {
            assert(has_next(edges, a)) by {
                reveal(is_move_graph);
            }
            let b = choose|b: Operand| edges.contains((a, b));
            let k = choose|k: int| 0 <= k < components.len() && #[trigger] components[k]@.contains(a);
            assert(now[b.pos as int] == a.value);
            assert(nodes.contains(b)) by {
                reveal(is_rotation);
            }
            assert(is_node(stack, b));
        } else {
            assert(now[p] == stack[p]);
        }
    }
}

} // verus!
