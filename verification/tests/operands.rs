use midenc::operands::graph::{DiGraph, Direction};
use midenc::operands::linear::{Linear, TacticError};
use midenc::operands::operand_set::{Operand, OperandSet, ValueOrAlias};
use midenc::operands::scc::kosaraju_scc;
use midenc::operands::solution::{Action, SolutionBuilder};

fn operand(pos: u8, value: u32) -> Operand {
    Operand { pos, value: ValueOrAlias { value, alias: 0 } }
}

fn values(list: &[u32]) -> Vec<ValueOrAlias> {
    list.iter().map(|v| ValueOrAlias { value: *v, alias: 0 }).collect()
}

fn played(stack: &[ValueOrAlias], actions: &Vec<Action>) -> Vec<ValueOrAlias> {
    let mut stack = stack.to_vec();
    for action in actions.iter() {
        match action {
            Action::Copy(i) => {
                let copied = stack[*i as usize];
                stack.insert(0, copied);
            }
            Action::Swap(i) => stack.swap(0, *i as usize),
            Action::MoveUp(i) => {
                let moved = stack.remove(*i as usize);
                stack.insert(0, moved);
            }
            Action::MoveDown(i) => {
                let moved = stack.remove(0);
                stack.insert(*i as usize, moved);
            }
        }
    }
    stack
}

#[test]
fn test_empty_graph() {
    let graph = DiGraph::new();
    let components = kosaraju_scc(&graph);
    assert!(components.is_empty());
}

#[test]
fn nodes_and_edges_are_kept_once() {
    let mut graph = DiGraph::new();
    let a = operand(0, 1);
    let b = operand(1, 2);
    graph.add_node(a);
    graph.add_node(a);
    graph.add_edge(a, b);
    graph.add_edge(a, b);
    assert_eq!(graph.nodes(), vec![a, b]);
    assert_eq!(graph.neighbors(a, Direction::Outgoing), vec![b]);
    assert_eq!(graph.neighbors(b, Direction::Incoming), vec![a]);
    assert!(graph.neighbors(b, Direction::Outgoing).is_empty());
}

#[test]
fn components_are_cycles_and_come_in_order() {
    // 0 and 1 are on a cycle, 2 is reached from it, 3 is on its own.
    let a = operand(0, 10);
    let b = operand(1, 11);
    let c = operand(2, 12);
    let d = operand(3, 13);
    let mut graph = DiGraph::new();
    graph.add_edge(a, b);
    graph.add_edge(b, a);
    graph.add_edge(b, c);
    graph.add_node(d);
    let components = kosaraju_scc(&graph);
    assert_eq!(components.len(), 3);
    let of = |node: Operand| components.iter().position(|comp| comp.contains(&node)).unwrap();
    assert_eq!(of(a), of(b));
    assert_ne!(of(a), of(c));
    assert_ne!(of(d), of(a));
    assert_ne!(of(d), of(c));
    // What an edge leads to comes first.
    assert!(of(c) < of(a));
}

#[test]
fn a_set_is_sorted_and_holds_nothing_twice() {
    let mut set = OperandSet::new();
    assert!(set.insert(operand(2, 5)));
    assert!(set.insert(operand(0, 9)));
    assert!(!set.insert(operand(2, 5)));
    assert_eq!(set.to_vec(), vec![operand(0, 9), operand(2, 5)]);
    assert!(set.contains(operand(0, 9)));
    assert!(!set.contains(operand(1, 9)));
}

#[test]
fn a_rotation_is_solved() {
    let stack = values(&[2, 3, 1]);
    let mut builder = SolutionBuilder::new(values(&[1, 2, 3]), &stack);
    let mut linear = Linear;
    assert!(linear.cost(&builder) > 0);
    assert!(linear.apply(&mut builder).is_ok());
    assert!(builder.is_valid());
    assert_eq!(played(&stack, builder.actions())[..3].to_vec(), values(&[1, 2, 3]));
}

#[test]
fn two_swapped_operands_take_one_action() {
    let stack = values(&[2, 1]);
    let mut builder = SolutionBuilder::new(values(&[1, 2]), &stack);
    assert!(Linear.apply(&mut builder).is_ok());
    assert!(builder.is_valid());
    assert_eq!(builder.actions().len(), 1);
}

#[test]
fn a_cycle_below_the_top_is_solved() {
    let stack = values(&[9, 2, 1, 4, 3]);
    let mut builder = SolutionBuilder::new(values(&[9, 1, 2, 3, 4]), &stack);
    assert!(Linear.apply(&mut builder).is_ok());
    assert!(builder.is_valid());
    assert_eq!(played(&stack, builder.actions()), values(&[9, 1, 2, 3, 4]));
}

#[test]
fn what_is_in_place_needs_no_action() {
    let stack = values(&[1, 2, 3]);
    let mut builder = SolutionBuilder::new(values(&[1, 2]), &stack);
    assert!(matches!(Linear.apply(&mut builder), Ok(()) | Err(TacticError::NotApplicable)));
    assert!(builder.is_valid());
    assert!(builder.actions().is_empty());
}

#[test]
fn an_alias_is_copied() {
    let aliased = ValueOrAlias { value: 1, alias: 1 };
    assert!(aliased.is_alias());
    assert_eq!(aliased.unaliased(), ValueOrAlias { value: 1, alias: 0 });
    let stack = values(&[1, 2]);
    let mut expected = values(&[2]);
    expected.push(aliased);
    let mut builder = SolutionBuilder::new(expected.clone(), &stack);
    assert!(Linear.apply(&mut builder).is_ok());
    assert!(builder.is_valid());
    let mut copies: usize = 0;
    for action in builder.actions().iter() {
        if matches!(action, Action::Copy(_)) {
            copies += 1;
        }
    }
    assert_eq!(copies, 1);
    let found = played(&stack, builder.actions());
    assert_eq!(found[0].value, 2);
    assert_eq!(found[1].value, 1);
}
