use mushin::graph::node::{BinaryRule, UnaryRule};
use mushin::{Constant, Graph, IntTensor, Node, Numeric, Shape, Tape, Tensor, Variable};

fn scalar(v: i64) -> IntTensor {
    IntTensor::fill(Shape::new(1, 1, 1, 1), v).unwrap()
}

fn tape(ids: &[usize]) -> Tape {
    let mut tape = Tape::new();
    for id in ids {
        tape.push(*id);
    }
    tape
}

/// x, y = x * x, z = y * x, with copies of the operands captured.
fn cube() -> Graph<IntTensor> {
    let mut g = Graph::new();
    let x = scalar(3);
    g.push(Node::declaration(0, x.duplicate()));
    let y = x.mul(&x);
    g.push(Node::binary_varvar(
        1,
        y.duplicate(),
        (0, 0),
        BinaryRule::Mul,
        vec![x.duplicate(), x.duplicate()],
    ));
    let z = y.mul(&x);
    g.push(Node::binary_varvar(
        2,
        z,
        (1, 0),
        BinaryRule::Mul,
        vec![y, x],
    ));
    g
}

#[test]
fn new_graph_is_empty() {
    let g: Graph<IntTensor> = Graph::new();
    assert_eq!(g.len(), 0);
}

#[test]
fn push_hands_out_positions_as_identifiers() {
    let g = cube();
    assert_eq!(g.len(), 3);
    for id in 0..3 {
        assert_eq!(g.node(id).id(), id);
    }
    assert_eq!(g.node(0).ancestors(), (None, None));
    assert_eq!(g.node(1).ancestors(), (Some(0), Some(0)));
    assert_eq!(g.node(2).ancestors(), (Some(1), Some(0)));
}

#[test]
fn ancestors_name_the_tracked_operands_only() {
    let unary = Node::unary(5, scalar(1), 3, UnaryRule::Neg, Vec::new());
    assert_eq!(unary.ancestors(), (Some(3), None));
    let first = Node::binary_varconst(5, scalar(1), 2, BinaryRule::Add, Vec::new());
    assert_eq!(first.ancestors(), (Some(2), None));
    let second = Node::binary_constvar(5, scalar(1), 4, BinaryRule::Add, Vec::new());
    assert_eq!(second.ancestors(), (None, Some(4)));
}

#[test]
fn seed_sets_one_gradient_to_ones() {
    let mut g = cube();
    g.seed(1);
    assert_eq!(*g.node(0).grad(), scalar(0));
    assert_eq!(*g.node(1).grad(), scalar(1));
    assert_eq!(*g.node(2).grad(), scalar(0));
}

#[test]
fn reverse_adds_both_partials_to_a_node_used_twice() {
    let mut g = cube();
    g.seed(1);
    g.reverse(1);
    // y = x * x hands 3 to x for each operand
    assert_eq!(*g.node(0).grad(), scalar(6));
    assert_eq!(*g.node(1).grad(), scalar(1));
    g.reverse(0);
    assert_eq!(*g.node(0).grad(), scalar(6));
}

#[test]
fn sweep_visits_the_tape_from_its_end() {
    let mut g = cube();
    g.seed(2);
    g.sweep(&tape(&[0, 1, 2]));
    // z = x^3 at x = 3: dz/dy = 3, dz/dx = 27
    assert_eq!(*g.node(2).grad(), scalar(1));
    assert_eq!(*g.node(1).grad(), scalar(3));
    assert_eq!(*g.node(0).grad(), scalar(27));
}

#[test]
fn sweep_over_the_empty_tape_changes_nothing() {
    let mut g = cube();
    g.seed(2);
    g.sweep(&Tape::new());
    assert_eq!(*g.node(2).grad(), scalar(1));
    assert_eq!(*g.node(1).grad(), scalar(0));
    assert_eq!(*g.node(0).grad(), scalar(0));
}

#[test]
fn clear_zeroes_the_nodes_on_the_tape_only() {
    let mut g = cube();
    g.seed(2);
    g.sweep(&tape(&[0, 1, 2]));
    g.clear(&tape(&[0, 1]));
    assert_eq!(*g.node(0).grad(), scalar(0));
    assert_eq!(*g.node(1).grad(), scalar(0));
    assert_eq!(*g.node(2).grad(), scalar(1));
    assert_eq!(*g.node(0).data(), scalar(3));
    assert_eq!(*g.node(2).data(), scalar(27));
}

#[test]
fn holds_accepts_histories_of_the_graph() {
    let g = cube();
    assert!(g.holds(&tape(&[0]), 0));
    assert!(g.holds(&tape(&[0, 1]), 1));
    assert!(g.holds(&tape(&[0, 1, 2]), 2));
}

#[test]
fn holds_rejects_what_is_no_history() {
    let g = cube();
    // empty, not ending in the node, not closed under operands, out of the graph
    assert!(!g.holds(&Tape::new(), 0));
    assert!(!g.holds(&tape(&[0, 1]), 0));
    assert!(!g.holds(&tape(&[1]), 1));
    assert!(!g.holds(&tape(&[0, 2]), 2));
    assert!(!g.holds(&tape(&[0, 1, 2, 3]), 3));
    assert!(!g.holds(&tape(&[7]), 7));
}

#[test]
fn tapes_built_by_pushing_are_ordered() {
    assert!(Tape::new().is_ordered());
    assert!(tape(&[4, 2, 9, 2]).is_ordered());
    assert!(tape(&[0]).is_ordered());
}

#[test]
fn variables_belong_to_the_graph_that_made_them() {
    let mut g = Graph::new();
    let x = Variable::declare(&mut g, scalar(2));
    let y = x.push_unary(&mut g, scalar(-2), UnaryRule::Neg, Vec::new());
    assert!(x.belongs_to(&g));
    assert!(y.belongs_to(&g));

    let mut other: Graph<IntTensor> = Graph::new();
    assert!(!y.belongs_to(&other));
    let lone = Variable::declare(&mut other, scalar(1));
    assert!(lone.belongs_to(&other));
    assert!(!y.belongs_to(&other));

    let plain: Tensor<IntTensor> = Tensor::Constant(Constant::new(scalar(1)));
    assert!(plain.fits(&g));
    assert!(plain.fits(&other));
    assert!(Tensor::<IntTensor>::Variable(y.clone()).fits(&g));
    assert!(!Tensor::<IntTensor>::Variable(y).fits(&other));
}

#[test]
fn variables_stay_valid_while_the_graph_grows_and_gradients_change() {
    let mut g = Graph::new();
    let x = Variable::declare(&mut g, scalar(2));
    let y = x.push_unary(&mut g, scalar(-2), UnaryRule::Neg, Vec::new());
    for value in 0..5 {
        Variable::declare(&mut g, scalar(value));
    }
    y.backward(&mut g);
    y.reset(&mut g);
    y.backward(&mut g);
    assert!(x.belongs_to(&g));
    assert!(y.belongs_to(&g));
    assert_eq!(x.grad(&g), scalar(-1));
}
