use mushin::{Constant, Graph, IntTensor, OpError, Shape, Tensor};

fn data(t: &Tensor<IntTensor>, g: &Graph<IntTensor>) -> IntTensor {
    t.data(g)
}

fn grad(t: &Tensor<IntTensor>, g: &Graph<IntTensor>) -> IntTensor {
    t.grad(g).data(g)
}

fn tensor(shape: Shape, values: &[i64]) -> IntTensor {
    IntTensor::custom(shape, values).unwrap()
}

fn constant(shape: Shape, v: i64) -> IntTensor {
    IntTensor::fill(shape, v).unwrap()
}

#[test]
fn reshape_forward_backward() {
    let mut g = Graph::new();
    let x = mushin::eye(&mut g, Shape::new(1, 1, 3, 2), 3).unwrap();
    let z = mushin::reshape(&mut g, &x, Shape::new(1, 1, 1, 6)).unwrap();
    assert_eq!(data(&z, &g), tensor(Shape::new(1, 1, 1, 6), &[3, 0, 0, 0, 3, 0]));

    z.backward(&mut g);
    assert_eq!(grad(&x, &g), tensor(Shape::new(1, 1, 3, 2), &[1, 1, 1, 1, 1, 1]));
}

#[test]
fn add_forward_backward() {
    let mut g = Graph::new();
    let shape = Shape::new(1, 1, 3, 2);
    let x = mushin::eye(&mut g, shape, 3).unwrap();
    let y = mushin::fill(&mut g, shape, 2).unwrap();
    let z = mushin::ops::add(&mut g, &x, &y).unwrap();
    assert_eq!(data(&z, &g), tensor(shape, &[5, 2, 2, 2, 5, 2]));

    z.backward(&mut g);
    assert_eq!(grad(&x, &g), constant(shape, 1));
    assert_eq!(grad(&y, &g), constant(shape, 1));
}

#[test]
fn sub_forward_backward() {
    let mut g = Graph::new();
    let shape = Shape::new(1, 1, 3, 2);
    let x = mushin::eye(&mut g, shape, 3).unwrap();
    let y = mushin::fill(&mut g, shape, 2).unwrap();
    let z = mushin::ops::sub(&mut g, &x, &y).unwrap();
    assert_eq!(data(&z, &g), tensor(shape, &[1, -2, -2, -2, 1, -2]));

    z.backward(&mut g);
    assert_eq!(grad(&x, &g), constant(shape, 1));
    assert_eq!(grad(&y, &g), constant(shape, -1));
}

#[test]
fn mul_forward_backward() {
    let mut g = Graph::new();
    let shape = Shape::new(1, 1, 3, 2);
    let x = mushin::eye(&mut g, shape, 3).unwrap();
    let y = mushin::fill(&mut g, shape, 2).unwrap();
    let z = mushin::ops::mul(&mut g, &x, &y).unwrap();
    assert_eq!(data(&z, &g), tensor(shape, &[6, 0, 0, 0, 6, 0]));

    z.backward(&mut g);
    assert_eq!(grad(&x, &g), constant(shape, 2));
    assert_eq!(grad(&y, &g), IntTensor::eye(shape, 3).unwrap());
}

#[test]
fn mm_forward_backward() {
    let mut g = Graph::new();
    let x = mushin::eye(&mut g, Shape::new(1, 1, 3, 2), 3).unwrap();
    let y = mushin::eye(&mut g, Shape::new(1, 1, 2, 4), 2).unwrap();
    let z = mushin::mm(&mut g, &x, &y).unwrap();
    assert_eq!(
        data(&z, &g),
        tensor(Shape::new(1, 1, 3, 4), &[6, 0, 0, 0, 6, 0, 0, 0, 0, 0, 0, 0])
    );

    z.backward(&mut g);
    assert_eq!(grad(&x, &g), constant(Shape::new(1, 1, 3, 2), 2));
    assert_eq!(grad(&y, &g), constant(Shape::new(1, 1, 2, 4), 3));
}

#[test]
fn mm_of_general_matrices() {
    let mut g = Graph::new();
    // x = [[1, 2, 3], [4, 5, 6]] and y = [[7, 8], [9, 10], [11, 12]], column by column
    let x = mushin::custom(&mut g, Shape::new(1, 1, 2, 3), &[1, 4, 2, 5, 3, 6]).unwrap();
    let y = mushin::custom(&mut g, Shape::new(1, 1, 3, 2), &[7, 9, 11, 8, 10, 12]).unwrap();
    let z = mushin::mm(&mut g, &x, &y).unwrap();
    assert_eq!(data(&z, &g), tensor(Shape::new(1, 1, 2, 2), &[58, 139, 64, 154]));
    z.backward(&mut g);
    // ones (2 x 2) times the transposed y, and the transposed x times ones
    assert_eq!(grad(&x, &g), tensor(Shape::new(1, 1, 2, 3), &[15, 15, 19, 19, 23, 23]));
    assert_eq!(grad(&y, &g), tensor(Shape::new(1, 1, 3, 2), &[5, 7, 9, 5, 7, 9]));
}

#[test]
fn neg_forward_backward() {
    let mut g = Graph::new();
    let shape = Shape::new(1, 1, 1, 3);
    let x = mushin::custom(&mut g, shape, &[1, -2, 0]).unwrap();
    let z = mushin::ops::neg(&mut g, &x);
    assert_eq!(data(&z, &g), tensor(shape, &[-1, 2, 0]));
    z.backward(&mut g);
    assert_eq!(grad(&x, &g), constant(shape, -1));
}

#[test]
fn sum_forward_backward() {
    let mut g = Graph::new();
    let shape = Shape::new(2, 1, 2, 2);
    let x = mushin::custom(&mut g, shape, &[1, 2, 3, 4, 5, 6, 7, 8]).unwrap();
    let z = mushin::sum(&mut g, &x);
    assert_eq!(data(&z, &g), tensor(Shape::new(1, 1, 1, 1), &[36]));
    z.backward(&mut g);
    assert_eq!(grad(&x, &g), constant(shape, 1));
}

#[test]
fn sum_scales_the_incoming_gradient() {
    let mut g = Graph::new();
    let shape = Shape::new(1, 1, 1, 3);
    let x = mushin::custom(&mut g, shape, &[1, 2, 3]).unwrap();
    let s = mushin::sum(&mut g, &x);
    let five = Tensor::Constant(Constant::new(constant(Shape::new(1, 1, 1, 1), 5)));
    let z = mushin::ops::mul(&mut g, &s, &five).unwrap();
    assert_eq!(data(&z, &g), tensor(Shape::new(1, 1, 1, 1), &[30]));
    z.backward(&mut g);
    assert_eq!(grad(&x, &g), constant(shape, 5));
}

#[test]
fn elementwise_operations_reject_different_shapes() {
    let mut g = Graph::new();
    let x = mushin::fill(&mut g, Shape::new(1, 1, 3, 2), 1).unwrap();
    let y = mushin::fill(&mut g, Shape::new(1, 1, 2, 3), 1).unwrap();
    let nodes = g.len();
    assert_eq!(mushin::ops::add(&mut g, &x, &y).unwrap_err(), OpError::ShapeMismatch);
    assert_eq!(mushin::ops::sub(&mut g, &x, &y).unwrap_err(), OpError::ShapeMismatch);
    assert_eq!(mushin::ops::mul(&mut g, &x, &y).unwrap_err(), OpError::ShapeMismatch);
    assert_eq!(g.len(), nodes);
}

#[test]
fn mm_rejects_operands_that_do_not_fit() {
    let mut g = Graph::new();
    let x = mushin::fill(&mut g, Shape::new(1, 1, 3, 2), 1).unwrap();
    let y = mushin::fill(&mut g, Shape::new(1, 1, 3, 2), 1).unwrap();
    let batched = mushin::fill(&mut g, Shape::new(2, 1, 2, 2), 1).unwrap();
    let channels = mushin::fill(&mut g, Shape::new(1, 2, 2, 2), 1).unwrap();
    let square = mushin::fill(&mut g, Shape::new(1, 1, 2, 2), 1).unwrap();
    let nodes = g.len();
    assert_eq!(mushin::mm(&mut g, &x, &y).unwrap_err(), OpError::ShapeMismatch);
    assert_eq!(mushin::mm(&mut g, &x, &batched).unwrap_err(), OpError::ShapeMismatch);
    assert_eq!(mushin::mm(&mut g, &x, &channels).unwrap_err(), OpError::ShapeMismatch);
    assert_eq!(mushin::mm(&mut g, &batched, &square).unwrap_err(), OpError::ShapeMismatch);
    assert_eq!(g.len(), nodes);
    assert!(mushin::mm(&mut g, &x, &square).is_ok());
}

#[test]
fn reshape_rejects_another_element_count() {
    let mut g = Graph::new();
    let x = mushin::fill(&mut g, Shape::new(1, 1, 3, 2), 1).unwrap();
    let nodes = g.len();
    let r = mushin::reshape(&mut g, &x, Shape::new(1, 1, 1, 5));
    assert_eq!(r.unwrap_err(), OpError::ShapeMismatch);
    let r = mushin::reshape(&mut g, &x, Shape::new(u64::MAX, u64::MAX, 2, 3));
    assert_eq!(r.unwrap_err(), OpError::ShapeMismatch);
    assert_eq!(g.len(), nodes);
    let r = mushin::reshape(&mut g, &x, Shape::new(3, 2, 1, 1)).unwrap();
    assert_eq!(data(&r, &g).shape(), Shape::new(3, 2, 1, 1));
}

#[test]
fn operations_on_untracked_tensors_compute_without_recording() {
    let mut g: Graph<IntTensor> = Graph::new();
    let shape = Shape::new(1, 1, 1, 2);
    let a = Tensor::Constant(Constant::new(tensor(shape, &[2, 3])));
    let b = Tensor::Constant(Constant::new(tensor(shape, &[5, 7])));
    let sum = mushin::ops::add(&mut g, &a, &b).unwrap();
    let difference = mushin::ops::sub(&mut g, &a, &b).unwrap();
    let product = mushin::ops::mul(&mut g, &a, &b).unwrap();
    let negated = mushin::ops::neg(&mut g, &a);
    let total = mushin::sum(&mut g, &a);
    assert_eq!(data(&sum, &g), tensor(shape, &[7, 10]));
    assert_eq!(data(&difference, &g), tensor(shape, &[-3, -4]));
    assert_eq!(data(&product, &g), tensor(shape, &[10, 21]));
    assert_eq!(data(&negated, &g), tensor(shape, &[-2, -3]));
    assert_eq!(data(&total, &g), tensor(Shape::new(1, 1, 1, 1), &[5]));
    assert_eq!(g.len(), 0);
    for r in [&sum, &difference, &product, &negated, &total] {
        assert!(!r.is_variable());
    }
}

#[test]
fn product_of_three_factors() {
    let mut g = Graph::new();
    let scalar = Shape::new(1, 1, 1, 1);
    let a = mushin::fill(&mut g, scalar, 2).unwrap();
    let b = mushin::fill(&mut g, scalar, 3).unwrap();
    let c = mushin::fill(&mut g, scalar, 5).unwrap();
    let ab = mushin::ops::mul(&mut g, &a, &b).unwrap();
    let abc = mushin::ops::mul(&mut g, &ab, &c).unwrap();
    abc.backward(&mut g);
    assert_eq!(grad(&a, &g), constant(scalar, 15));
    assert_eq!(grad(&b, &g), constant(scalar, 10));
    assert_eq!(grad(&c, &g), constant(scalar, 6));
    assert_eq!(grad(&ab, &g), constant(scalar, 5));
}

#[test]
fn backward_from_an_inner_node_leaves_later_nodes_alone() {
    let mut g = Graph::new();
    let scalar = Shape::new(1, 1, 1, 1);
    let x = mushin::fill(&mut g, scalar, 3).unwrap();
    let y = mushin::ops::mul(&mut g, &x, &x).unwrap();
    let z = mushin::ops::mul(&mut g, &y, &y).unwrap();
    y.backward(&mut g);
    assert_eq!(grad(&x, &g), constant(scalar, 6));
    assert_eq!(grad(&y, &g), constant(scalar, 1));
    assert_eq!(grad(&z, &g), constant(scalar, 0));
}

#[test]
fn relu_forward_backward() {
    let mut g = Graph::new();
    let shape = Shape::new(1, 1, 2, 3);
    let x = mushin::custom(&mut g, shape, &[1, -1, -1, 1, -1, -1]).unwrap();
    let z = mushin::relu(&mut g, &x);

    assert_eq!(data(&z, &g), IntTensor::eye(shape, 1).unwrap());

    z.backward(&mut g);
    assert_eq!(grad(&x, &g), IntTensor::eye(shape, 1).unwrap());
}

#[test]
fn flatten_forward_backward() {
    let mut g = Graph::new();
    let x = mushin::fill(&mut g, Shape::new(2, 2, 3, 4), 2).unwrap();
    let z = mushin::flatten(&mut g, &x).unwrap();
    assert_eq!(data(&z, &g), constant(Shape::new(2, 1, 1, 24), 2));

    z.backward(&mut g);
    assert_eq!(grad(&x, &g), constant(Shape::new(2, 2, 3, 4), 1));
}

#[test]
fn flatten_rejects_a_width_beyond_the_type() {
    let mut g = Graph::new();
    let x = mushin::fill(&mut g, Shape::new(0, u64::MAX, 2, 1), 2).unwrap();
    let nodes = g.len();
    assert_eq!(mushin::flatten(&mut g, &x).unwrap_err(), OpError::ShapeMismatch);
    assert_eq!(g.len(), nodes);
    let y = mushin::fill(&mut g, Shape::new(3, u64::MAX, u64::MAX, 0), 2).unwrap();
    let flat = mushin::flatten(&mut g, &y).unwrap();
    assert_eq!(data(&flat, &g).shape(), Shape::new(3, 1, 1, 0));
}

#[test]
fn relu_scales_the_incoming_gradient_by_the_mask() {
    let mut g = Graph::new();
    let shape = Shape::new(1, 1, 1, 3);
    let x = mushin::custom(&mut g, shape, &[4, -4, 0]).unwrap();
    let r = mushin::relu(&mut g, &x);
    let z = mushin::ops::mul(&mut g, &r, &r).unwrap();
    assert_eq!(data(&z, &g), tensor(shape, &[16, 0, 0]));
    z.backward(&mut g);
    assert_eq!(grad(&x, &g), tensor(shape, &[8, 0, 0]));
}
