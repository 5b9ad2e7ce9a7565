use mushin::exact::IntTensor;
use mushin::{Gradients, Graph, Numeric, Shape, Tensor};

#[test]
fn test_fill() {
    let mut g = Graph::new();
    let x = mushin::fill(&mut g, Shape::new(1, 2, 3, 4), 2).unwrap();
    assert_eq!(x.data(&g), IntTensor::new(Shape::new(1, 2, 3, 4), vec![2; 24]).unwrap());
}

#[test]
fn test_eye() {
    let mut g = Graph::new();
    let x = mushin::eye(&mut g, Shape::new(1, 2, 3, 4), 2).unwrap();
    let channel = [2, 0, 0, 0, 2, 0, 0, 0, 2, 0, 0, 0];
    let mut expected = channel.to_vec();
    expected.extend_from_slice(&channel);
    assert_eq!(*x.data(&g).elements(), expected);
    assert_eq!(x.data(&g).shape(), Shape::new(1, 2, 3, 4));
}

#[test]
fn test_custom() {
    let mut g = Graph::new();
    let x = mushin::custom(&mut g, Shape::new(1, 1, 1, 1), &[1]).unwrap();
    assert_eq!(x.data(&g), IntTensor::fill(Shape::new(1, 1, 1, 1), 1).unwrap());
}

#[test]
fn generators_declare_tracked_tensors_with_zero_gradient() {
    let mut g = Graph::new();
    let shape = Shape::new(1, 1, 2, 2);
    let a = mushin::fill(&mut g, shape, 7).unwrap();
    let b = mushin::eye(&mut g, shape, 7).unwrap();
    let c = mushin::custom(&mut g, shape, &[1, 2, 3, 4]).unwrap();
    assert_eq!(g.len(), 3);
    for (id, t) in [&a, &b, &c].into_iter().enumerate() {
        assert!(t.is_variable());
        assert_eq!(t.grad(&g).data(&g), IntTensor::fill(shape, 0).unwrap());
        assert!(g.node(id).is_declaration());
        match t {
            Tensor::Variable(v) => assert_eq!(*v.tape().nodes(), vec![id]),
            Tensor::Constant(_) => panic!("a generated tensor is tracked"),
        }
    }
}

#[test]
fn generators_reject_what_does_not_fit() {
    let mut g = Graph::new();
    let huge = Shape::new(u64::MAX, u64::MAX, 2, 2);
    assert!(mushin::fill(&mut g, huge, 1).is_none());
    assert!(mushin::eye(&mut g, huge, 1).is_none());
    assert!(mushin::custom(&mut g, Shape::new(1, 1, 2, 2), &[1, 2, 3]).is_none());
    assert!(mushin::custom(&mut g, Shape::new(1, 1, 2, 2), &[1, 2, 3, 4, 5]).is_none());
    assert_eq!(g.len(), 0);
    assert!(IntTensor::new(Shape::new(1, 1, 2, 2), vec![1, 2, 3]).is_none());
}

#[test]
fn empty_tensors_are_tensors() {
    let mut g = Graph::new();
    let empty = Shape::new(1, 1, 0, 5);
    let x = mushin::fill(&mut g, empty, 3).unwrap();
    assert_eq!(x.data(&g).elements().len(), 0);
    let z = mushin::sum(&mut g, &x);
    assert_eq!(*z.data(&g).elements(), vec![0]);
    z.backward(&mut g);
    assert_eq!(x.grad(&g).data(&g).elements().len(), 0);
    assert_eq!(Shape::new(5, 0, 1, 1).count(), Some(0));
    assert_eq!(Shape::new(u64::MAX, u64::MAX, 1, 0).count(), Some(0));
    assert_eq!(Shape::new(u64::MAX, 0, u64::MAX, 5).count(), Some(0));
}

#[test]
fn shape_folds_into_a_row_per_batch_entry() {
    assert_eq!(Shape::new(2, 3, 4, 5).flattened(), Some(Shape::new(2, 1, 1, 60)));
    assert_eq!(Shape::new(1, 1, 1, 1).flattened(), Some(Shape::new(1, 1, 1, 1)));
    assert_eq!(Shape::new(7, u64::MAX, 1, 1).flattened(), Some(Shape::new(7, 1, 1, u64::MAX)));
    assert_eq!(Shape::new(7, u64::MAX, 2, 1).flattened(), None);
    assert_eq!(Shape::new(7, u64::MAX, 2, 0).flattened(), Some(Shape::new(7, 1, 1, 0)));
    assert_eq!(Shape::new(7, 1 << 32, 1 << 31, 2).flattened(), None);
}

#[test]
fn shape_counts_its_elements() {
    assert_eq!(Shape::new(2, 3, 4, 5).count(), Some(120));
    assert_eq!(Shape::unit().count(), Some(1));
    assert_eq!(Shape::unit(), Shape::new(1, 1, 1, 1));
    assert_eq!(Shape::new(u64::MAX, 2, 1, 1).count(), None);
    assert_eq!(Shape::new(1, 1, u64::MAX, u64::MAX).count(), None);
    assert_eq!(Shape::new(1 << 32, 1 << 31, 1, 2).count(), None);
}

#[test]
fn arithmetic_wraps_around() {
    let scalar = Shape::new(1, 1, 1, 1);
    let max = IntTensor::fill(scalar, i64::MAX).unwrap();
    let one = IntTensor::fill(scalar, 1).unwrap();
    let two = IntTensor::fill(scalar, 2).unwrap();
    let min = IntTensor::fill(scalar, i64::MIN).unwrap();
    assert_eq!(max.add(&one), min);
    assert_eq!(min.sub(&one), max);
    assert_eq!(max.mul(&two), IntTensor::fill(scalar, -2).unwrap());
    assert_eq!(min.neg(), min);
    assert_eq!(max.scale(&two), IntTensor::fill(scalar, -2).unwrap());
    let pair = IntTensor::custom(Shape::new(1, 1, 1, 2), &[i64::MAX, 1]).unwrap();
    assert_eq!(pair.sum(), min);
}

#[test]
fn kernels_of_the_integer_tensor() {
    let shape = Shape::new(1, 1, 2, 2);
    let a = IntTensor::custom(shape, &[1, 2, 3, 4]).unwrap();
    let b = IntTensor::custom(shape, &[5, 6, 7, 8]).unwrap();
    assert_eq!(a.dims(), shape);
    assert_eq!(a.duplicate(), a);
    assert_eq!(a.clone(), a);
    assert_eq!(*a.zeros_like().elements(), vec![0, 0, 0, 0]);
    assert_eq!(*a.ones_like().elements(), vec![1, 1, 1, 1]);
    assert_eq!(*a.add(&b).elements(), vec![6, 8, 10, 12]);
    assert_eq!(*a.sub(&b).elements(), vec![-4, -4, -4, -4]);
    assert_eq!(*a.mul(&b).elements(), vec![5, 12, 21, 32]);
    assert_eq!(*a.neg().elements(), vec![-1, -2, -3, -4]);
    let c = IntTensor::custom(shape, &[4, 2, 1, 9]).unwrap();
    assert_eq!(*a.maxof(&c).elements(), vec![4, 2, 3, 9]);
    assert_eq!(*a.gt(&c).elements(), vec![0, 0, 1, 0]);
    assert_eq!(*c.gt(&a).elements(), vec![1, 0, 0, 1]);
    assert_eq!(*a.scale(&IntTensor::fill(Shape::unit(), 3).unwrap()).elements(), vec![3, 6, 9, 12]);
    assert_eq!(*a.sum().elements(), vec![10]);
    assert_eq!(a.sum().shape(), Shape::unit());
    let flat = a.reshape(Shape::new(1, 1, 1, 4));
    assert_eq!(flat.shape(), Shape::new(1, 1, 1, 4));
    assert_eq!(*flat.elements(), vec![1, 2, 3, 4]);
    // a = [[1, 3], [2, 4]] and b = [[5, 7], [6, 8]]
    assert_eq!(*a.matmul(&b, false, false).elements(), vec![23, 34, 31, 46]);
    assert_eq!(*a.matmul(&b, true, false).elements(), vec![17, 39, 23, 53]);
    assert_eq!(*a.matmul(&b, false, true).elements(), vec![26, 38, 30, 44]);
    assert_eq!(*a.matmul(&b, true, true).elements(), vec![19, 43, 22, 50]);
}

#[test]
fn matmul_of_rectangular_and_empty_matrices() {
    let a = IntTensor::custom(Shape::new(1, 1, 2, 3), &[1, 4, 2, 5, 3, 6]).unwrap();
    let b = IntTensor::custom(Shape::new(1, 1, 2, 3), &[1, 0, 0, 1, 2, 2]).unwrap();
    // a times the transposed b: 2 x 2
    assert_eq!(*a.matmul(&b, false, true).elements(), vec![7, 16, 8, 17]);
    // the transposed a times b: 3 x 3
    assert_eq!(
        *a.matmul(&b, true, false).elements(),
        vec![1, 2, 3, 4, 5, 6, 10, 14, 18]
    );
    let none = IntTensor::fill(Shape::new(1, 1, 2, 0), 0).unwrap();
    let other = IntTensor::fill(Shape::new(1, 1, 0, 3), 0).unwrap();
    let product = none.matmul(&other, false, false);
    assert_eq!(product.shape(), Shape::new(1, 1, 2, 3));
    assert_eq!(*product.elements(), vec![0; 6]);
    let nothing = other.matmul(&none, true, true);
    assert_eq!(nothing.shape(), Shape::new(1, 1, 3, 2));
}

#[test]
fn gradients_are_computed_from_zero() {
    let mut g = Graph::new();
    let scalar = Shape::new(1, 1, 1, 1);
    let x = mushin::fill(&mut g, scalar, 3).unwrap();
    let y = mushin::fill(&mut g, scalar, 4).unwrap();
    let z = mushin::ops::mul(&mut g, &x, &y).unwrap();
    z.backward(&mut g);
    let (x, y, z) = match (x, y, z) {
        (Tensor::Variable(x), Tensor::Variable(y), Tensor::Variable(z)) => (x, y, z),
        _ => panic!("all three are tracked"),
    };
    let gradients = Gradients::compute(&mut g, &z);
    assert_eq!(*gradients.wrt(&x).value(), IntTensor::fill(scalar, 4).unwrap());
    assert_eq!(*gradients.wrt(&y).value(), IntTensor::fill(scalar, 3).unwrap());
    assert_eq!(*gradients.wrt(&z).value(), IntTensor::fill(scalar, 1).unwrap());
    let again = Gradients::compute(&mut g, &z);
    assert_eq!(*again.wrt(&x).value(), IntTensor::fill(scalar, 4).unwrap());
    assert_eq!(x.grad(&g), IntTensor::fill(scalar, 4).unwrap());
}
