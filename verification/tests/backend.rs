use mushin::{Constant, Graph, Numeric, Shape, Tensor};

/// A tensor of floating-point numbers, to run the engine on another kind of value.
#[derive(Clone, Debug, PartialEq)]
struct Floats {
    shape: Shape,
    data: Vec<f64>,
}

impl Floats {
    fn new(shape: Shape, data: &[f64]) -> Self {
        assert_eq!(shape.count(), Some(data.len()));
        Floats { shape, data: data.to_vec() }
    }

    fn row(data: &[f64]) -> Self {
        Floats::new(Shape::new(1, 1, 1, data.len() as u64), data)
    }

    fn zip(a: &Floats, b: &Floats, f: fn(f64, f64) -> f64) -> Floats {
        let data = a.data.iter().zip(b.data.iter()).map(|(x, y)| f(*x, *y)).collect();
        Floats { shape: a.shape, data }
    }

    fn at(&self, row: usize, col: usize, transposed: bool) -> f64 {
        let height = self.shape.height as usize;
        if transposed {
            self.data[col + height * row]
        } else {
            self.data[row + height * col]
        }
    }
}

impl Numeric for Floats {
    type Model = Floats;

    fn model(&self) -> Floats {
        self.clone()
    }

    fn shape_of(m: Floats) -> Shape {
        m.shape
    }

    fn zeros_model(shape: Shape) -> Floats {
        Floats { shape, data: vec![0.0; shape.count().unwrap()] }
    }

    fn ones_model(shape: Shape) -> Floats {
        Floats { shape, data: vec![1.0; shape.count().unwrap()] }
    }

    fn add_model(a: Floats, b: Floats) -> Floats {
        Floats::zip(&a, &b, |x, y| x + y)
    }

    fn sub_model(a: Floats, b: Floats) -> Floats {
        Floats::zip(&a, &b, |x, y| x - y)
    }

    fn mul_model(a: Floats, b: Floats) -> Floats {
        Floats::zip(&a, &b, |x, y| x * y)
    }

    fn maxof_model(a: Floats, b: Floats) -> Floats {
        Floats::zip(&a, &b, f64::max)
    }

    fn gt_model(a: Floats, b: Floats) -> Floats {
        Floats::zip(&a, &b, |x, y| if x > y { 1.0 } else { 0.0 })
    }

    fn scale_model(a: Floats, k: Floats) -> Floats {
        Floats { shape: a.shape, data: a.data.iter().map(|x| x * k.data[0]).collect() }
    }

    fn neg_model(a: Floats) -> Floats {
        Floats { shape: a.shape, data: a.data.iter().map(|x| -x).collect() }
    }

    fn matmul_model(a: Floats, b: Floats, lhs_t: bool, rhs_t: bool) -> Floats {
        let (rows, inner) = if lhs_t {
            (a.shape.width, a.shape.height)
        } else {
            (a.shape.height, a.shape.width)
        };
        let cols = if rhs_t { b.shape.height } else { b.shape.width };
        let mut data = Vec::new();
        for c in 0..cols as usize {
            for r in 0..rows as usize {
                let mut acc = 0.0;
                for j in 0..inner as usize {
                    acc += a.at(r, j, lhs_t) * b.at(j, c, rhs_t);
                }
                data.push(acc);
            }
        }
        Floats { shape: Shape::new(1, 1, rows, cols), data }
    }

    fn reshape_model(a: Floats, shape: Shape) -> Floats {
        Floats { shape, data: a.data }
    }

    fn sum_model(a: Floats) -> Floats {
        Floats { shape: Shape::unit(), data: vec![a.data.iter().sum()] }
    }

    fn dims(&self) -> Shape {
        self.shape
    }

    fn duplicate(&self) -> Self {
        self.clone()
    }

    fn zeros_like(&self) -> Self {
        Self::zeros_model(self.shape)
    }

    fn ones_like(&self) -> Self {
        Self::ones_model(self.shape)
    }

    fn add(&self, rhs: &Self) -> Self {
        Self::add_model(self.clone(), rhs.clone())
    }

    fn sub(&self, rhs: &Self) -> Self {
        Self::sub_model(self.clone(), rhs.clone())
    }

    fn mul(&self, rhs: &Self) -> Self {
        Self::mul_model(self.clone(), rhs.clone())
    }

    fn maxof(&self, rhs: &Self) -> Self {
        Self::maxof_model(self.clone(), rhs.clone())
    }

    fn gt(&self, rhs: &Self) -> Self {
        Self::gt_model(self.clone(), rhs.clone())
    }

    fn scale(&self, k: &Self) -> Self {
        Self::scale_model(self.clone(), k.clone())
    }

    fn neg(&self) -> Self {
        Self::neg_model(self.clone())
    }

    fn matmul(&self, rhs: &Self, lhs_t: bool, rhs_t: bool) -> Self {
        Self::matmul_model(self.clone(), rhs.clone(), lhs_t, rhs_t)
    }

    fn reshape(&self, shape: Shape) -> Self {
        Self::reshape_model(self.clone(), shape)
    }

    fn sum(&self) -> Self {
        Self::sum_model(self.clone())
    }
}

fn declare(g: &mut Graph<Floats>, value: Floats) -> Tensor<Floats> {
    Tensor::Constant(Constant::new(value)).unfreeze(g)
}

fn gradient(t: &Tensor<Floats>, g: &Graph<Floats>) -> Vec<f64> {
    t.grad(g).data(g).data
}

#[test]
fn float_square_has_gradient_four_at_two() {
    let mut g = Graph::new();
    let x = declare(&mut g, Floats::row(&[2.0]));
    let z = mushin::ops::mul(&mut g, &x, &x).unwrap();
    z.backward(&mut g);
    assert_eq!(gradient(&x, &g), vec![4.0]);
}

#[test]
fn float_sum_of_a_sum_has_unit_gradients() {
    let mut g = Graph::new();
    let x = declare(&mut g, Floats::row(&[1.0, 2.0, 3.0]));
    let y = declare(&mut g, Floats::row(&[4.0, 5.0, 6.0]));
    let s = mushin::ops::add(&mut g, &x, &y).unwrap();
    let z = mushin::sum(&mut g, &s);
    assert_eq!(z.data(&g).data, vec![21.0]);
    z.backward(&mut g);
    assert_eq!(gradient(&x, &g), vec![1.0, 1.0, 1.0]);
    assert_eq!(gradient(&y, &g), vec![1.0, 1.0, 1.0]);
}

#[test]
fn float_product_with_a_constant() {
    let mut g = Graph::new();
    let a = declare(&mut g, Floats::row(&[2.0]));
    let b = Tensor::Constant(Constant::new(Floats::row(&[3.0])));
    let z = mushin::ops::mul(&mut g, &a, &b).unwrap();
    assert!(z.is_variable());
    z.backward(&mut g);
    assert_eq!(gradient(&a, &g), vec![3.0]);
    assert!(!b.is_variable());
}

#[test]
fn float_matrix_product_gradients() {
    let mut g = Graph::new();
    let x = declare(
        &mut g,
        Floats::new(Shape::new(1, 1, 3, 2), &[3.0, 0.0, 0.0, 0.0, 3.0, 0.0]),
    );
    let y = declare(
        &mut g,
        Floats::new(Shape::new(1, 1, 2, 4), &[2.0, 0.0, 0.0, 2.0, 0.0, 0.0, 0.0, 0.0]),
    );
    let z = mushin::mm(&mut g, &x, &y).unwrap();
    assert_eq!(
        z.data(&g).data,
        vec![6.0, 0.0, 0.0, 0.0, 6.0, 0.0, 0.0, 0.0, 0.0, 0.0, 0.0, 0.0]
    );
    z.backward(&mut g);
    assert_eq!(gradient(&x, &g), vec![2.0; 6]);
    assert_eq!(gradient(&y, &g), vec![3.0; 8]);
}

#[test]
fn float_difference_and_fractions() {
    let mut g = Graph::new();
    let x = declare(&mut g, Floats::row(&[0.5, 0.25]));
    let y = declare(&mut g, Floats::row(&[0.125, 2.0]));
    let d = mushin::ops::sub(&mut g, &x, &y).unwrap();
    let z = mushin::ops::mul(&mut g, &d, &x).unwrap();
    assert_eq!(z.data(&g).data, vec![0.1875, -0.4375]);
    z.backward(&mut g);
    // z = (x - y) x, so dz/dx = 2x - y and dz/dy = -x
    assert_eq!(gradient(&x, &g), vec![0.875, -1.5]);
    assert_eq!(gradient(&y, &g), vec![-0.5, -0.25]);
}

#[test]
fn float_relu_lets_positive_values_through() {
    let mut g = Graph::new();
    let x = declare(&mut g, Floats::row(&[0.5, -0.5, 0.0, 2.0]));
    let z = mushin::relu(&mut g, &x);
    assert_eq!(z.data(&g).data, vec![0.5, 0.0, 0.0, 2.0]);
    z.backward(&mut g);
    assert_eq!(gradient(&x, &g), vec![1.0, 0.0, 0.0, 1.0]);
}
