//! What the differentiation engine asks of a tensor value.
//!
//! The engine never looks inside a tensor. It reads its shape, copies it, and
//! combines tensors through the operations below. Each operation is described
//! by a function on the mathematical models of its operands, so that whatever
//! the engine computes can be stated over models alone.

use vstd::prelude::*;
use crate::shape::Shape;

verus! {

pub trait Numeric: Sized {
    /// The mathematical value that a tensor stands for.
    type Model;

    /// The value of this tensor.
    spec fn model(&self) -> Self::Model;

    /// The dimensions of a value.
    spec fn shape_of(m: Self::Model) -> Shape;

    /// The value of the given shape whose elements are all zero.
    spec fn zeros_model(shape: Shape) -> Self::Model;

    /// The value of the given shape whose elements are all one.
    spec fn ones_model(shape: Shape) -> Self::Model;

    /// Elementwise sum.
    spec fn add_model(a: Self::Model, b: Self::Model) -> Self::Model;

    /// Elementwise difference.
    spec fn sub_model(a: Self::Model, b: Self::Model) -> Self::Model;

    /// Elementwise product.
    spec fn mul_model(a: Self::Model, b: Self::Model) -> Self::Model;

    /// Every element of `a` multiplied by the single element of `k`.
    spec fn scale_model(a: Self::Model, k: Self::Model) -> Self::Model;

    /// Elementwise negation.
    spec fn neg_model(a: Self::Model) -> Self::Model;

    /// Elementwise maximum.
    spec fn maxof_model(a: Self::Model, b: Self::Model) -> Self::Model;

    /// One where the element of `a` is greater than that of `b`, zero elsewhere.
    spec fn gt_model(a: Self::Model, b: Self::Model) -> Self::Model;

    /// Matrix product, each operand optionally transposed first.
    spec fn matmul_model(a: Self::Model, b: Self::Model, lhs_t: bool, rhs_t: bool) -> Self::Model;

    /// The same elements in the same order under another shape.
    spec fn reshape_model(a: Self::Model, shape: Shape) -> Self::Model;

    /// The sum of all elements, as a value of shape `1 x 1 x 1 x 1`.
    spec fn sum_model(a: Self::Model) -> Self::Model;

    /// The dimensions of the tensor. No tensor holds more than `usize::MAX`
    /// elements.
    fn dims(&self) -> (s: Shape)
        ensures
            s == Self::shape_of(self.model()),
            s.numel() <= usize::MAX,
    ;

    /// A copy with the same value.
    fn duplicate(&self) -> (r: Self)
        ensures
            r.model() == self.model(),
    ;

    fn zeros_like(&self) -> (r: Self)
        ensures
            r.model() == Self::zeros_model(Self::shape_of(self.model())),
            Self::shape_of(r.model()) == Self::shape_of(self.model()),
    ;

    fn ones_like(&self) -> (r: Self)
        ensures
            r.model() == Self::ones_model(Self::shape_of(self.model())),
            Self::shape_of(r.model()) == Self::shape_of(self.model()),
    ;

    fn add(&self, rhs: &Self) -> (r: Self)
        requires
            Self::shape_of(self.model()) == Self::shape_of(rhs.model()),
        ensures
            r.model() == Self::add_model(self.model(), rhs.model()),
            Self::shape_of(r.model()) == Self::shape_of(self.model()),
    ;

    fn sub(&self, rhs: &Self) -> (r: Self)
        requires
            Self::shape_of(self.model()) == Self::shape_of(rhs.model()),
        ensures
            r.model() == Self::sub_model(self.model(), rhs.model()),
            Self::shape_of(r.model()) == Self::shape_of(self.model()),
    ;

    fn mul(&self, rhs: &Self) -> (r: Self)
        requires
            Self::shape_of(self.model()) == Self::shape_of(rhs.model()),
        ensures
            r.model() == Self::mul_model(self.model(), rhs.model()),
            Self::shape_of(r.model()) == Self::shape_of(self.model()),
    ;

    fn maxof(&self, rhs: &Self) -> (r: Self)
        requires
            Self::shape_of(self.model()) == Self::shape_of(rhs.model()),
        ensures
            r.model() == Self::maxof_model(self.model(), rhs.model()),
            Self::shape_of(r.model()) == Self::shape_of(self.model()),
    ;

    fn gt(&self, rhs: &Self) -> (r: Self)
        requires
            Self::shape_of(self.model()) == Self::shape_of(rhs.model()),
        ensures
            r.model() == Self::gt_model(self.model(), rhs.model()),
            Self::shape_of(r.model()) == Self::shape_of(self.model()),
    ;

    fn scale(&self, k: &Self) -> (r: Self)
        requires
            Self::shape_of(k.model()) == Shape::scalar(),
        ensures
            r.model() == Self::scale_model(self.model(), k.model()),
            Self::shape_of(r.model()) == Self::shape_of(self.model()),
    ;

    fn neg(&self) -> (r: Self)
        ensures
            r.model() == Self::neg_model(self.model()),
            Self::shape_of(r.model()) == Self::shape_of(self.model()),
    ;

    fn matmul(&self, rhs: &Self, lhs_t: bool, rhs_t: bool) -> (r: Self)
        requires
            Self::shape_of(self.model()).matmul_ok(Self::shape_of(rhs.model()), lhs_t, rhs_t),
        ensures
            r.model() == Self::matmul_model(self.model(), rhs.model(), lhs_t, rhs_t),
            Self::shape_of(r.model()) == Self::shape_of(self.model()).matmul_shape(
                Self::shape_of(rhs.model()),
                lhs_t,
                rhs_t,
            ),
    ;

    fn reshape(&self, shape: Shape) -> (r: Self)
        requires
            shape.numel() == Self::shape_of(self.model()).numel(),
        ensures
            r.model() == Self::reshape_model(self.model(), shape),
            Self::shape_of(r.model()) == shape,
    ;

    fn sum(&self) -> (r: Self)
        ensures
            r.model() == Self::sum_model(self.model()),
            Self::shape_of(r.model()) == Shape::scalar(),
    ;
}

} // verus!
