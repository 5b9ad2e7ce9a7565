//! The operations on tensors. Each computes its result at once and, where an
//! operand is tracked, records how the result's adjoint is handed back to the
//! operands.

use vstd::prelude::*;
use crate::graph::arena::{Graph, extends};
use crate::graph::node::{BinaryRule, NodeId, NodeModel, UnaryRule, models};
use crate::numeric::Numeric;
use crate::shape::Shape;
use crate::tensor::Tensor;
use crate::tensor::binary_params;
use crate::tensor::variable::{binary_node, unary_node};

verus! {

/// Why an operation was rejected.
#[derive(Clone, Copy, Debug, PartialEq, Eq, Structural)]
pub enum OpError {
    /// The shapes of the operands do not fit the operation.
    ShapeMismatch,
}

/// What holds after a one-operand operation on `x` gave the tensor `r` with
/// the value `data`: where `x` is untracked, so is `r`, and the graph is as it
/// was; where `x` is tracked, so is `r`, and the graph has one more node, which
/// records `x` as operand together with `rule` and `args` and has a zero
/// gradient.
pub open spec fn unary_outcome<T: Numeric>(
    old: Seq<NodeModel<T::Model>>,
    new: Seq<NodeModel<T::Model>>,
    x: Tensor<T>,
    r: Tensor<T>,
    data: T::Model,
    rule: UnaryRule,
    args: Seq<T::Model>,
) -> bool {
    &&& r.is_tracked() == x.is_tracked()
    &&& r.data_model(new) == data
    &&& r.valid(new)
    &&& extends(old, new)
    &&& if x.is_tracked() {
        &&& new == old.push(unary_node::<T>(r.node_id(), data, x.node_id(), rule, args))
        &&& r.node_id() == old.len()
        &&& forall|id: NodeId| r.depends_on(id) <==> x.depends_on(id) || id == old.len()
    } else {
        new == old
    }
}

/// What holds after a two-operand operation on `x` and `y` gave the tensor
/// `r` with the value `data`: where neither operand is tracked, `r` is
/// untracked and the graph is as it was; otherwise `r` is tracked, and the
/// graph has one more node, which records the tracked operands together with
/// `rule` and `args` and has a zero gradient. The history of `r` is that of the
/// tracked operands and the new node.
pub open spec fn binary_outcome<T: Numeric>(
    old: Seq<NodeModel<T::Model>>,
    new: Seq<NodeModel<T::Model>>,
    x: Tensor<T>,
    y: Tensor<T>,
    r: Tensor<T>,
    data: T::Model,
    rule: BinaryRule,
    args: Seq<T::Model>,
) -> bool {
    &&& r.is_tracked() == (x.is_tracked() || y.is_tracked())
    &&& r.data_model(new) == data
    &&& r.valid(new)
    &&& extends(old, new)
    &&& match binary_params(x, y) {
        None => new == old,
        Some(ancestors) => {
            &&& new == old.push(binary_node::<T>(r.node_id(), data, ancestors, rule, args))
            &&& r.node_id() == old.len()
            &&& forall|id: NodeId|
                r.depends_on(id) <==> x.depends_on(id) || y.depends_on(id) || id == old.len()
        },
    }
}

/// The negated tensor.
pub fn neg<T: Numeric>(graph: &mut Graph<T>, x: &Tensor<T>) -> (r: Tensor<T>)
    requires
        old(graph).wf(),
        x.valid(old(graph)@),
    ensures
        final(graph).wf(),
        unary_outcome::<T>(
            old(graph)@,
            final(graph)@,
            *x,
            r,
            T::neg_model(x.data_model(old(graph)@)),
            UnaryRule::Neg,
            Seq::empty(),
        ),
{
    let data = x.value(graph).neg();
    let args: Vec<T> = Vec::new();
    proof {
        assert(models(args@) =~= Seq::<T::Model>::empty());
    }
    x.push_unary(graph, data, UnaryRule::Neg, args)
}

/// The tensor with the same elements in the same order under another shape.
/// It is rejected where the two shapes differ in their number of elements.
pub fn reshape<T: Numeric>(graph: &mut Graph<T>, x: &Tensor<T>, shape: Shape) -> (r: Result<
    Tensor<T>,
    OpError,
>)
    requires
        old(graph).wf(),
        x.valid(old(graph)@),
    ensures
        final(graph).wf(),
        r is Ok <==> shape.numel() == T::shape_of(x.data_model(old(graph)@)).numel(),
        r is Err ==> final(graph)@ == old(graph)@ && r == Err::<Tensor<T>, OpError>(
            OpError::ShapeMismatch,
        ),
        r is Ok ==> unary_outcome::<T>(
            old(graph)@,
            final(graph)@,
            *x,
            r->Ok_0,
            T::reshape_model(x.data_model(old(graph)@), shape),
            UnaryRule::Reshape(T::shape_of(x.data_model(old(graph)@))),
            Seq::empty(),
        ),
{
    let from = x.value(graph).dims();
    let same = match (shape.count(), from.count()) {
        (Some(n), Some(m)) => n == m,
        _ => false,
    };
    if !same {
        return Err(OpError::ShapeMismatch);
    }
    let data = x.value(graph).reshape(shape);
    let args: Vec<T> = Vec::new();
    proof {
        assert(models(args@) =~= Seq::<T::Model>::empty());
    }
    Ok(x.push_unary(graph, data, UnaryRule::Reshape(from), args))
}

/// The sum of all elements of the tensor, as a tensor of shape `1 x 1 x 1 x 1`.
pub fn sum<T: Numeric>(graph: &mut Graph<T>, x: &Tensor<T>) -> (r: Tensor<T>)
    requires
        old(graph).wf(),
        x.valid(old(graph)@),
    ensures
        final(graph).wf(),
        unary_outcome::<T>(
            old(graph)@,
            final(graph)@,
            *x,
            r,
            T::sum_model(x.data_model(old(graph)@)),
            UnaryRule::Sum,
            seq![T::ones_model(T::shape_of(x.data_model(old(graph)@)))],
        ),
{
    let data = x.value(graph).sum();
    let ones = x.value(graph).ones_like();
    let mut args: Vec<T> = Vec::new();
    args.push(ones);
    proof {
        assert(models(args@) =~= seq![
            T::ones_model(T::shape_of(x.data_model(old(graph)@))),
        ]);
    }
    x.push_unary(graph, data, UnaryRule::Sum, args)
}

/// The tensor with the batch kept and every other dimension folded into the
/// width. It is rejected where that width exceeds `u64::MAX`, which only a
/// tensor without elements can bring about.
pub fn flatten<T: Numeric>(graph: &mut Graph<T>, x: &Tensor<T>) -> (r: Result<Tensor<T>, OpError>)
    requires
        old(graph).wf(),
        x.valid(old(graph)@),
    ensures
        final(graph).wf(),
        r is Ok <==> T::shape_of(x.data_model(old(graph)@)).folded() <= u64::MAX,
        r is Err ==> final(graph)@ == old(graph)@ && r == Err::<Tensor<T>, OpError>(
            OpError::ShapeMismatch,
        ),
        r is Ok ==> unary_outcome::<T>(
            old(graph)@,
            final(graph)@,
            *x,
            r->Ok_0,
            T::reshape_model(
                x.data_model(old(graph)@),
                T::shape_of(x.data_model(old(graph)@)).flat(),
            ),
            UnaryRule::Reshape(T::shape_of(x.data_model(old(graph)@))),
            Seq::empty(),
        ),
{
    let from = x.value(graph).dims();
    let to = match from.flattened() {
        Some(to) => to,
        None => {
            return Err(OpError::ShapeMismatch);
        },
    };
    let data = x.value(graph).reshape(to);
    let args: Vec<T> = Vec::new();
    proof {
        assert(models(args@) =~= Seq::<T::Model>::empty());
    }
    Ok(x.push_unary(graph, data, UnaryRule::Reshape(from), args))
}

/// The tensor with every negative element replaced by zero.
pub fn relu<T: Numeric>(graph: &mut Graph<T>, x: &Tensor<T>) -> (r: Tensor<T>)
    requires
        old(graph).wf(),
        x.valid(old(graph)@),
    ensures
        final(graph).wf(),
        unary_outcome::<T>(
            old(graph)@,
            final(graph)@,
            *x,
            r,
            T::maxof_model(
                x.data_model(old(graph)@),
                T::zeros_model(T::shape_of(x.data_model(old(graph)@))),
            ),
            UnaryRule::Gate,
            seq![
                T::gt_model(
                    x.data_model(old(graph)@),
                    T::zeros_model(T::shape_of(x.data_model(old(graph)@))),
                ),
            ],
        ),
{
    let zeros = x.value(graph).zeros_like();
    let data = x.value(graph).maxof(&zeros);
    let mask = x.value(graph).gt(&zeros);
    let mut args: Vec<T> = Vec::new();
    args.push(mask);
    proof {
        assert(models(args@) =~= seq![
            T::gt_model(
                x.data_model(old(graph)@),
                T::zeros_model(T::shape_of(x.data_model(old(graph)@))),
            ),
        ]);
    }
    x.push_unary(graph, data, UnaryRule::Gate, args)
}

/// Elementwise sum of two tensors of the same shape.
pub fn add<T: Numeric>(graph: &mut Graph<T>, x: &Tensor<T>, y: &Tensor<T>) -> (r: Result<
    Tensor<T>,
    OpError,
>)
    requires
        old(graph).wf(),
        x.valid(old(graph)@),
        y.valid(old(graph)@),
    ensures
        final(graph).wf(),
        r is Ok <==> T::shape_of(x.data_model(old(graph)@)) == T::shape_of(
            y.data_model(old(graph)@),
        ),
        r is Err ==> final(graph)@ == old(graph)@ && r == Err::<Tensor<T>, OpError>(
            OpError::ShapeMismatch,
        ),
        r is Ok ==> binary_outcome::<T>(
            old(graph)@,
            final(graph)@,
            *x,
            *y,
            r->Ok_0,
            T::add_model(x.data_model(old(graph)@), y.data_model(old(graph)@)),
            BinaryRule::Add,
            Seq::empty(),
        ),
{
    if x.value(graph).dims() != y.value(graph).dims() {
        return Err(OpError::ShapeMismatch);
    }
    let data = x.value(graph).add(y.value(graph));
    let args: Vec<T> = Vec::new();
    proof {
        assert(models(args@) =~= Seq::<T::Model>::empty());
    }
    Ok(x.push_binary(graph, y, data, BinaryRule::Add, args))
}

/// Elementwise difference of two tensors of the same shape.
pub fn sub<T: Numeric>(graph: &mut Graph<T>, x: &Tensor<T>, y: &Tensor<T>) -> (r: Result<
    Tensor<T>,
    OpError,
>)
    requires
        old(graph).wf(),
        x.valid(old(graph)@),
        y.valid(old(graph)@),
    ensures
        final(graph).wf(),
        r is Ok <==> T::shape_of(x.data_model(old(graph)@)) == T::shape_of(
            y.data_model(old(graph)@),
        ),
        r is Err ==> final(graph)@ == old(graph)@ && r == Err::<Tensor<T>, OpError>(
            OpError::ShapeMismatch,
        ),
        r is Ok ==> binary_outcome::<T>(
            old(graph)@,
            final(graph)@,
            *x,
            *y,
            r->Ok_0,
            T::sub_model(x.data_model(old(graph)@), y.data_model(old(graph)@)),
            BinaryRule::Sub,
            Seq::empty(),
        ),
{
    if x.value(graph).dims() != y.value(graph).dims() {
        return Err(OpError::ShapeMismatch);
    }
    let data = x.value(graph).sub(y.value(graph));
    let args: Vec<T> = Vec::new();
    proof {
        assert(models(args@) =~= Seq::<T::Model>::empty());
    }
    Ok(x.push_binary(graph, y, data, BinaryRule::Sub, args))
}

/// Elementwise product of two tensors of the same shape.
pub fn mul<T: Numeric>(graph: &mut Graph<T>, x: &Tensor<T>, y: &Tensor<T>) -> (r: Result<
    Tensor<T>,
    OpError,
>)
    requires
        old(graph).wf(),
        x.valid(old(graph)@),
        y.valid(old(graph)@),
    ensures
        final(graph).wf(),
        r is Ok <==> T::shape_of(x.data_model(old(graph)@)) == T::shape_of(
            y.data_model(old(graph)@),
        ),
        r is Err ==> final(graph)@ == old(graph)@ && r == Err::<Tensor<T>, OpError>(
            OpError::ShapeMismatch,
        ),
        r is Ok ==> binary_outcome::<T>(
            old(graph)@,
            final(graph)@,
            *x,
            *y,
            r->Ok_0,
            T::mul_model(x.data_model(old(graph)@), y.data_model(old(graph)@)),
            BinaryRule::Mul,
            seq![x.data_model(old(graph)@), y.data_model(old(graph)@)],
        ),
{
    if x.value(graph).dims() != y.value(graph).dims() {
        return Err(OpError::ShapeMismatch);
    }
    let data = x.value(graph).mul(y.value(graph));
    let mut args: Vec<T> = Vec::new();
    args.push(x.data(graph));
    args.push(y.data(graph));
    proof {
        assert(models(args@) =~= seq![
            x.data_model(old(graph)@),
            y.data_model(old(graph)@),
        ]);
    }
    Ok(x.push_binary(graph, y, data, BinaryRule::Mul, args))
}

/// The matrix product of two matrices, the first as wide as the second is
/// high. Operands with a batch or with more than one channel are rejected, and
/// so is a product that would hold more than `usize::MAX` elements.
pub fn mm<T: Numeric>(graph: &mut Graph<T>, x: &Tensor<T>, y: &Tensor<T>) -> (r: Result<
    Tensor<T>,
    OpError,
>)
    requires
        old(graph).wf(),
        x.valid(old(graph)@),
        y.valid(old(graph)@),
    ensures
        final(graph).wf(),
        r is Ok <==> T::shape_of(x.data_model(old(graph)@)).matmul_ok(
            T::shape_of(y.data_model(old(graph)@)),
            false,
            false,
        ),
        r is Err ==> final(graph)@ == old(graph)@ && r == Err::<Tensor<T>, OpError>(
            OpError::ShapeMismatch,
        ),
        r is Ok ==> binary_outcome::<T>(
            old(graph)@,
            final(graph)@,
            *x,
            *y,
            r->Ok_0,
            T::matmul_model(x.data_model(old(graph)@), y.data_model(old(graph)@), false, false),
            BinaryRule::MatMul,
            seq![x.data_model(old(graph)@), y.data_model(old(graph)@)],
        ),
{
    let xs = x.value(graph).dims();
    let ys = y.value(graph).dims();
    if !(xs.batch == 1 && xs.channels == 1 && ys.batch == 1 && ys.channels == 1 && xs.width
        == ys.height) {
        return Err(OpError::ShapeMismatch);
    }
    let fits = match xs.height.checked_mul(ys.width) {
        Some(n) => n <= usize::MAX as u64,
        None => false,
    };
    if !fits {
        return Err(OpError::ShapeMismatch);
    }
    proof {
        assert(xs.numel() == xs.height * xs.width) by (nonlinear_arith)
            requires
                xs.batch == 1,
                xs.channels == 1,
                xs.numel() == (xs.batch * xs.channels * xs.height * xs.width) as nat,
        ;
        assert(ys.numel() == ys.height * ys.width) by (nonlinear_arith)
            requires
                ys.batch == 1,
                ys.channels == 1,
                ys.numel() == (ys.batch * ys.channels * ys.height * ys.width) as nat,
        ;
    }
    let data = x.value(graph).matmul(y.value(graph), false, false);
    let mut args: Vec<T> = Vec::new();
    args.push(x.data(graph));
    args.push(y.data(graph));
    proof {
        assert(models(args@) =~= seq![
            x.data_model(old(graph)@),
            y.data_model(old(graph)@),
        ]);
    }
    Ok(x.push_binary(graph, y, data, BinaryRule::MatMul, args))
}

} // verus!
