//! Fresh tracked tensors of integers with given contents.

use vstd::prelude::*;
use crate::exact::{IntModel, IntTensor, on_diagonal};
use crate::graph::arena::{Graph, extends};
use crate::graph::node::NodeModel;
use crate::shape::Shape;
use crate::tensor::Tensor;
use crate::tensor::variable::{Variable, declaration_node};

verus! {

/// What holds after a fresh tensor with the value `data` was declared and
/// returned as `r`: the graph has one more node, a declaration with that value
/// and a zero gradient, and `r` is tracked with a history of that node alone.
pub open spec fn declared(
    old: Seq<NodeModel<IntModel>>,
    new: Seq<NodeModel<IntModel>>,
    r: Tensor<IntTensor>,
    data: IntModel,
) -> bool {
    &&& r.is_tracked()
    &&& r.node_id() == old.len()
    &&& r->Variable_0@.tape == seq![r.node_id()]
    &&& new == old.push(declaration_node::<IntTensor>(r.node_id(), data))
    &&& r.valid(new)
    &&& extends(old, new)
}

/// Declares a tracked tensor filled with the given value. `None`, and nothing
/// declared, where the shape has more than `usize::MAX` elements.
pub fn fill(graph: &mut Graph<IntTensor>, shape: Shape, v: i64) -> (r: Option<Tensor<IntTensor>>)
    requires
        old(graph).wf(),
    ensures
        final(graph).wf(),
        r is Some <==> shape.numel() <= usize::MAX,
        r is None ==> final(graph)@ == old(graph)@,
        r is Some ==> declared(
            old(graph)@,
            final(graph)@,
            r->Some_0,
            IntModel { shape, elems: Seq::new(shape.numel(), |i: int| v) },
        ),
{
    match IntTensor::fill(shape, v) {
        Some(data) => Some(Tensor::Variable(Variable::declare(graph, data))),
        None => None,
    }
}

/// Declares a tracked tensor with the given value on the main diagonal of each
/// of its matrices and zero elsewhere. `None`, and nothing declared, where the
/// shape has more than `usize::MAX` elements.
pub fn eye(graph: &mut Graph<IntTensor>, shape: Shape, v: i64) -> (r: Option<Tensor<IntTensor>>)
    requires
        old(graph).wf(),
    ensures
        final(graph).wf(),
        r is Some <==> shape.numel() <= usize::MAX,
        r is None ==> final(graph)@ == old(graph)@,
        r is Some ==> declared(
            old(graph)@,
            final(graph)@,
            r->Some_0,
            IntModel {
                shape,
                elems: Seq::new(
                    shape.numel(),
                    |i: int|
                        if on_diagonal(shape, i) {
                            v
                        } else {
                            0i64
                        },
                ),
            },
        ),
{
    match IntTensor::eye(shape, v) {
        Some(data) => Some(Tensor::Variable(Variable::declare(graph, data))),
        None => None,
    }
}

/// Declares a tracked tensor with the given elements, the row index running
/// fastest. `None`, and nothing declared, where their number is not that of
/// the shape.
pub fn custom(graph: &mut Graph<IntTensor>, shape: Shape, values: &[i64]) -> (r: Option<
    Tensor<IntTensor>,
>)
    requires
        old(graph).wf(),
    ensures
        final(graph).wf(),
        r is Some <==> values@.len() == shape.numel(),
        r is None ==> final(graph)@ == old(graph)@,
        r is Some ==> declared(
            old(graph)@,
            final(graph)@,
            r->Some_0,
            IntModel { shape, elems: values@ },
        ),
{
    match IntTensor::custom(shape, values) {
        Some(data) => Some(Tensor::Variable(Variable::declare(graph, data))),
        None => None,
    }
}

} // verus!
