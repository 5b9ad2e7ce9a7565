//! A tensor that is not tracked: a value and nothing else.

use vstd::prelude::*;
use crate::graph::arena::{Graph, extends};
use crate::graph::node::{BinaryParams, BinaryRule, Node, NodeId, UnaryRule, models};
use crate::numeric::Numeric;
use crate::tensor::variable::{Variable, binary_node, declaration_node, tracks};

verus! {

/// A tensor without history and without gradient.
#[derive(Debug)]
pub struct Constant<T> {
    value: T,
}

impl<T: Numeric> Constant<T> {
    /// The value of the tensor.
    pub closed spec fn model(&self) -> T::Model {
        self.value.model()
    }

    /// The untracked tensor with the given value.
    pub fn new(value: T) -> (r: Self)
        ensures
            r.model() == value.model(),
    {
        Constant { value }
    }

    /// A copy of the value of the tensor.
    pub fn values(&self) -> (r: T)
        ensures
            r.model() == self.model(),
    {
        self.value.duplicate()
    }

    /// The value of the tensor.
    pub fn value(&self) -> (r: &T)
        ensures
            r.model() == self.model(),
    {
        &self.value
    }

    /// The result `data` of a one-operand operation on this tensor. Nothing is
    /// recorded.
    pub fn push_unary(&self, data: T, rule: UnaryRule, args: Vec<T>) -> (r: Self)
        ensures
            r.model() == data.model(),
    {
        Constant::new(data)
    }

    /// The result `data` of a two-operand operation on this tensor and another
    /// untracked one. Nothing is recorded.
    pub fn push_binary_constant(
        &self,
        other: &Constant<T>,
        data: T,
        rule: BinaryRule,
        args: Vec<T>,
    ) -> (r: Self)
        ensures
            r.model() == data.model(),
    {
        Constant::new(data)
    }

    /// Records the result `data` of a two-operand operation on this tensor and
    /// a tracked second operand.
    pub fn push_binary_variable(
        &self,
        graph: &mut Graph<T>,
        other: &Variable,
        data: T,
        rule: BinaryRule,
        args: Vec<T>,
    ) -> (r: Variable)
        requires
            old(graph).wf(),
            tracks(old(graph)@, other@),
            rule.defined::<T>(T::shape_of(data.model()), models(args@)),
            rule.partial_shapes::<T>(T::shape_of(data.model()), models(args@)).1 == T::shape_of(
                old(graph)@[other@.node as int].data,
            ),
        ensures
            final(graph)@ == old(graph)@.push(
                binary_node::<T>(
                    r@.node,
                    data.model(),
                    BinaryParams::ConstVar(other@.node),
                    rule,
                    models(args@),
                ),
            ),
            final(graph).wf(),
            r@.node == old(graph)@.len(),
            r@.tape == other@.tape.push(r@.node),
            tracks(final(graph)@, r@),
            extends(old(graph)@, final(graph)@),
    {
        let id: NodeId = graph.len();
        let node = Node::binary_constvar(id, data, other.node(), rule, args);
        proof {
            assert(other@.tape[other@.tape.len() - 1] == other@.node);
            assert(other@.tape.contains(other@.node));
        }
        Variable::new(graph, other.tape().clone(), node)
    }

    /// Starts a new history for the value: records it as a fresh tracked
    /// tensor. Nothing of an earlier history comes back.
    pub fn unfreeze(self, graph: &mut Graph<T>) -> (r: Variable)
        requires
            old(graph).wf(),
        ensures
            final(graph)@ == old(graph)@.push(
                declaration_node::<T>(r@.node, self.model()),
            ),
            final(graph).wf(),
            r@.node == old(graph)@.len(),
            r@.tape == seq![r@.node],
            tracks(final(graph)@, r@),
            extends(old(graph)@, final(graph)@),
    {
        Variable::declare(graph, self.value)
    }
}

} // verus!
