//! Tensors as the operations see them: tracked in a graph, or plain values.
//!
//! Tracked and untracked tensors can be mixed in any operation. The result is
//! untracked only where every operand is.

pub mod constant;
pub mod variable;

use vstd::prelude::*;
use crate::gradient::adjoint;
use crate::graph::arena::{Graph, backpropagated, cleared, extends, seeded};
use crate::graph::node::{BinaryParams, BinaryRule, NodeId, NodeModel, UnaryRule, models};
use crate::numeric::Numeric;
use crate::tensor::constant::Constant;
use crate::tensor::variable::{Variable, binary_node, declaration_node, tracks, unary_node};

verus! {

/// A tensor that is either tracked in a graph or a plain value.
#[derive(Debug)]
pub enum Tensor<T> {
    /// Tracked: differentiable, with a history.
    Variable(Variable),
    /// Untracked: a value only.
    Constant(Constant<T>),
}

/// The tracked operands of a two-operand operation, or `None` where neither
/// operand is tracked and nothing is to be recorded.
pub open spec fn binary_params<T: Numeric>(x: Tensor<T>, y: Tensor<T>) -> Option<BinaryParams> {
    match (x, y) {
        (Tensor::Variable(a), Tensor::Variable(b)) => Some(BinaryParams::VarVar(a@.node, b@.node)),
        (Tensor::Variable(a), Tensor::Constant(_)) => Some(BinaryParams::VarConst(a@.node)),
        (Tensor::Constant(_), Tensor::Variable(b)) => Some(BinaryParams::ConstVar(b@.node)),
        (Tensor::Constant(_), Tensor::Constant(_)) => None,
    }
}

impl<T: Numeric> Tensor<T> {
    /// Whether the tensor is tracked.
    pub open spec fn is_tracked(&self) -> bool {
        self is Variable
    }

    /// Whether the tensor can be used with the graph that holds `nodes`: a
    /// tracked tensor has to be a variable of that graph.
    pub open spec fn valid(&self, nodes: Seq<NodeModel<T::Model>>) -> bool {
        match self {
            Tensor::Variable(v) => tracks(nodes, v@),
            Tensor::Constant(_) => true,
        }
    }

    /// The value of the tensor.
    pub open spec fn data_model(&self, nodes: Seq<NodeModel<T::Model>>) -> T::Model {
        match self {
            Tensor::Variable(v) => nodes[v@.node as int].data,
            Tensor::Constant(c) => c.model(),
        }
    }

    /// Whether the node is part of the history of the tensor.
    pub open spec fn depends_on(&self, id: NodeId) -> bool {
        match self {
            Tensor::Variable(v) => v@.tape.contains(id),
            Tensor::Constant(_) => false,
        }
    }

    /// The identifier of the tensor's node, where it is tracked.
    pub open spec fn node_id(&self) -> NodeId {
        match self {
            Tensor::Variable(v) => v@.node,
            Tensor::Constant(_) => 0,
        }
    }

    /// Whether the tensor is tracked.
    pub fn is_variable(&self) -> (r: bool)
        ensures
            r == self.is_tracked(),
    {
        match self {
            Tensor::Variable(_) => true,
            Tensor::Constant(_) => false,
        }
    }

    /// Whether the tensor can be used with the graph.
    pub fn fits(&self, graph: &Graph<T>) -> (r: bool)
        ensures
            r == self.valid(graph@),
    {
        match self {
            Tensor::Variable(v) => v.belongs_to(graph),
            Tensor::Constant(_) => true,
        }
    }

    /// The value of the tensor.
    pub fn value<'a>(&'a self, graph: &'a Graph<T>) -> (r: &'a T)
        requires
            self.valid(graph@),
        ensures
            r.model() == self.data_model(graph@),
    {
        match self {
            Tensor::Variable(v) => {
                proof {
                    assert(v@.tape[v@.tape.len() - 1] < graph@.len());
                }
                graph.node(v.node()).data()
            },
            Tensor::Constant(c) => c.value(),
        }
    }

    /// A copy of the value of the tensor.
    pub fn data(&self, graph: &Graph<T>) -> (r: T)
        requires
            self.valid(graph@),
        ensures
            r.model() == self.data_model(graph@),
    {
        self.value(graph).duplicate()
    }

    /// The result `data` of a one-operand operation on this tensor. It is
    /// tracked, and recorded as a new node, exactly if this tensor is tracked.
    pub fn push_unary(&self, graph: &mut Graph<T>, data: T, rule: UnaryRule, args: Vec<T>) -> (r:
        Self)
        requires
            old(graph).wf(),
            self.valid(old(graph)@),
            self.is_tracked() ==> {
                &&& rule.defined::<T>(T::shape_of(data.model()), models(args@))
                &&& rule.partial_shape::<T>(T::shape_of(data.model()), models(args@))
                    == T::shape_of(self.data_model(old(graph)@))
            },
        ensures
            r.is_tracked() == self.is_tracked(),
            !self.is_tracked() ==> final(graph)@ == old(graph)@,
            self.is_tracked() ==> {
                &&& final(graph)@ == old(graph)@.push(
                    unary_node::<T>(
                        r.node_id(),
                        data.model(),
                        self.node_id(),
                        rule,
                        models(args@),
                    ),
                )
                &&& r.node_id() == old(graph)@.len()
                &&& forall|x: NodeId|
                    r.depends_on(x) <==> self.depends_on(x) || x == old(graph)@.len()
            },
            r.data_model(final(graph)@) == data.model(),
            r.valid(final(graph)@),
            final(graph).wf(),
            extends(old(graph)@, final(graph)@),
    {
        match self {
            Tensor::Variable(v) => {
                let r = v.push_unary(graph, data, rule, args);
                proof {
                    lemma_pushed_contains(v@.tape, r@.node);
                }
                Tensor::Variable(r)
            },
            Tensor::Constant(c) => Tensor::Constant(c.push_unary(data, rule, args)),
        }
    }

    /// The result `data` of a two-operand operation on this tensor and
    /// `other`. It is tracked, and recorded as a new node, exactly if at least
    /// one operand is tracked; its history then holds the histories of the
    /// tracked operands and the new node.
    pub fn push_binary(
        &self,
        graph: &mut Graph<T>,
        other: &Self,
        data: T,
        rule: BinaryRule,
        args: Vec<T>,
    ) -> (r: Self)
        requires
            old(graph).wf(),
            self.valid(old(graph)@),
            other.valid(old(graph)@),
            self.is_tracked() || other.is_tracked() ==> rule.defined::<T>(
                T::shape_of(data.model()),
                models(args@),
            ),
            self.is_tracked() ==> rule.partial_shapes::<T>(
                T::shape_of(data.model()),
                models(args@),
            ).0 == T::shape_of(self.data_model(old(graph)@)),
            other.is_tracked() ==> rule.partial_shapes::<T>(
                T::shape_of(data.model()),
                models(args@),
            ).1 == T::shape_of(other.data_model(old(graph)@)),
        ensures
            r.is_tracked() == (self.is_tracked() || other.is_tracked()),
            match binary_params(*self, *other) {
                None => final(graph)@ == old(graph)@,
                Some(ancestors) => {
                    &&& final(graph)@ == old(graph)@.push(
                        binary_node::<T>(
                            r.node_id(),
                            data.model(),
                            ancestors,
                            rule,
                            models(args@),
                        ),
                    )
                    &&& r.node_id() == old(graph)@.len()
                    &&& forall|x: NodeId|
                        r.depends_on(x) <==> self.depends_on(x) || other.depends_on(x) || x == old(
                            graph,
                        )@.len()
                },
            },
            r.data_model(final(graph)@) == data.model(),
            r.valid(final(graph)@),
            final(graph).wf(),
            extends(old(graph)@, final(graph)@),
    {
        match (self, other) {
            (Tensor::Variable(a), Tensor::Variable(b)) => {
                Tensor::Variable(a.push_binary_variable(graph, b, data, rule, args))
            },
            (Tensor::Variable(a), Tensor::Constant(c)) => {
                let r = a.push_binary_constant(graph, c, data, rule, args);
                proof {
                    lemma_pushed_contains(a@.tape, r@.node);
                }
                Tensor::Variable(r)
            },
            (Tensor::Constant(c), Tensor::Variable(b)) => {
                let r = c.push_binary_variable(graph, b, data, rule, args);
                proof {
                    lemma_pushed_contains(b@.tape, r@.node);
                }
                Tensor::Variable(r)
            },
            (Tensor::Constant(c), Tensor::Constant(d)) => {
                Tensor::Constant(c.push_binary_constant(d, data, rule, args))
            },
        }
    }

    /// The gradient accumulated for this tracked tensor, as an untracked
    /// tensor of its own. It is all zero unless a backward pass has reached the
    /// tensor since the last reset.
    pub fn grad(&self, graph: &Graph<T>) -> (r: Self)
        requires
            self.is_tracked(),
            self.valid(graph@),
        ensures
            !r.is_tracked(),
            r.data_model(graph@) == graph@[self.node_id() as int].grad,
    {
        match self {
            Tensor::Variable(v) => {
                proof {
                    assert(v@.tape[v@.tape.len() - 1] < graph@.len());
                }
                Tensor::Constant(Constant::new(v.grad(graph)))
            },
            Tensor::Constant(c) => Tensor::Constant(Constant::new(c.values())),
        }
    }

    /// Turns the tensor into an untracked one with the same value. The history
    /// of a tracked tensor is given up.
    pub fn freeze(self, graph: &Graph<T>) -> (r: Self)
        requires
            self.valid(graph@),
        ensures
            !r.is_tracked(),
            r.data_model(graph@) == self.data_model(graph@),
    {
        match self {
            Tensor::Variable(v) => {
                proof {
                    assert(v@.tape[v@.tape.len() - 1] < graph@.len());
                }
                Tensor::Constant(v.freeze(graph))
            },
            Tensor::Constant(c) => Tensor::Constant(c),
        }
    }

    /// Turns an untracked tensor into a tracked one with the same value and a
    /// history of its own: one declaration node with a zero gradient. A
    /// tracked tensor is returned as it is.
    pub fn unfreeze(self, graph: &mut Graph<T>) -> (r: Self)
        requires
            old(graph).wf(),
            self.valid(old(graph)@),
        ensures
            r.is_tracked(),
            self.is_tracked() ==> r == self && final(graph)@ == old(graph)@,
            !self.is_tracked() ==> {
                &&& final(graph)@ == old(graph)@.push(
                    declaration_node::<T>(
                        r.node_id(),
                        self.data_model(old(graph)@),
                    ),
                )
                &&& r.node_id() == old(graph)@.len()
                &&& forall|x: NodeId| r.depends_on(x) <==> x == old(graph)@.len()
            },
            r.data_model(final(graph)@) == self.data_model(old(graph)@),
            r.valid(final(graph)@),
            final(graph).wf(),
            extends(old(graph)@, final(graph)@),
    {
        match self {
            Tensor::Variable(v) => Tensor::Variable(v),
            Tensor::Constant(c) => {
                let r = c.unfreeze(graph);
                proof {
                    let n = r@.node;
                    assert(r@.tape[0] == n);
                    assert forall|x: NodeId| r@.tape.contains(x) <==> x == n by {
                        if r@.tape.contains(x) {
                            let q = choose|q: int| 0 <= q < r@.tape.len() && r@.tape[q] == x;
                        }
                    }
                }
                Tensor::Variable(r)
            },
        }
    }

    /// Computes the gradients of this tracked tensor with respect to every
    /// node of its history.
    pub fn backward(&self, graph: &mut Graph<T>)
        requires
            self.is_tracked(),
            old(graph).wf(),
            self.valid(old(graph)@),
        ensures
            final(graph)@ == backpropagated::<T>(
                old(graph)@,
                self->Variable_0@.tape,
                self.node_id(),
            ),
            final(graph)@.len() == old(graph)@.len(),
            forall|x: NodeId|
                x < old(graph)@.len() ==> (#[trigger] final(graph)@[x as int]).grad == adjoint::<T>(
                    seeded::<T>(old(graph)@, self.node_id()),
                    self->Variable_0@.tape,
                    x,
                    0,
                ),
            final(graph).wf(),
            extends(old(graph)@, final(graph)@),
    {
        match self {
            Tensor::Variable(v) => v.backward(graph),
            Tensor::Constant(_) => {},
        }
    }

    /// Sets the gradients of this tracked tensor and of every node of its
    /// history to zero.
    pub fn reset(&self, graph: &mut Graph<T>)
        requires
            self.is_tracked(),
            old(graph).wf(),
            self.valid(old(graph)@),
        ensures
            final(graph)@ == cleared::<T>(old(graph)@, self->Variable_0@.tape),
            final(graph).wf(),
            extends(old(graph)@, final(graph)@),
    {
        match self {
            Tensor::Variable(v) => v.reset(graph),
            Tensor::Constant(_) => {},
        }
    }
}

/// The members of a sequence with one more element at its end.
pub proof fn lemma_pushed_contains(s: Seq<NodeId>, id: NodeId)
    ensures
        forall|x: NodeId| s.push(id).contains(x) <==> s.contains(x) || x == id,
{
    assert forall|x: NodeId| s.push(id).contains(x) <==> s.contains(x) || x == id by {
        let t = s.push(id);
        if t.contains(x) {
            let q = choose|q: int| 0 <= q < t.len() && t[q] == x;
            if q < s.len() {
                assert(s[q] == x);
            }
        }
        if s.contains(x) {
            let q = choose|q: int| 0 <= q < s.len() && s[q] == x;
            assert(t[q] == x);
        }
        if x == id {
            assert(t[s.len() as int] == x);
        }
    }
}

} // verus!
