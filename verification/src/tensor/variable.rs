//! A tensor that is tracked in a computation graph.

use vstd::prelude::*;
use crate::graph::arena::{
    Graph, backpropagated, cleared, extends, lemma_cleared_extends, lemma_seeded_extends,
    lemma_swept_extends, node_ok, seeded, tape_ok,
};
use crate::graph::node::{
    BinaryParams, BinaryRule, Node, NodeId, NodeModel, OriginModel, UnaryRule, models,
};
use crate::graph::tape::{Tape, increasing};
use crate::gradient::{adjoint, law_backward_adjoint};
use crate::numeric::Numeric;
use crate::tensor::constant::Constant;

verus! {

/// The mathematical content of a [`Variable`].
pub struct VariableModel {
    /// The identifiers of the nodes the variable depends on, itself included,
    /// in increasing order.
    pub tape: Seq<NodeId>,
    /// The identifier of the variable's own node.
    pub node: NodeId,
}

/// Whether `v` is a variable of the graph with the given nodes: its tape is a
/// history within the graph, and its own node is the last on that tape.
pub open spec fn tracks<M>(nodes: Seq<NodeModel<M>>, v: VariableModel) -> bool {
    &&& tape_ok(nodes, v.tape)
    &&& v.tape.len() > 0
    &&& v.tape.last() == v.node
}

/// A variable of a graph stays one when the graph grows or its gradients change.
pub proof fn lemma_tracks_extends<M>(
    old: Seq<NodeModel<M>>,
    new: Seq<NodeModel<M>>,
    v: VariableModel,
)
    requires
        tracks(old, v),
        extends(old, new),
    ensures
        tracks(new, v),
{
    assert forall|k: int, a: NodeId|
        0 <= k < v.tape.len() && #[trigger] new[v.tape[k] as int].origin.names(
            a,
        ) implies v.tape.contains(a) by {
        assert(v.tape[k] < old.len());
        assert(new[v.tape[k] as int].origin == old[v.tape[k] as int].origin);
        assert(old[v.tape[k] as int].origin.names(a));
    }
    assert forall|k: int| 0 <= k < v.tape.len() implies #[trigger] v.tape[k] < new.len() by {
        assert(v.tape[k] < old.len());
    }
}

/// The node that records a fresh tracked tensor.
pub open spec fn declaration_node<T: Numeric>(id: NodeId, data: T::Model) -> NodeModel<T::Model> {
    NodeModel {
        id,
        data,
        grad: T::zeros_model(T::shape_of(data)),
        origin: OriginModel::Declaration,
    }
}

/// The node that records the result of a one-operand operation.
pub open spec fn unary_node<T: Numeric>(
    id: NodeId,
    data: T::Model,
    ancestor: NodeId,
    rule: UnaryRule,
    args: Seq<T::Model>,
) -> NodeModel<T::Model> {
    NodeModel {
        id,
        data,
        grad: T::zeros_model(T::shape_of(data)),
        origin: OriginModel::Unary { ancestor, rule, args },
    }
}

/// The node that records the result of a two-operand operation.
pub open spec fn binary_node<T: Numeric>(
    id: NodeId,
    data: T::Model,
    ancestors: BinaryParams,
    rule: BinaryRule,
    args: Seq<T::Model>,
) -> NodeModel<T::Model> {
    NodeModel {
        id,
        data,
        grad: T::zeros_model(T::shape_of(data)),
        origin: OriginModel::Binary { ancestors, rule, args },
    }
}

/// A tensor whose value lives in a node of a graph, together with the history
/// that led to it.
#[derive(Debug)]
pub struct Variable {
    tape: Tape,
    node: NodeId,
}

impl View for Variable {
    type V = VariableModel;

    closed spec fn view(&self) -> VariableModel {
        VariableModel { tape: self.tape@, node: self.node }
    }
}

impl Clone for Variable {
    fn clone(&self) -> (r: Self)
        ensures
            r@ == self@,
    {
        Variable { tape: self.tape.clone(), node: self.node }
    }
}

impl Variable {
    /// Puts the node into the graph and onto the tape, and returns the variable
    /// that owns both.
    pub fn new<T: Numeric>(graph: &mut Graph<T>, tape: Tape, node: Node<T>) -> (r: Self)
        requires
            old(graph).wf(),
            tape_ok(old(graph)@, tape@),
            node_ok::<T>(old(graph)@.push(node@), old(graph)@.len() as int),
            forall|a: NodeId| node@.origin.names(a) ==> tape@.contains(a),
        ensures
            final(graph)@ == old(graph)@.push(node@),
            final(graph).wf(),
            r@ == (VariableModel { tape: tape@.push(node@.id), node: node@.id }),
            tracks(final(graph)@, r@),
    {
        let mut tape = tape;
        let ghost tape0 = tape@;
        let id = graph.push(node);
        proof {
            if tape0.len() > 0 {
                assert(tape0[tape0.len() - 1] < old(graph)@.len());
            }
        }
        tape.push(id);
        let r = Variable { tape, node: id };
        proof {
            let nodes = graph@;
            let t = r@.tape;
            assert(t == tape0.push(id));
            assert forall|k: int| 0 <= k < t.len() implies #[trigger] t[k] < nodes.len() by {
                if k < tape0.len() {
                    assert(tape0[k] < old(graph)@.len());
                }
            }
            assert forall|k: int, a: NodeId|
                0 <= k < t.len() && #[trigger] nodes[t[k] as int].origin.names(
                    a,
                ) implies t.contains(a) by {
                if k < tape0.len() {
                    assert(tape0[k] < old(graph)@.len());
                    assert(nodes[t[k] as int] == old(graph)@[tape0[k] as int]);
                    assert(old(graph)@[tape0[k] as int].origin.names(a));
                    assert(tape0.contains(a));
                } else {
                    assert(nodes[t[k] as int] == node@);
                    assert(tape0.contains(a));
                }
                let q = choose|q: int| 0 <= q < tape0.len() && tape0[q] == a;
                assert(t[q] == a);
            }
        }
        r
    }

    /// Records a fresh tracked tensor with the given value. Its history holds
    /// its own node and nothing else.
    pub fn declare<T: Numeric>(graph: &mut Graph<T>, data: T) -> (r: Self)
        requires
            old(graph).wf(),
        ensures
            final(graph)@ == old(graph)@.push(
                declaration_node::<T>(r@.node, data.model()),
            ),
            final(graph).wf(),
            r@.node == old(graph)@.len(),
            r@.tape == seq![r@.node],
            tracks(final(graph)@, r@),
            extends(old(graph)@, final(graph)@),
    {
        let id: NodeId = graph.len();
        let node = Node::declaration(id, data);
        let tape = Tape::new();
        let r = Variable::new(graph, tape, node);
        proof {
            assert(r@.tape =~= seq![id]);
        }
        r
    }

    /// Whether this is a variable of the graph.
    pub fn belongs_to<T: Numeric>(&self, graph: &Graph<T>) -> (r: bool)
        ensures
            r == tracks(graph@, self@),
    {
        graph.holds(&self.tape, self.node)
    }

    /// The tape that holds the history of this variable.
    pub fn tape(&self) -> (r: &Tape)
        ensures
            r@ == self@.tape,
    {
        &self.tape
    }

    /// The identifier of the node that holds the value and the gradient of this
    /// variable.
    pub fn node(&self) -> (r: NodeId)
        ensures
            r == self@.node,
    {
        self.node
    }

    /// A copy of the value of this variable.
    pub fn values<T: Numeric>(&self, graph: &Graph<T>) -> (r: T)
        requires
            self@.node < graph@.len(),
        ensures
            r.model() == graph@[self@.node as int].data,
    {
        graph.node(self.node).data().duplicate()
    }

    /// A copy of the gradient accumulated for this variable. It is all zero
    /// unless a backward pass has reached the variable since the last reset.
    pub fn grad<T: Numeric>(&self, graph: &Graph<T>) -> (r: T)
        requires
            self@.node < graph@.len(),
        ensures
            r.model() == graph@[self@.node as int].grad,
    {
        graph.node(self.node).grad().duplicate()
    }

    /// Gives up the history and keeps the value.
    pub fn freeze<T: Numeric>(self, graph: &Graph<T>) -> (r: Constant<T>)
        requires
            self@.node < graph@.len(),
        ensures
            r.model() == graph@[self@.node as int].data,
    {
        Constant::new(self.values(graph))
    }

    /// Records the result `data` of a one-operand operation on this variable.
    pub fn push_unary<T: Numeric>(
        &self,
        graph: &mut Graph<T>,
        data: T,
        rule: UnaryRule,
        args: Vec<T>,
    ) -> (r: Self)
        requires
            old(graph).wf(),
            tracks(old(graph)@, self@),
            rule.defined::<T>(T::shape_of(data.model()), models(args@)),
            rule.partial_shape::<T>(T::shape_of(data.model()), models(args@)) == T::shape_of(
                old(graph)@[self@.node as int].data,
            ),
        ensures
            final(graph)@ == old(graph)@.push(
                unary_node::<T>(
                    r@.node,
                    data.model(),
                    self@.node,
                    rule,
                    models(args@),
                ),
            ),
            final(graph).wf(),
            r@.node == old(graph)@.len(),
            r@.tape == self@.tape.push(r@.node),
            tracks(final(graph)@, r@),
            extends(old(graph)@, final(graph)@),
    {
        let id: NodeId = graph.len();
        let node = Node::unary(id, data, self.node, rule, args);
        proof {
            assert(self@.tape[self@.tape.len() - 1] == self@.node);
            assert(self@.tape.contains(self@.node));
        }
        Variable::new(graph, self.tape.clone(), node)
    }

    /// Records the result `data` of a two-operand operation on this variable
    /// and an untracked second operand.
    pub fn push_binary_constant<T: Numeric>(
        &self,
        graph: &mut Graph<T>,
        other: &Constant<T>,
        data: T,
        rule: BinaryRule,
        args: Vec<T>,
    ) -> (r: Self)
        requires
            old(graph).wf(),
            tracks(old(graph)@, self@),
            rule.defined::<T>(T::shape_of(data.model()), models(args@)),
            rule.partial_shapes::<T>(T::shape_of(data.model()), models(args@)).0 == T::shape_of(
                old(graph)@[self@.node as int].data,
            ),
        ensures
            final(graph)@ == old(graph)@.push(
                binary_node::<T>(
                    r@.node,
                    data.model(),
                    BinaryParams::VarConst(self@.node),
                    rule,
                    models(args@),
                ),
            ),
            final(graph).wf(),
            r@.node == old(graph)@.len(),
            r@.tape == self@.tape.push(r@.node),
            tracks(final(graph)@, r@),
            extends(old(graph)@, final(graph)@),
    {
        let id: NodeId = graph.len();
        let node = Node::binary_varconst(id, data, self.node, rule, args);
        proof {
            assert(self@.tape[self@.tape.len() - 1] == self@.node);
            assert(self@.tape.contains(self@.node));
        }
        Variable::new(graph, self.tape.clone(), node)
    }

    /// Records the result `data` of a two-operand operation on this variable
    /// and a tracked second operand. The history of the result holds the
    /// histories of both operands, each node once.
    pub fn push_binary_variable<T: Numeric>(
        &self,
        graph: &mut Graph<T>,
        other: &Variable,
        data: T,
        rule: BinaryRule,
        args: Vec<T>,
    ) -> (r: Self)
        requires
            old(graph).wf(),
            tracks(old(graph)@, self@),
            tracks(old(graph)@, other@),
            rule.defined::<T>(T::shape_of(data.model()), models(args@)),
            rule.partial_shapes::<T>(T::shape_of(data.model()), models(args@)) == (
                T::shape_of(old(graph)@[self@.node as int].data),
                T::shape_of(old(graph)@[other@.node as int].data),
            ),
        ensures
            final(graph)@ == old(graph)@.push(
                binary_node::<T>(
                    r@.node,
                    data.model(),
                    BinaryParams::VarVar(self@.node, other@.node),
                    rule,
                    models(args@),
                ),
            ),
            final(graph).wf(),
            r@.node == old(graph)@.len(),
            increasing(r@.tape),
            forall|x: NodeId|
                r@.tape.contains(x) <==> self@.tape.contains(x) || other@.tape.contains(x) || x
                    == old(graph)@.len(),
            tracks(final(graph)@, r@),
            extends(old(graph)@, final(graph)@),
    {
        let id: NodeId = graph.len();
        let node = Node::binary_varvar(id, data, (self.node, other.node), rule, args);
        let tape = self.tape.merge(&other.tape);
        proof {
            let nodes = graph@;
            let a = self@.tape;
            let b = other@.tape;
            let t = tape@;
            assert(a[a.len() - 1] == self@.node);
            assert(a.contains(self@.node));
            assert(b[b.len() - 1] == other@.node);
            assert(b.contains(other@.node));
            assert forall|k: int| 0 <= k < t.len() implies #[trigger] t[k] < nodes.len() by {
                assert(t.contains(t[k]));
                if a.contains(t[k]) {
                    let q = choose|q: int| 0 <= q < a.len() && a[q] == t[k];
                    assert(a[q] < nodes.len());
                } else {
                    let q = choose|q: int| 0 <= q < b.len() && b[q] == t[k];
                    assert(b[q] < nodes.len());
                }
            }
            assert forall|k: int, x: NodeId|
                0 <= k < t.len() && #[trigger] nodes[t[k] as int].origin.names(
                    x,
                ) implies t.contains(x) by {
                assert(t.contains(t[k]));
                if a.contains(t[k]) {
                    let q = choose|q: int| 0 <= q < a.len() && a[q] == t[k];
                    assert(nodes[a[q] as int].origin.names(x));
                    assert(a.contains(x));
                } else {
                    let q = choose|q: int| 0 <= q < b.len() && b[q] == t[k];
                    assert(nodes[b[q] as int].origin.names(x));
                    assert(b.contains(x));
                }
            }
        }
        let ghost merged = tape@;
        let r = Variable::new(graph, tape, node);
        proof {
            let n = old(graph)@.len() as NodeId;
            assert(r@.tape == merged.push(n));
            assert forall|x: NodeId|
                r@.tape.contains(x) <==> self@.tape.contains(x) || other@.tape.contains(x) || x
                    == n by {
                if r@.tape.contains(x) {
                    let q = choose|q: int| 0 <= q < r@.tape.len() && r@.tape[q] == x;
                    if q < merged.len() {
                        assert(merged[q] == x);
                        assert(merged.contains(x));
                    }
                }
                if merged.contains(x) {
                    let q = choose|q: int| 0 <= q < merged.len() && merged[q] == x;
                    assert(r@.tape[q] == x);
                }
                if x == n {
                    assert(r@.tape[merged.len() as int] == x);
                }
            }
        }
        r
    }

    /// Computes the gradients of this variable with respect to every node of
    /// its history: seeds its own gradient with ones, then visits its tape in
    /// decreasing order of identifier, each node adding its partial adjoints to
    /// the gradients of its operands. Every node ends with the gradient it had
    /// after seeding plus what the nodes of the history that depend on it
    /// handed to it, each from its own final gradient.
    pub fn backward<T: Numeric>(&self, graph: &mut Graph<T>)
        requires
            old(graph).wf(),
            tracks(old(graph)@, self@),
        ensures
            final(graph)@ == backpropagated::<T>(old(graph)@, self@.tape, self@.node),
            final(graph)@.len() == old(graph)@.len(),
            forall|x: NodeId|
                x < old(graph)@.len() ==> (#[trigger] final(graph)@[x as int]).grad == adjoint::<T>(
                    seeded::<T>(old(graph)@, self@.node),
                    self@.tape,
                    x,
                    0,
                ),
            final(graph).wf(),
            extends(old(graph)@, final(graph)@),
    {
        proof {
            assert(self@.tape[self@.tape.len() - 1] < graph@.len());
        }
        graph.seed(self.node);
        proof {
            let old_nodes = old(graph)@;
            let nodes = graph@;
            assert forall|k: int, a: NodeId|
                0 <= k < self@.tape.len() && #[trigger] nodes[self@.tape[k] as int].origin.names(
                    a,
                ) implies self@.tape.contains(a) by {
                assert(self@.tape[k] < old_nodes.len());
                assert(old_nodes[self@.tape[k] as int].origin.names(a));
            }
        }
        let ghost mid = graph@;
        graph.sweep(&self.tape);
        proof {
            lemma_seeded_extends::<T>(old(graph)@, self@.node);
            lemma_swept_extends::<T>(mid, self@.tape, self@.tape.len());
            law_backward_adjoint::<T>(old(graph)@, self@);
        }
    }

    /// Sets the gradient of every node of this variable's history to zero.
    pub fn reset<T: Numeric>(&self, graph: &mut Graph<T>)
        requires
            old(graph).wf(),
            tracks(old(graph)@, self@),
        ensures
            final(graph)@ == cleared::<T>(old(graph)@, self@.tape),
            final(graph).wf(),
            extends(old(graph)@, final(graph)@),
    {
        graph.clear(&self.tape);
        proof {
            lemma_cleared_extends::<T>(old(graph)@, self@.tape);
        }
    }
}

} // verus!
