//! The store of all nodes of one computation graph, indexed by identifier.

use vstd::prelude::*;
use crate::graph::node::{Node, NodeId, NodeModel, Partials};
use crate::graph::tape::{Tape, increasing};
use crate::numeric::Numeric;

verus! {

/// The nodes of one computation graph in creation order. A node's identifier is
/// its position, so identifiers grow with creation time and are never reused.
#[derive(Debug)]
pub struct Graph<T> {
    nodes: Vec<Node<T>>,
}

impl<T: Numeric> View for Graph<T> {
    type V = Seq<NodeModel<T::Model>>;

    closed spec fn view(&self) -> Seq<NodeModel<T::Model>> {
        self.nodes@.map_values(|n: Node<T>| n@)
    }
}

/// Whether node `i` is in its place: it carries its position as identifier, it
/// is sound, and each tracked operand was created before it and has the shape
/// of the partial adjoint that the node will hand to it.
pub open spec fn node_ok<T: Numeric>(nodes: Seq<NodeModel<T::Model>>, i: int) -> bool {
    &&& nodes[i].id == i
    &&& nodes[i].sound::<T>()
    &&& match nodes[i].reverse_shapes::<T>() {
        Partials::Nothing => true,
        Partials::One(a, s) => a < i && s == T::shape_of(nodes[a as int].data),
        Partials::Two(a, sa, b, sb) => {
            &&& a < i
            &&& b < i
            &&& sa == T::shape_of(nodes[a as int].data)
            &&& sb == T::shape_of(nodes[b as int].data)
        },
    }
}

/// The invariant of a graph: every node is in its place.
pub open spec fn well_formed<T: Numeric>(nodes: Seq<NodeModel<T::Model>>) -> bool {
    forall|i: int| 0 <= i < nodes.len() ==> #[trigger] node_ok::<T>(nodes, i)
}

/// Whether `tape` is the history of a value of the graph: ordered, within the
/// graph, and holding with each node the operands that node depends on.
pub open spec fn tape_ok<M>(nodes: Seq<NodeModel<M>>, tape: Seq<NodeId>) -> bool {
    &&& increasing(tape)
    &&& forall|k: int| 0 <= k < tape.len() ==> #[trigger] tape[k] < nodes.len()
    &&& forall|k: int, a: NodeId|
        0 <= k < tape.len() && #[trigger] nodes[tape[k] as int].origin.names(a) ==> tape.contains(a)
}

/// The nodes after the partial adjoint `p` was added to the gradient of node `a`.
pub open spec fn accumulated<T: Numeric>(
    nodes: Seq<NodeModel<T::Model>>,
    a: NodeId,
    p: T::Model,
) -> Seq<NodeModel<T::Model>> {
    if a < nodes.len() {
        nodes.update(
            a as int,
            NodeModel { grad: T::add_model(nodes[a as int].grad, p), ..nodes[a as int] },
        )
    } else {
        nodes
    }
}

/// The nodes after node `i` handed its partial adjoints to its tracked operands:
/// each is added to the operand's gradient, the first operand's first.
pub open spec fn reversed<T: Numeric>(nodes: Seq<NodeModel<T::Model>>, i: NodeId) -> Seq<
    NodeModel<T::Model>,
> {
    match nodes[i as int].reverse::<T>() {
        Partials::Nothing => nodes,
        Partials::One(a, p) => accumulated::<T>(nodes, a, p),
        Partials::Two(a, pa, b, pb) => accumulated::<T>(accumulated::<T>(nodes, a, pa), b, pb),
    }
}

/// The nodes after the gradient of node `i` was set to all ones, in the shape
/// of the node's value.
pub open spec fn seeded<T: Numeric>(nodes: Seq<NodeModel<T::Model>>, i: NodeId) -> Seq<
    NodeModel<T::Model>,
> {
    if i < nodes.len() {
        nodes.update(
            i as int,
            NodeModel { grad: T::ones_model(T::shape_of(nodes[i as int].data)), ..nodes[i as int] },
        )
    } else {
        nodes
    }
}

/// The nodes after the first `n` entries of `tape` were visited from the last
/// of them down to the first, each handing its partial adjoints on.
pub open spec fn swept<T: Numeric>(
    nodes: Seq<NodeModel<T::Model>>,
    tape: Seq<NodeId>,
    n: nat,
) -> Seq<NodeModel<T::Model>>
    decreases n,
{
    if n == 0 {
        nodes
    } else {
        swept::<T>(reversed::<T>(nodes, tape[n - 1]), tape, (n - 1) as nat)
    }
}

/// The nodes after a backward pass from `root` over `tape`: the root's gradient
/// is seeded with ones, then the tape is visited in decreasing order of
/// identifier.
pub open spec fn backpropagated<T: Numeric>(
    nodes: Seq<NodeModel<T::Model>>,
    tape: Seq<NodeId>,
    root: NodeId,
) -> Seq<NodeModel<T::Model>> {
    swept::<T>(seeded::<T>(nodes, root), tape, tape.len())
}

/// The nodes after the gradients of the nodes on `tape` were set to zero.
pub open spec fn cleared<T: Numeric>(nodes: Seq<NodeModel<T::Model>>, tape: Seq<NodeId>) -> Seq<
    NodeModel<T::Model>,
> {
    Seq::new(
        nodes.len(),
        |i: int|
            if tape.contains(nodes[i].id) {
                zeroed::<T>(nodes[i])
            } else {
                nodes[i]
            },
    )
}

/// The node with its gradient set to all zero, in the shape of its value.
pub open spec fn zeroed<T: Numeric>(node: NodeModel<T::Model>) -> NodeModel<T::Model> {
    NodeModel { grad: T::zeros_model(T::shape_of(node.data)), ..node }
}

/// Whether `new` holds every node of `old` with the same identifier, value and
/// origin. Gradients may differ, and `new` may hold more nodes.
pub open spec fn extends<M>(old: Seq<NodeModel<M>>, new: Seq<NodeModel<M>>) -> bool {
    &&& old.len() <= new.len()
    &&& forall|i: int|
        0 <= i < old.len() ==> {
            &&& (#[trigger] new[i]).id == old[i].id
            &&& new[i].data == old[i].data
            &&& new[i].origin == old[i].origin
        }
}

/// Adding to a gradient keeps identifiers, values and origins.
pub proof fn lemma_accumulated_extends<T: Numeric>(
    nodes: Seq<NodeModel<T::Model>>,
    a: NodeId,
    p: T::Model,
)
    ensures
        extends(nodes, accumulated::<T>(nodes, a, p)),
        accumulated::<T>(nodes, a, p).len() == nodes.len(),
{
}

/// Seeding a gradient keeps identifiers, values and origins.
pub proof fn lemma_seeded_extends<T: Numeric>(nodes: Seq<NodeModel<T::Model>>, i: NodeId)
    ensures
        extends(nodes, seeded::<T>(nodes, i)),
        seeded::<T>(nodes, i).len() == nodes.len(),
{
}

/// One step of the backward pass keeps identifiers, values and origins.
pub proof fn lemma_reversed_extends<T: Numeric>(nodes: Seq<NodeModel<T::Model>>, i: NodeId)
    ensures
        extends(nodes, reversed::<T>(nodes, i)),
        reversed::<T>(nodes, i).len() == nodes.len(),
{
    match nodes[i as int].reverse::<T>() {
        Partials::Nothing => {},
        Partials::One(a, p) => {
            lemma_accumulated_extends::<T>(nodes, a, p);
        },
        Partials::Two(a, pa, b, pb) => {
            lemma_accumulated_extends::<T>(nodes, a, pa);
            lemma_accumulated_extends::<T>(accumulated::<T>(nodes, a, pa), b, pb);
        },
    }
}

/// A sweep over a tape keeps identifiers, values and origins.
pub proof fn lemma_swept_extends<T: Numeric>(
    nodes: Seq<NodeModel<T::Model>>,
    tape: Seq<NodeId>,
    n: nat,
)
    ensures
        extends(nodes, swept::<T>(nodes, tape, n)),
        swept::<T>(nodes, tape, n).len() == nodes.len(),
    decreases n,
{
    if n > 0 {
        lemma_reversed_extends::<T>(nodes, tape[n - 1]);
        lemma_swept_extends::<T>(reversed::<T>(nodes, tape[n - 1]), tape, (n - 1) as nat);
    }
}

/// Clearing gradients keeps identifiers, values and origins.
pub proof fn lemma_cleared_extends<T: Numeric>(nodes: Seq<NodeModel<T::Model>>, tape: Seq<NodeId>)
    ensures
        extends(nodes, cleared::<T>(nodes, tape)),
        cleared::<T>(nodes, tape).len() == nodes.len(),
{
}

/// Handing partial adjoints on changes no node count.
pub proof fn lemma_reversed_len<T: Numeric>(nodes: Seq<NodeModel<T::Model>>, i: NodeId)
    ensures
        reversed::<T>(nodes, i).len() == nodes.len(),
{
}

impl<T: Numeric> Graph<T> {
    /// The invariant of the graph.
    pub open spec fn wf(&self) -> bool {
        well_formed::<T>(self@)
    }

    /// The graph without nodes.
    pub fn new() -> (g: Self)
        ensures
            g@ == Seq::<NodeModel<T::Model>>::empty(),
            g.wf(),
    {
        let g = Graph { nodes: Vec::new() };
        assert(g@ =~= Seq::<NodeModel<T::Model>>::empty());
        g
    }

    /// The number of nodes, which is the identifier of the next node.
    pub fn len(&self) -> (n: usize)
        ensures
            n == self@.len(),
    {
        self.nodes.len()
    }

    /// The node with the given identifier.
    pub fn node(&self, id: NodeId) -> (r: &Node<T>)
        requires
            id < self@.len(),
        ensures
            r@ == self@[id as int],
    {
        &self.nodes[id]
    }

    /// Whether `tape` is the history of a value of this graph whose node is
    /// `node`: ordered, within the graph, closed under operands, and ending in
    /// `node`.
    pub fn holds(&self, tape: &Tape, node: NodeId) -> (r: bool)
        ensures
            r == (tape_ok(self@, tape@) && tape@.len() > 0 && tape@.last() == node),
    {
        if !tape.is_ordered() {
            return false;
        }
        let ids = tape.nodes();
        let n: usize = ids.len();
        if n == 0 || ids[n - 1] != node {
            return false;
        }
        let mut k: usize = 0;
        while k < n
            invariant
                0 <= k <= n,
                n == tape@.len(),
                ids@ == tape@,
                tape.wf(),
                forall|q: int| 0 <= q < k ==> #[trigger] tape@[q] < self@.len(),
                forall|q: int, a: NodeId|
                    0 <= q < k && #[trigger] self@[tape@[q] as int].origin.names(a)
                        ==> tape@.contains(a),
            decreases n - k,
        {
            let id: NodeId = ids[k];
            if id >= self.nodes.len() {
                assert(!(tape@[k as int] < self@.len()));
                return false;
            }
            let (first, second) = self.nodes[id].ancestors();
            let first_ok = match first {
                Some(a) => tape.contains(a),
                None => true,
            };
            let second_ok = match second {
                Some(b) => tape.contains(b),
                None => true,
            };
            if !first_ok || !second_ok {
                proof {
                    let missing = if !first_ok {
                        first->Some_0
                    } else {
                        second->Some_0
                    };
                    assert(self@[tape@[k as int] as int].origin.names(missing));
                    assert(!tape@.contains(missing));
                }
                return false;
            }
            k = k + 1;
        }
        true
    }

    /// Appends a node whose identifier is the graph's length.
    pub fn push(&mut self, node: Node<T>) -> (id: NodeId)
        requires
            old(self).wf(),
            node_ok::<T>(old(self)@.push(node@), old(self)@.len() as int),
        ensures
            id == old(self)@.len(),
            final(self)@ == old(self)@.push(node@),
            final(self).wf(),
    {
        let id: NodeId = self.nodes.len();
        self.nodes.push(node);
        proof {
            assert(self@ =~= old(self)@.push(node@));
            assert forall|i: int| 0 <= i < self@.len() implies #[trigger] node_ok::<T>(
                self@,
                i,
            ) by {
                if i < old(self)@.len() {
                    assert(node_ok::<T>(old(self)@, i));
                }
            }
        }
        id
    }

    /// Sets the gradient of the node to all ones.
    pub fn seed(&mut self, id: NodeId)
        requires
            old(self).wf(),
            id < old(self)@.len(),
        ensures
            final(self)@ == seeded::<T>(old(self)@, id),
            final(self).wf(),
    {
        assert(node_ok::<T>(self@, id as int));
        self.nodes[id].ones_grad();
        proof {
            assert(self@ =~= seeded::<T>(old(self)@, id));
            assert forall|i: int| 0 <= i < self@.len() implies #[trigger] node_ok::<T>(
                self@,
                i,
            ) by {
                assert(node_ok::<T>(old(self)@, i));
            }
        }
    }

    /// Lets the node hand its partial adjoints to its tracked operands.
    pub fn reverse(&mut self, id: NodeId)
        requires
            old(self).wf(),
            id < old(self)@.len(),
        ensures
            final(self)@ == reversed::<T>(old(self)@, id),
            final(self).wf(),
    {
        assert(node_ok::<T>(self@, id as int));
        let partials = self.nodes[id].reverse();
        match partials {
            Partials::Nothing => {},
            Partials::One(a, p) => {
                assert(node_ok::<T>(self@, a as int));
                self.nodes[a].accumulate(&p);
                proof {
                    assert(self@ =~= accumulated::<T>(old(self)@, a, p.model()));
                    assert forall|i: int| 0 <= i < self@.len() implies #[trigger] node_ok::<T>(
                        self@,
                        i,
                    ) by {
                        assert(node_ok::<T>(old(self)@, i));
                    }
                }
            },
            Partials::Two(a, pa, b, pb) => {
                assert(node_ok::<T>(self@, a as int));
                assert(node_ok::<T>(self@, b as int));
                self.nodes[a].accumulate(&pa);
                let ghost mid = self@;
                proof {
                    assert(mid =~= accumulated::<T>(old(self)@, a, pa.model()));
                    assert forall|i: int| 0 <= i < mid.len() implies #[trigger] node_ok::<T>(
                        mid,
                        i,
                    ) by {
                        assert(node_ok::<T>(old(self)@, i));
                    }
                }
                self.nodes[b].accumulate(&pb);
                proof {
                    assert(self@ =~= accumulated::<T>(mid, b, pb.model()));
                    assert forall|i: int| 0 <= i < self@.len() implies #[trigger] node_ok::<T>(
                        self@,
                        i,
                    ) by {
                        assert(node_ok::<T>(mid, i));
                    }
                }
            },
        }
    }

    /// Visits the nodes on the tape in decreasing order of identifier and lets
    /// each hand its partial adjoints on.
    pub fn sweep(&mut self, tape: &Tape)
        requires
            old(self).wf(),
            tape_ok(old(self)@, tape@),
        ensures
            final(self)@ == swept::<T>(old(self)@, tape@, tape@.len()),
            final(self).wf(),
    {
        let ghost start = self@;
        let ids = tape.nodes();
        let mut k: usize = ids.len();
        while k > 0
            invariant
                0 <= k <= ids@.len(),
                ids@ == tape@,
                self.wf(),
                self@.len() == start.len(),
                forall|j: int| 0 <= j < tape@.len() ==> #[trigger] tape@[j] < start.len(),
                swept::<T>(self@, tape@, k as nat) == swept::<T>(start, tape@, tape@.len()),
            decreases k,
        {
            k = k - 1;
            let id: NodeId = ids[k];
            assert(tape@[k as int] < self@.len());
            let ghost before = self@;
            self.reverse(id);
            proof {
                lemma_reversed_len::<T>(before, id);
            }
        }
    }

    /// Sets the gradient of every node on the tape to zero.
    pub fn clear(&mut self, tape: &Tape)
        requires
            old(self).wf(),
            tape_ok(old(self)@, tape@),
        ensures
            final(self)@ == cleared::<T>(old(self)@, tape@),
            final(self).wf(),
    {
        let ghost start = self@;
        let ids = tape.nodes();
        let mut k: usize = ids.len();
        while k > 0
            invariant
                0 <= k <= ids@.len(),
                ids@ == tape@,
                increasing(tape@),
                self.wf(),
                well_formed::<T>(start),
                self@.len() == start.len(),
                forall|j: int| 0 <= j < tape@.len() ==> #[trigger] tape@[j] < start.len(),
                forall|i: int|
                    0 <= i < start.len() ==> #[trigger] self@[i] == if tape@.subrange(
                        k as int,
                        tape@.len() as int,
                    ).contains(start[i].id) {
                        zeroed::<T>(start[i])
                    } else {
                        start[i]
                    },
            decreases k,
        {
            k = k - 1;
            let id: NodeId = ids[k];
            assert(tape@[k as int] < self@.len());
            let ghost before = self@;
            assert(node_ok::<T>(before, id as int));
            self.nodes[id].zero_grad();
            proof {
                let done0 = tape@.subrange(k as int + 1, tape@.len() as int);
                let done = tape@.subrange(k as int, tape@.len() as int);
                assert(self@ =~= before.update(id as int, zeroed::<T>(before[id as int])));
                assert forall|i: int| 0 <= i < self@.len() implies #[trigger] node_ok::<T>(
                    self@,
                    i,
                ) by {
                    assert(node_ok::<T>(before, i));
                }
                assert(done[0] == id);
                assert forall|x: NodeId| done.contains(x) <==> done0.contains(x) || x == id by {
                    if done.contains(x) {
                        let q = choose|q: int| 0 <= q < done.len() && done[q] == x;
                        if q > 0 {
                            assert(done0[q - 1] == x);
                        }
                    }
                    if done0.contains(x) {
                        let q = choose|q: int| 0 <= q < done0.len() && done0[q] == x;
                        assert(done[q + 1] == x);
                    }
                }
                if done0.contains(id) {
                    let q = choose|q: int| 0 <= q < done0.len() && done0[q] == id;
                    assert(tape@[k as int] < tape@[k as int + 1 + q]);
                }
                assert forall|i: int| 0 <= i < start.len() implies #[trigger] self@[i] == if done.contains(
                    start[i].id,
                ) {
                    zeroed::<T>(start[i])
                } else {
                    start[i]
                } by {
                    assert(node_ok::<T>(start, i));
                    assert(before[i] == if done0.contains(start[i].id) {
                        zeroed::<T>(start[i])
                    } else {
                        start[i]
                    });
                }
            }
        }
        proof {
            assert(tape@.subrange(0, tape@.len() as int) =~= tape@);
            assert(self@ =~= cleared::<T>(start, tape@));
        }
    }
}

} // verus!
