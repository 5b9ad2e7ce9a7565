//! What a backward pass computes, stated node by node.
//!
//! The pass visits a tape from its last node down to its first. The gradient
//! that a node ends with is the gradient it started with plus, in decreasing
//! order of identifier, what each node on the tape that depends on it handed
//! to it; and each of those handed on what its reverse rule yields from the
//! gradient it ended with itself.

use vstd::prelude::*;
use crate::graph::arena::{
    Graph, accumulated, backpropagated, cleared, extends, lemma_reversed_extends,
    lemma_seeded_extends, node_ok, reversed, seeded, swept, well_formed,
};
use crate::graph::node::{NodeId, NodeModel, Partials};
use crate::graph::tape::increasing;
use crate::numeric::Numeric;
use crate::tensor::constant::Constant;
use crate::tensor::variable::{
    Variable, VariableModel, declaration_node, lemma_tracks_extends, tracks,
};

verus! {

/// Whether every node was created after the nodes it depends on.
pub open spec fn ordered<M>(nodes: Seq<NodeModel<M>>) -> bool {
    forall|i: int, a: NodeId|
        0 <= i < nodes.len() && #[trigger] nodes[i].origin.names(a) ==> a < i
}

/// Whether every node on the tape is a node of the graph.
pub open spec fn within<M>(nodes: Seq<NodeModel<M>>, tape: Seq<NodeId>) -> bool {
    forall|k: int| 0 <= k < tape.len() ==> #[trigger] tape[k] < nodes.len()
}

/// The gradient `acc` of node `x` after the node `c` handed its partial
/// adjoints on: those that belong to `x` were added to `acc`, the first
/// operand's first.
pub open spec fn handed<T: Numeric>(c: NodeModel<T::Model>, x: NodeId, acc: T::Model) -> T::Model {
    match c.reverse::<T>() {
        Partials::Nothing => acc,
        Partials::One(a, p) => if a == x {
            T::add_model(acc, p)
        } else {
            acc
        },
        Partials::Two(a, pa, b, pb) => {
            let first = if a == x {
                T::add_model(acc, pa)
            } else {
                acc
            };
            if b == x {
                T::add_model(first, pb)
            } else {
                first
            }
        },
    }
}

/// The gradient of node `x` once the entries of `tape` from the last down to
/// entry `j` have handed their partial adjoints on: the gradient that `x` has
/// in `nodes`, plus what each of those entries that was created after `x`
/// hands to `x`, computed from the gradient that entry ends with.
pub open spec fn adjoint<T: Numeric>(
    nodes: Seq<NodeModel<T::Model>>,
    tape: Seq<NodeId>,
    x: NodeId,
    j: nat,
) -> T::Model
    decreases nodes.len() - x, tape.len() - j,
{
    if j >= tape.len() {
        nodes[x as int].grad
    } else {
        let acc = adjoint::<T>(nodes, tape, x, j + 1);
        let c = tape[j as int];
        if x < c && c < nodes.len() {
            handed::<T>(
                NodeModel { grad: adjoint::<T>(nodes, tape, c, 0), ..nodes[c as int] },
                x,
                acc,
            )
        } else {
            acc
        }
    }
}

/// The nodes once the entries of `tape` from the last down to entry `j` have
/// handed their partial adjoints on.
pub open spec fn after<T: Numeric>(
    nodes: Seq<NodeModel<T::Model>>,
    tape: Seq<NodeId>,
    j: nat,
) -> Seq<NodeModel<T::Model>>
    decreases tape.len() - j,
{
    if j >= tape.len() {
        nodes
    } else {
        reversed::<T>(after::<T>(nodes, tape, j + 1), tape[j as int])
    }
}

/// A well-formed graph is ordered.
pub proof fn lemma_well_formed_ordered<T: Numeric>(nodes: Seq<NodeModel<T::Model>>)
    requires
        well_formed::<T>(nodes),
    ensures
        ordered(nodes),
{
    assert forall|i: int, a: NodeId|
        0 <= i < nodes.len() && #[trigger] nodes[i].origin.names(a) implies a < i by {
        assert(node_ok::<T>(nodes, i));
    }
}

/// A graph that keeps its origins stays ordered.
pub proof fn lemma_ordered_extends<M>(old: Seq<NodeModel<M>>, new: Seq<NodeModel<M>>)
    requires
        ordered(old),
        extends(old, new),
        old.len() == new.len(),
    ensures
        ordered(new),
{
    assert forall|i: int, a: NodeId|
        0 <= i < new.len() && #[trigger] new[i].origin.names(a) implies a < i by {
        assert(new[i].origin == old[i].origin);
        assert(old[i].origin.names(a));
    }
}

/// A node hands nothing to a node that it does not depend on.
pub proof fn lemma_handed_elsewhere<T: Numeric>(c: NodeModel<T::Model>, x: NodeId, acc: T::Model)
    requires
        !c.origin.names(x),
    ensures
        handed::<T>(c, x, acc) == acc,
{
}

/// One step of the backward pass changes the gradient of each node by what the
/// visited node hands to it, and nothing else.
pub proof fn lemma_reversed_handed<T: Numeric>(
    nodes: Seq<NodeModel<T::Model>>,
    i: NodeId,
    x: NodeId,
)
    requires
        i < nodes.len(),
        x < nodes.len(),
    ensures
        reversed::<T>(nodes, i)[x as int] == (NodeModel {
            grad: handed::<T>(nodes[i as int], x, nodes[x as int].grad),
            ..nodes[x as int]
        }),
{
    match nodes[i as int].reverse::<T>() {
        Partials::Nothing => {},
        Partials::One(a, p) => {},
        Partials::Two(a, pa, b, pb) => {
            let mid = accumulated::<T>(nodes, a, pa);
            assert(mid.len() == nodes.len());
        },
    }
}

/// Entries of the tape that were created no later than `x` hand nothing to `x`.
pub proof fn lemma_adjoint_settled<T: Numeric>(
    nodes: Seq<NodeModel<T::Model>>,
    tape: Seq<NodeId>,
    x: NodeId,
    j: nat,
)
    requires
        j <= tape.len(),
        forall|k: int| 0 <= k < j ==> tape[k] <= x,
    ensures
        adjoint::<T>(nodes, tape, x, 0) == adjoint::<T>(nodes, tape, x, j),
    decreases j,
{
    if j > 0 {
        lemma_adjoint_settled::<T>(nodes, tape, x, (j - 1) as nat);
        assert(tape[j - 1] <= x);
    }
}

/// Entries of the tape that do not depend on `x` hand nothing to `x`.
pub proof fn lemma_adjoint_skip<T: Numeric>(
    nodes: Seq<NodeModel<T::Model>>,
    tape: Seq<NodeId>,
    x: NodeId,
    lo: nat,
    hi: nat,
)
    requires
        lo <= hi <= tape.len(),
        within(nodes, tape),
        forall|k: int| lo <= k < hi ==> !(#[trigger] nodes[tape[k] as int].origin.names(x)),
    ensures
        adjoint::<T>(nodes, tape, x, lo) == adjoint::<T>(nodes, tape, x, hi),
    decreases hi - lo,
{
    if lo < hi {
        lemma_adjoint_skip::<T>(nodes, tape, x, lo + 1, hi);
        let c = tape[lo as int];
        assert(!nodes[tape[lo as int] as int].origin.names(x));
        if x < c && c < nodes.len() {
            lemma_handed_elsewhere::<T>(
                NodeModel { grad: adjoint::<T>(nodes, tape, c, 0), ..nodes[c as int] },
                x,
                adjoint::<T>(nodes, tape, x, lo + 1),
            );
        }
    }
}

/// The state of the graph part of the way through a backward pass.
pub proof fn lemma_after_adjoint<T: Numeric>(
    nodes: Seq<NodeModel<T::Model>>,
    tape: Seq<NodeId>,
    j: nat,
)
    requires
        ordered(nodes),
        increasing(tape),
        within(nodes, tape),
        j <= tape.len(),
    ensures
        after::<T>(nodes, tape, j).len() == nodes.len(),
        extends(nodes, after::<T>(nodes, tape, j)),
        forall|x: NodeId|
            x < nodes.len() ==> (#[trigger] after::<T>(nodes, tape, j)[x as int]).grad
                == adjoint::<T>(nodes, tape, x, j),
    decreases tape.len() - j,
{
    if j < tape.len() {
        lemma_after_adjoint::<T>(nodes, tape, j + 1);
        let prev = after::<T>(nodes, tape, j + 1);
        let cur = after::<T>(nodes, tape, j);
        let c = tape[j as int];
        assert(c < nodes.len());
        lemma_reversed_extends::<T>(prev, c);
        assert(cur == reversed::<T>(prev, c));
        assert forall|x: NodeId| x < nodes.len() implies (#[trigger] cur[x as int]).grad
            == adjoint::<T>(nodes, tape, x, j) by {
            lemma_reversed_handed::<T>(prev, c, x);
            assert(prev[x as int].grad == adjoint::<T>(nodes, tape, x, j + 1));
            assert(prev[c as int].grad == adjoint::<T>(nodes, tape, c, j + 1));
            assert forall|k: int| 0 <= k < j + 1 implies tape[k] <= c by {
                if k < j {
                    assert(tape[k] < tape[j as int]);
                }
            }
            lemma_adjoint_settled::<T>(nodes, tape, c, j + 1);
            let settled = NodeModel { grad: adjoint::<T>(nodes, tape, c, 0), ..nodes[c as int] };
            assert(prev[c as int] == settled);
            if x < c {
            } else {
                assert(!nodes[c as int].origin.names(x)) by {
                    if nodes[c as int].origin.names(x) {
                        assert(x < c);
                    }
                }
                lemma_handed_elsewhere::<T>(prev[c as int], x, prev[x as int].grad);
            }
        }
        assert forall|i: int| 0 <= i < nodes.len() implies {
            &&& (#[trigger] cur[i]).id == nodes[i].id
            &&& cur[i].data == nodes[i].data
            &&& cur[i].origin == nodes[i].origin
        } by {
            assert(cur[i].id == prev[i].id);
        }
    }
}

/// A sweep over the whole tape ends in the state after its first entry.
pub proof fn lemma_swept_after<T: Numeric>(
    nodes: Seq<NodeModel<T::Model>>,
    tape: Seq<NodeId>,
    j: nat,
)
    requires
        j <= tape.len(),
    ensures
        swept::<T>(after::<T>(nodes, tape, j), tape, j) == swept::<T>(nodes, tape, tape.len()),
    decreases tape.len() - j,
{
    if j < tape.len() {
        lemma_swept_after::<T>(nodes, tape, j + 1);
    }
}

/// After a sweep over a tape, every node of the graph has the gradient that
/// [`adjoint`] describes, and its identifier, value and origin as before.
pub proof fn lemma_swept_adjoint<T: Numeric>(nodes: Seq<NodeModel<T::Model>>, tape: Seq<NodeId>)
    requires
        ordered(nodes),
        increasing(tape),
        within(nodes, tape),
    ensures
        swept::<T>(nodes, tape, tape.len()).len() == nodes.len(),
        extends(nodes, swept::<T>(nodes, tape, tape.len())),
        forall|x: NodeId|
            x < nodes.len() ==> (#[trigger] swept::<T>(nodes, tape, tape.len())[x as int])
                == (NodeModel { grad: adjoint::<T>(nodes, tape, x, 0), ..nodes[x as int] }),
{
    lemma_swept_after::<T>(nodes, tape, 0);
    lemma_after_adjoint::<T>(nodes, tape, 0);
    let end = after::<T>(nodes, tape, 0);
    assert forall|x: NodeId| x < nodes.len() implies (#[trigger] end[x as int]) == (NodeModel {
        grad: adjoint::<T>(nodes, tape, x, 0),
        ..nodes[x as int]
    }) by {
        assert(end[x as int].id == nodes[x as int].id);
    }
}

/// Soundness of the backward pass. After a backward pass from a variable of a
/// well-formed graph, every node has its identifier, value and origin as
/// before, and its gradient is the one it had after seeding plus what the
/// nodes on the tape that depend on it handed to it, in decreasing order of
/// identifier, each from the gradient it ended with itself.
pub proof fn law_backward_adjoint<T: Numeric>(nodes: Seq<NodeModel<T::Model>>, v: VariableModel)
    requires
        well_formed::<T>(nodes),
        tracks(nodes, v),
    ensures
        backpropagated::<T>(nodes, v.tape, v.node).len() == nodes.len(),
        forall|x: NodeId|
            x < nodes.len() ==> (#[trigger] backpropagated::<T>(nodes, v.tape, v.node)[x as int])
                == (NodeModel {
                grad: adjoint::<T>(seeded::<T>(nodes, v.node), v.tape, x, 0),
                ..nodes[x as int]
            }),
{
    let start = seeded::<T>(nodes, v.node);
    lemma_well_formed_ordered::<T>(nodes);
    lemma_seeded_extends::<T>(nodes, v.node);
    lemma_ordered_extends(nodes, start);
    assert(within(start, v.tape)) by {
        assert forall|k: int| 0 <= k < v.tape.len() implies #[trigger] v.tape[k] < start.len() by {
            assert(v.tape[k] < nodes.len());
        }
    }
    lemma_swept_adjoint::<T>(start, v.tape);
    assert forall|x: NodeId| x < nodes.len() implies (#[trigger] backpropagated::<T>(
        nodes,
        v.tape,
        v.node,
    )[x as int]) == (NodeModel {
        grad: adjoint::<T>(start, v.tape, x, 0),
        ..nodes[x as int]
    }) by {
        let end = swept::<T>(start, v.tape, v.tape.len());
        assert(end[x as int] == (NodeModel {
            grad: adjoint::<T>(start, v.tape, x, 0),
            ..start[x as int]
        }));
        assert(start[x as int].id == nodes[x as int].id);
    }
}

/// The root of a backward pass ends with a gradient of all ones: it is the last
/// node of its own history, so nothing is handed to it.
pub proof fn law_root_gradient<T: Numeric>(nodes: Seq<NodeModel<T::Model>>, v: VariableModel)
    requires
        well_formed::<T>(nodes),
        tracks(nodes, v),
    ensures
        backpropagated::<T>(nodes, v.tape, v.node)[v.node as int].grad == T::ones_model(
            T::shape_of(nodes[v.node as int].data),
        ),
{
    let start = seeded::<T>(nodes, v.node);
    law_backward_adjoint::<T>(nodes, v);
    assert(v.tape[v.tape.len() - 1] == v.node);
    assert(v.node < nodes.len());
    assert forall|k: int| 0 <= k < v.tape.len() implies v.tape[k] <= v.node by {
        if k < v.tape.len() - 1 {
            assert(v.tape[k] < v.tape[v.tape.len() - 1]);
        }
    }
    lemma_adjoint_settled::<T>(start, v.tape, v.node, v.tape.len());
}

/// A node on which no node of the tape depends keeps the gradient it had
/// after seeding.
pub proof fn law_untouched_gradient<T: Numeric>(
    nodes: Seq<NodeModel<T::Model>>,
    v: VariableModel,
    x: NodeId,
)
    requires
        well_formed::<T>(nodes),
        tracks(nodes, v),
        x < nodes.len(),
        forall|k: int| 0 <= k < v.tape.len() ==> !(#[trigger] nodes[v.tape[k] as int].origin.names(x)),
    ensures
        backpropagated::<T>(nodes, v.tape, v.node)[x as int].grad == seeded::<T>(
            nodes,
            v.node,
        )[x as int].grad,
{
    let start = seeded::<T>(nodes, v.node);
    law_backward_adjoint::<T>(nodes, v);
    lemma_seeded_extends::<T>(nodes, v.node);
    assert forall|k: int| 0 <= k < v.tape.len() implies !(#[trigger] start[v.tape[k] as int].origin.names(
        x,
    )) by {
        assert(v.tape[k] < nodes.len());
        assert(start[v.tape[k] as int].origin == nodes[v.tape[k] as int].origin);
        assert(!nodes[v.tape[k] as int].origin.names(x));
    }
    assert(within(start, v.tape)) by {
        assert forall|k: int| 0 <= k < v.tape.len() implies #[trigger] v.tape[k] < start.len() by {
            assert(v.tape[k] < nodes.len());
        }
    }
    lemma_adjoint_skip::<T>(start, v.tape, x, 0, v.tape.len());
}

/// A backward pass leaves every node outside the history of its root as it
/// was.
pub proof fn law_outside_history_unchanged<T: Numeric>(
    nodes: Seq<NodeModel<T::Model>>,
    v: VariableModel,
    x: NodeId,
)
    requires
        well_formed::<T>(nodes),
        tracks(nodes, v),
        x < nodes.len(),
        !v.tape.contains(x),
    ensures
        backpropagated::<T>(nodes, v.tape, v.node)[x as int] == nodes[x as int],
{
    assert(v.tape[v.tape.len() - 1] == v.node);
    assert(x != v.node);
    law_backward_adjoint::<T>(nodes, v);
    law_untouched_gradient::<T>(nodes, v, x);
}

/// Gradients add up. Where exactly two nodes on the tape of the root
/// depend on a node `x` other than the root, the entries `first` and `second`
/// of the tape, `x` ends with the gradient it had before the pass plus what
/// the later of the two hands to it plus what the earlier hands to it, each
/// from the gradient it ended with itself.
pub proof fn law_additive_accumulation<T: Numeric>(
    nodes: Seq<NodeModel<T::Model>>,
    v: VariableModel,
    x: NodeId,
    first: int,
    second: int,
)
    requires
        well_formed::<T>(nodes),
        tracks(nodes, v),
        x < nodes.len(),
        x != v.node,
        0 <= first < second < v.tape.len(),
        forall|k: int|
            0 <= k < v.tape.len() ==> ((#[trigger] nodes[v.tape[k] as int].origin.names(x)) <==> (k
                == first || k == second)),
    ensures
        ({
            let end = backpropagated::<T>(nodes, v.tape, v.node);
            end[x as int].grad == handed::<T>(
                end[v.tape[first] as int],
                x,
                handed::<T>(end[v.tape[second] as int], x, nodes[x as int].grad),
            )
        }),
{
    let start = seeded::<T>(nodes, v.node);
    let tape = v.tape;
    let n = tape.len();
    law_backward_adjoint::<T>(nodes, v);
    lemma_well_formed_ordered::<T>(nodes);
    lemma_seeded_extends::<T>(nodes, v.node);
    assert(within(start, tape)) by {
        assert forall|k: int| 0 <= k < tape.len() implies #[trigger] tape[k] < start.len() by {
            assert(tape[k] < nodes.len());
        }
    }
    assert forall|k: int| 0 <= k < n implies ((#[trigger] start[tape[k] as int].origin.names(x)) <==> (
    k == first || k == second)) by {
        assert(tape[k] < nodes.len());
        assert(start[tape[k] as int].origin == nodes[tape[k] as int].origin);
        assert(nodes[tape[k] as int].origin.names(x) <==> (k == first || k == second));
    }
    let c1 = tape[first];
    let c2 = tape[second];
    assert(c1 < nodes.len() && c2 < nodes.len());
    assert(nodes[tape[first] as int].origin.names(x));
    assert(nodes[tape[second] as int].origin.names(x));
    assert(x < c1 && x < c2);
    lemma_adjoint_skip::<T>(start, tape, x, 0, first as nat);
    lemma_adjoint_skip::<T>(start, tape, x, (first + 1) as nat, second as nat);
    lemma_adjoint_skip::<T>(start, tape, x, (second + 1) as nat, n);
    let end = backpropagated::<T>(nodes, tape, v.node);
    assert(end[c1 as int] == (NodeModel {
        grad: adjoint::<T>(start, tape, c1, 0),
        ..start[c1 as int]
    })) by {
        assert(start[c1 as int].id == nodes[c1 as int].id);
    }
    assert(end[c2 as int] == (NodeModel {
        grad: adjoint::<T>(start, tape, c2, 0),
        ..start[c2 as int]
    })) by {
        assert(start[c2 as int].id == nodes[c2 as int].id);
    }
    assert(start[x as int].grad == nodes[x as int].grad);
    assert(adjoint::<T>(start, tape, x, n) == nodes[x as int].grad);
    assert(adjoint::<T>(start, tape, x, second as nat) == handed::<T>(
        end[c2 as int],
        x,
        adjoint::<T>(start, tape, x, (second + 1) as nat),
    ));
    assert(adjoint::<T>(start, tape, x, first as nat) == handed::<T>(
        end[c1 as int],
        x,
        adjoint::<T>(start, tape, x, (first + 1) as nat),
    ));
}

/// The chain rule. Where the root `z` depends on `y` and `y` on `x`, and
/// nothing else on the tape of the root depends on `x` or on `y`, then
/// whatever other nodes the graph holds, `z` ends with a gradient of ones,
/// `y` with the gradient it had before plus what `z` hands to it, and `x`
/// with the gradient it had before plus what `y` hands to it from that.
pub proof fn law_chain_rule<T: Numeric>(
    nodes: Seq<NodeModel<T::Model>>,
    v: VariableModel,
    x: NodeId,
    at_y: int,
)
    requires
        well_formed::<T>(nodes),
        tracks(nodes, v),
        x < nodes.len(),
        0 <= at_y < v.tape.len() - 1,
        forall|k: int|
            0 <= k < v.tape.len() ==> ((#[trigger] nodes[v.tape[k] as int].origin.names(x)) <==> k
                == at_y),
        forall|k: int|
            0 <= k < v.tape.len() ==> ((#[trigger] nodes[v.tape[k] as int].origin.names(
                v.tape[at_y],
            )) <==> k == v.tape.len() - 1),
    ensures
        ({
            let end = backpropagated::<T>(nodes, v.tape, v.node);
            let y = v.tape[at_y];
            let z = v.node;
            &&& end[z as int].grad == T::ones_model(T::shape_of(nodes[z as int].data))
            &&& end[y as int].grad == handed::<T>(end[z as int], y, nodes[y as int].grad)
            &&& end[x as int].grad == handed::<T>(end[y as int], x, nodes[x as int].grad)
        }),
{
    let start = seeded::<T>(nodes, v.node);
    let tape = v.tape;
    let n = tape.len();
    let y = tape[at_y];
    let z = v.node;
    let last = (n - 1) as int;
    assert(tape[last] == z);
    law_backward_adjoint::<T>(nodes, v);
    law_root_gradient::<T>(nodes, v);
    lemma_well_formed_ordered::<T>(nodes);
    lemma_seeded_extends::<T>(nodes, v.node);
    assert(y < nodes.len() && z < nodes.len());
    assert(y < z) by {
        assert(tape[at_y] < tape[last]);
    }
    assert(nodes[tape[at_y] as int].origin.names(x));
    assert(x < y);
    assert(nodes[tape[last] as int].origin.names(y));
    assert(within(start, tape)) by {
        assert forall|k: int| 0 <= k < tape.len() implies #[trigger] tape[k] < start.len() by {
            assert(tape[k] < nodes.len());
        }
    }
    assert forall|k: int| 0 <= k < n implies ((#[trigger] start[tape[k] as int].origin.names(x)) <==> k
        == at_y) by {
        assert(tape[k] < nodes.len());
        assert(start[tape[k] as int].origin == nodes[tape[k] as int].origin);
        assert(nodes[tape[k] as int].origin.names(x) <==> k == at_y);
    }
    assert forall|k: int| 0 <= k < n implies ((#[trigger] start[tape[k] as int].origin.names(y)) <==> k
        == last) by {
        assert(tape[k] < nodes.len());
        assert(start[tape[k] as int].origin == nodes[tape[k] as int].origin);
        assert(nodes[tape[k] as int].origin.names(y) <==> k == last);
    }
    let end = backpropagated::<T>(nodes, tape, z);
    assert(end[y as int] == (NodeModel {
        grad: adjoint::<T>(start, tape, y, 0),
        ..start[y as int]
    })) by {
        assert(start[y as int].id == nodes[y as int].id);
    }
    assert(end[z as int] == (NodeModel {
        grad: adjoint::<T>(start, tape, z, 0),
        ..start[z as int]
    })) by {
        assert(start[z as int].id == nodes[z as int].id);
        assert(start[z as int].data == nodes[z as int].data);
        assert(start[z as int].origin == nodes[z as int].origin);
    }
    // what x receives
    lemma_adjoint_skip::<T>(start, tape, x, 0, at_y as nat);
    lemma_adjoint_skip::<T>(start, tape, x, (at_y + 1) as nat, n);
    assert(adjoint::<T>(start, tape, x, n) == start[x as int].grad);
    assert(start[x as int].grad == nodes[x as int].grad);
    assert(adjoint::<T>(start, tape, x, at_y as nat) == handed::<T>(
        end[y as int],
        x,
        adjoint::<T>(start, tape, x, (at_y + 1) as nat),
    ));
    // what y receives
    lemma_adjoint_skip::<T>(start, tape, y, 0, last as nat);
    assert(adjoint::<T>(start, tape, y, n) == start[y as int].grad);
    assert(start[y as int].grad == nodes[y as int].grad);
    assert(adjoint::<T>(start, tape, y, last as nat) == handed::<T>(
        end[z as int],
        y,
        adjoint::<T>(start, tape, y, (last + 1) as nat),
    ));
}

/// Clearing twice is clearing once. After gradients were cleared along a tape, every node
/// on the tape has a zero gradient in the shape of its value, and clearing
/// again changes nothing.
pub proof fn law_reset_idempotent<T: Numeric>(nodes: Seq<NodeModel<T::Model>>, tape: Seq<NodeId>)
    requires
        well_formed::<T>(nodes),
        within(nodes, tape),
    ensures
        forall|k: int|
            0 <= k < tape.len() ==> (#[trigger] cleared::<T>(nodes, tape)[tape[k] as int]).grad
                == T::zeros_model(T::shape_of(nodes[tape[k] as int].data)),
        cleared::<T>(cleared::<T>(nodes, tape), tape) == cleared::<T>(nodes, tape),
{
    let once = cleared::<T>(nodes, tape);
    let twice = cleared::<T>(once, tape);
    assert forall|k: int| 0 <= k < tape.len() implies (#[trigger] once[tape[k] as int]).grad
        == T::zeros_model(T::shape_of(nodes[tape[k] as int].data)) by {
        assert(tape[k] < nodes.len());
        assert(node_ok::<T>(nodes, tape[k] as int));
        assert(tape.contains(tape[k]));
    }
    assert(twice =~= once);
}

/// Unfreezing what was frozen. Let `value` be what freezing the variable
/// `v` keeps, and let unfreezing `value` give the variable `r` and the nodes
/// `new`. Then `r` has the value of `v`, its gradient is zero, and its history
/// is exactly one node, which is a declaration.
pub proof fn law_freeze_unfreeze<T: Numeric>(
    nodes: Seq<NodeModel<T::Model>>,
    v: VariableModel,
    value: T::Model,
    new: Seq<NodeModel<T::Model>>,
    r: VariableModel,
)
    requires
        well_formed::<T>(nodes),
        tracks(nodes, v),
        value == nodes[v.node as int].data,
        r.node == nodes.len(),
        r.tape == seq![r.node],
        new == nodes.push(declaration_node::<T>(r.node, value)),
    ensures
        new[r.node as int].data == nodes[v.node as int].data,
        new[r.node as int].grad == T::zeros_model(T::shape_of(nodes[v.node as int].data)),
        r.tape.len() == 1,
        forall|k: int| 0 <= k < r.tape.len() ==> new[r.tape[k] as int].origin is Declaration,
        tracks(new, r),
{
    assert(r.tape[0] == r.node);
    assert forall|k: int, a: NodeId|
        0 <= k < r.tape.len() && #[trigger] new[r.tape[k] as int].origin.names(
            a,
        ) implies r.tape.contains(a) by {
        assert(new[r.node as int].origin is Declaration);
    }
}

/// The gradients of one variable with respect to every node of its graph,
/// computed from zero.
#[derive(Debug)]
pub struct Gradients<T> {
    grads: Vec<T>,
}

impl<T: Numeric> View for Gradients<T> {
    type V = Seq<T::Model>;

    closed spec fn view(&self) -> Seq<T::Model> {
        self.grads@.map_values(|g: T| g.model())
    }
}

impl<T: Numeric> Gradients<T> {
    /// Computes the gradients of `z` with respect to every node it depends on:
    /// clears the gradients along the history of `z`, runs a backward pass from
    /// `z`, and keeps a copy of the gradient of every node of the graph.
    pub fn compute(graph: &mut Graph<T>, z: &Variable) -> (r: Self)
        requires
            old(graph).wf(),
            tracks(old(graph)@, z@),
        ensures
            final(graph)@ == backpropagated::<T>(
                cleared::<T>(old(graph)@, z@.tape),
                z@.tape,
                z@.node,
            ),
            final(graph).wf(),
            extends(old(graph)@, final(graph)@),
            r@.len() == final(graph)@.len(),
            final(graph)@.len() == old(graph)@.len(),
            forall|x: NodeId|
                x < old(graph)@.len() ==> {
                    &&& #[trigger] r@[x as int] == final(graph)@[x as int].grad
                    &&& r@[x as int] == adjoint::<T>(
                        seeded::<T>(cleared::<T>(old(graph)@, z@.tape), z@.node),
                        z@.tape,
                        x,
                        0,
                    )
                },
    {
        z.reset(graph);
        proof {
            lemma_tracks_extends(old(graph)@, graph@, z@);
        }
        z.backward(graph);
        let mut grads: Vec<T> = Vec::new();
        let n: usize = graph.len();
        let mut i: usize = 0;
        while i < n
            invariant
                0 <= i <= n,
                n == graph@.len(),
                grads@.len() == i,
                forall|x: int| 0 <= x < i ==> (#[trigger] grads@[x]).model() == graph@[x].grad,
            decreases n - i,
        {
            grads.push(graph.node(i).grad().duplicate());
            i = i + 1;
        }
        let r = Gradients { grads };
        proof {
            assert forall|x: NodeId| x < old(graph)@.len() implies {
                &&& #[trigger] r@[x as int] == graph@[x as int].grad
            } by {
                assert(r.grads@[x as int].model() == graph@[x as int].grad);
            }
        }
        r
    }

    /// The gradient with respect to the given variable, as an untracked tensor.
    pub fn wrt(&self, x: &Variable) -> (r: Constant<T>)
        requires
            x@.node < self@.len(),
        ensures
            r.model() == self@[x@.node as int],
    {
        Constant::new(self.grads[x.node()].duplicate())
    }
}

} // verus!
