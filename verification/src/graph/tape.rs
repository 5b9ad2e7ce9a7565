//! The history of a tracked value: the identifiers of the nodes it depends on,
//! itself included, kept in increasing order.

use vstd::prelude::*;
use crate::graph::node::NodeId;

verus! {

/// Whether every element of the sequence is smaller than all that follow it.
pub open spec fn increasing(s: Seq<NodeId>) -> bool {
    forall|i: int, j: int| 0 <= i < j < s.len() ==> s[i] < s[j]
}

/// Two increasing sequences with the same members are the same sequence.
pub proof fn lemma_increasing_unique(a: Seq<NodeId>, b: Seq<NodeId>)
    requires
        increasing(a),
        increasing(b),
        forall|x: NodeId| a.contains(x) <==> b.contains(x),
    ensures
        a == b,
    decreases a.len(),
{
    if a.len() == 0 {
        if b.len() > 0 {
            assert(b.contains(b[0]));
            assert(a.contains(b[0]));
        }
        assert(a =~= b);
    } else {
        let m = a.last();
        assert(a.contains(m));
        assert(b.contains(m));
        let k = choose|k: int| 0 <= k < b.len() && b[k] == m;
        if k < b.len() - 1 {
            let y = b.last();
            assert(b.contains(y));
            assert(a.contains(y));
            let q = choose|q: int| 0 <= q < a.len() && a[q] == y;
            assert(a[q] <= m);
        }
        let a0 = a.drop_last();
        let b0 = b.drop_last();
        assert forall|x: NodeId| a0.contains(x) <==> b0.contains(x) by {
            if a0.contains(x) {
                let i = choose|i: int| 0 <= i < a0.len() && a0[i] == x;
                assert(a[i] == x && x < m);
                assert(a.contains(x));
                let j = choose|j: int| 0 <= j < b.len() && b[j] == x;
                assert(b0[j] == x);
            }
            if b0.contains(x) {
                let i = choose|i: int| 0 <= i < b0.len() && b0[i] == x;
                assert(b[i] == x && x < m);
                assert(b.contains(x));
                let j = choose|j: int| 0 <= j < a.len() && a[j] == x;
                assert(a0[j] == x);
            }
        }
        lemma_increasing_unique(a0, b0);
        assert(a =~= a0.push(m));
        assert(b =~= b0.push(m));
    }
}

/// A sequence whose neighbours are in increasing order is increasing.
pub proof fn lemma_neighbours_increasing(s: Seq<NodeId>, i: int, j: int)
    requires
        forall|k: int| 0 < k < s.len() ==> s[k - 1] < #[trigger] s[k],
        0 <= i < j < s.len(),
    ensures
        s[i] < s[j],
    decreases j - i,
{
    if i + 1 < j {
        lemma_neighbours_increasing(s, i, j - 1);
        assert(s[j - 1] < s[j]);
    } else {
        assert(s[j - 1] < s[j]);
    }
}

/// An ordered set of node identifiers.
#[derive(Debug)]
pub struct Tape {
    ids: Vec<NodeId>,
}

impl View for Tape {
    type V = Seq<NodeId>;

    closed spec fn view(&self) -> Seq<NodeId> {
        self.ids@
    }
}

impl Clone for Tape {
    fn clone(&self) -> (r: Self)
        ensures
            r@ == self@,
    {
        let r = Tape { ids: self.ids.clone() };
        assert(r.ids@ =~= self.ids@);
        r
    }
}

impl Default for Tape {
    fn default() -> (r: Self)
        ensures
            r@ == Seq::<NodeId>::empty(),
    {
        Tape { ids: Vec::new() }
    }
}

impl Tape {
    /// The invariant of a tape: its identifiers are in increasing order, so none
    /// occurs twice.
    pub open spec fn wf(&self) -> bool {
        increasing(self@)
    }

    /// The tape without nodes.
    pub fn new() -> (r: Self)
        ensures
            r@ == Seq::<NodeId>::empty(),
            r.wf(),
    {
        Tape { ids: Vec::new() }
    }

    pub fn len(&self) -> (n: usize)
        ensures
            n == self@.len(),
    {
        self.ids.len()
    }

    /// The identifiers on the tape, ordered by identifier.
    pub fn nodes(&self) -> (r: &Vec<NodeId>)
        ensures
            r@ == self@,
    {
        &self.ids
    }

    /// Whether the tape meets its invariant.
    pub fn is_ordered(&self) -> (r: bool)
        ensures
            r == self.wf(),
    {
        let n: usize = self.ids.len();
        let mut k: usize = 1;
        while k < n
            invariant
                1 <= k,
                n == self.ids@.len(),
                forall|q: int| 0 < q < k && q < n ==> self.ids@[q - 1] < #[trigger] self.ids@[q],
            decreases n - k,
        {
            if self.ids[k - 1] >= self.ids[k] {
                return false;
            }
            k = k + 1;
        }
        proof {
            assert forall|i: int, j: int| 0 <= i < j < self.ids@.len() implies self.ids@[i]
                < self.ids@[j] by {
                lemma_neighbours_increasing(self.ids@, i, j);
            }
        }
        true
    }

    /// Whether the node is on the tape.
    pub fn contains(&self, id: NodeId) -> (r: bool)
        requires
            self.wf(),
        ensures
            r == self@.contains(id),
    {
        let mut lo: usize = 0;
        let mut hi: usize = self.ids.len();
        while lo < hi
            invariant
                0 <= lo <= hi <= self.ids@.len(),
                increasing(self.ids@),
                forall|i: int| 0 <= i < lo ==> self.ids@[i] < id,
                forall|i: int| hi <= i < self.ids@.len() ==> self.ids@[i] > id,
            decreases hi - lo,
        {
            let mid: usize = lo + (hi - lo) / 2;
            let v: NodeId = self.ids[mid];
            if v == id {
                return true;
            } else if v < id {
                lo = mid + 1;
            } else {
                hi = mid;
            }
        }
        false
    }

    /// Adds the node to the tape, at the place its identifier gives it. A node
    /// that is already on the tape is not added again.
    pub fn push(&mut self, id: NodeId)
        requires
            old(self).wf(),
        ensures
            final(self).wf(),
            forall|x: NodeId| final(self)@.contains(x) <==> old(self)@.contains(x) || x == id,
            old(self)@.len() == 0 || old(self)@.last() < id ==> final(self)@ == old(self)@.push(id),
            old(self)@.contains(id) ==> final(self)@ == old(self)@,
    {
        let mut p: usize = self.ids.len();
        while p > 0 && self.ids[p - 1] >= id
            invariant
                0 <= p <= self.ids@.len(),
                self.ids@ == old(self).ids@,
                increasing(self.ids@),
                forall|i: int| p <= i < self.ids@.len() ==> self.ids@[i] >= id,
            decreases p,
        {
            p = p - 1;
        }
        if p < self.ids.len() && self.ids[p] == id {
            return;
        }
        let ghost before = self.ids@;
        self.ids.insert(p, id);
        proof {
            let after = self.ids@;
            assert(after == before.insert(p as int, id));
            assert forall|i: int, j: int| 0 <= i < j < after.len() implies after[i] < after[j] by {
                if j < p {
                    assert(after[i] == before[i] && after[j] == before[j]);
                } else if j == p {
                    assert(after[i] == before[i]);
                    assert(before[i] <= before[p - 1]);
                } else if i < p {
                    assert(after[i] == before[i] && after[j] == before[j - 1]);
                    assert(before[i] <= before[p - 1]);
                } else if i == p {
                    assert(after[j] == before[j - 1]);
                    assert(before[p as int] <= before[j - 1]);
                } else {
                    assert(after[i] == before[i - 1] && after[j] == before[j - 1]);
                }
            }
            assert forall|x: NodeId| after.contains(x) <==> before.contains(x) || x == id by {
                if after.contains(x) {
                    let i = choose|i: int| 0 <= i < after.len() && after[i] == x;
                    if i < p {
                        assert(before[i] == x);
                    } else if i > p {
                        assert(before[i - 1] == x);
                    }
                }
                if before.contains(x) {
                    let i = choose|i: int| 0 <= i < before.len() && before[i] == x;
                    if i < p {
                        assert(after[i] == x);
                    } else {
                        assert(after[i + 1] == x);
                    }
                }
                if x == id {
                    assert(after[p as int] == x);
                }
            }
            if before.len() == 0 || before.last() < id {
                assert(p == before.len());
                assert(after =~= before.push(id));
            }
            if before.contains(id) {
                let i = choose|i: int| 0 <= i < before.len() && before[i] == id;
                if i < p {
                    assert(before[i] <= before[p - 1]);
                }
            }
        }
    }

    /// The tape that holds the nodes of both tapes, each once.
    pub fn merge(&self, other: &Self) -> (r: Self)
        requires
            self.wf(),
            other.wf(),
        ensures
            r.wf(),
            forall|x: NodeId| r@.contains(x) <==> self@.contains(x) || other@.contains(x),
    {
        let mut out: Vec<NodeId> = Vec::new();
        let mut i: usize = 0;
        let mut j: usize = 0;
        let n: usize = self.ids.len();
        let m: usize = other.ids.len();
        while i < n || j < m
            invariant
                n == self.ids@.len(),
                m == other.ids@.len(),
                0 <= i <= n,
                0 <= j <= m,
                increasing(self.ids@),
                increasing(other.ids@),
                increasing(out@),
                forall|k: int| 0 <= k < out@.len() && i < n ==> out@[k] < self.ids@[i as int],
                forall|k: int| 0 <= k < out@.len() && j < m ==> out@[k] < other.ids@[j as int],
                forall|x: NodeId|
                    out@.contains(x) <==> self.ids@.subrange(0, i as int).contains(x)
                        || other.ids@.subrange(0, j as int).contains(x),
            decreases (n - i) + (m - j),
        {
            let ghost out0 = out@;
            let ghost i0 = i;
            let ghost j0 = j;
            let next: NodeId;
            if j >= m || (i < n && self.ids[i] < other.ids[j]) {
                next = self.ids[i];
                i = i + 1;
            } else if i >= n || other.ids[j] < self.ids[i] {
                next = other.ids[j];
                j = j + 1;
            } else {
                next = self.ids[i];
                i = i + 1;
                j = j + 1;
            }
            out.push(next);
            proof {
                let a = self.ids@;
                let b = other.ids@;
                assert(out@ == out0.push(next));
                assert forall|k: int| 0 <= k < out@.len() && i < n implies out@[k] < a[i as int] by {
                    if k < out0.len() {
                        if i0 < n {
                            assert(out0[k] < a[i0 as int]);
                        } else {
                        }
                    }
                }
                assert forall|k: int| 0 <= k < out@.len() && j < m implies out@[k] < b[j as int] by {
                    if k < out0.len() {
                        if j0 < m {
                            assert(out0[k] < b[j0 as int]);
                        }
                    }
                }
                assert forall|x: NodeId|
                    out@.contains(x) <==> a.subrange(0, i as int).contains(x) || b.subrange(
                        0,
                        j as int,
                    ).contains(x) by {
                    let sa0 = a.subrange(0, i0 as int);
                    let sb0 = b.subrange(0, j0 as int);
                    let sa = a.subrange(0, i as int);
                    let sb = b.subrange(0, j as int);
                    if out@.contains(x) {
                        let k = choose|k: int| 0 <= k < out@.len() && out@[k] == x;
                        if k < out0.len() {
                            assert(out0.contains(x));
                            if sa0.contains(x) {
                                let q = choose|q: int| 0 <= q < sa0.len() && sa0[q] == x;
                                assert(sa[q] == x);
                            } else {
                                let q = choose|q: int| 0 <= q < sb0.len() && sb0[q] == x;
                                assert(sb[q] == x);
                            }
                        } else {
                            assert(x == next);
                            if i > i0 {
                                assert(sa[i0 as int] == x);
                            } else {
                                assert(sb[j0 as int] == x);
                            }
                        }
                    }
                    if sa.contains(x) {
                        let q = choose|q: int| 0 <= q < sa.len() && sa[q] == x;
                        if q < i0 {
                            assert(sa0[q] == x);
                            assert(out0.contains(x));
                            let k = choose|k: int| 0 <= k < out0.len() && out0[k] == x;
                            assert(out@[k] == x);
                        } else {
                            assert(x == next);
                            assert(out@[out0.len() as int] == x);
                        }
                    }
                    if sb.contains(x) {
                        let q = choose|q: int| 0 <= q < sb.len() && sb[q] == x;
                        if q < j0 {
                            assert(sb0[q] == x);
                            assert(out0.contains(x));
                            let k = choose|k: int| 0 <= k < out0.len() && out0[k] == x;
                            assert(out@[k] == x);
                        } else {
                            assert(x == next);
                            assert(out@[out0.len() as int] == x);
                        }
                    }
                }
            }
        }
        proof {
            assert(self.ids@.subrange(0, n as int) =~= self.ids@);
            assert(other.ids@.subrange(0, m as int) =~= other.ids@);
        }
        Tape { ids: out }
    }
}

} // verus!
