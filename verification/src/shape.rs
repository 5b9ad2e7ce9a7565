//! The four extents of a tensor: batch, channels, height (rows) and width (columns).

use vstd::prelude::*;

verus! {

/// The dimensions of a tensor. Elements are laid out with the row index running
/// fastest, then the column, then the channel, then the batch.
#[derive(Clone, Copy, Debug, PartialEq, Eq, Structural)]
pub struct Shape {
    pub batch: u64,
    pub channels: u64,
    pub height: u64,
    pub width: u64,
}

impl Shape {
    /// The shape with the given extents.
    pub fn new(batch: u64, channels: u64, height: u64, width: u64) -> (s: Shape)
        ensures
            s == (Shape { batch, channels, height, width }),
    {
        Shape { batch, channels, height, width }
    }

    /// The shape `1 x 1 x 1 x 1`.
    pub fn unit() -> (s: Shape)
        ensures
            s == Shape::scalar(),
    {
        Shape { batch: 1, channels: 1, height: 1, width: 1 }
    }

    /// The number of elements a tensor of this shape holds.
    pub open spec fn numel(self) -> nat {
        (self.batch * self.channels * self.height * self.width) as nat
    }

    /// The shape of a single value.
    pub open spec fn scalar() -> Shape {
        Shape { batch: 1, channels: 1, height: 1, width: 1 }
    }

    /// Whether the shape describes one plain matrix (no batch, one channel).
    pub open spec fn is_matrix(self) -> bool {
        self.batch == 1 && self.channels == 1
    }

    /// The number of elements of one entry of the batch.
    pub open spec fn folded(self) -> nat {
        (self.channels * self.height * self.width) as nat
    }

    /// The shape with the batch kept and every other dimension folded into the
    /// width.
    pub open spec fn flat(self) -> Shape {
        Shape { batch: self.batch, channels: 1, height: 1, width: self.folded() as u64 }
    }

    /// The shape with the batch kept and every other dimension folded into the
    /// width, or `None` where that width exceeds `u64::MAX`.
    pub fn flattened(&self) -> (r: Option<Shape>)
        ensures
            r is Some <==> self.folded() <= u64::MAX,
            r is Some ==> r->Some_0 == self.flat() && r->Some_0.numel() == self.numel(),
    {
        let ch: u64 = match self.channels.checked_mul(self.height) {
            Some(v) => v,
            None => {
                if self.width == 0 {
                    proof {
                        assert(self.channels * self.height * self.width == 0) by (nonlinear_arith)
                            requires
                                self.width == 0,
                        ;
                    }
                    let r = Shape { batch: self.batch, channels: 1, height: 1, width: 0 };
                    proof {
                        lemma_flat_numel(*self, r);
                    }
                    return Some(r);
                }
                proof {
                    assert(self.channels * self.height * self.width >= self.channels
                        * self.height) by (nonlinear_arith)
                        requires
                            self.width >= 1,
                            self.channels * self.height >= 0,
                    ;
                }
                return None;
            },
        };
        match ch.checked_mul(self.width) {
            Some(width) => {
                let r = Shape { batch: self.batch, channels: 1, height: 1, width };
                proof {
                    lemma_flat_numel(*self, r);
                }
                Some(r)
            },
            None => None,
        }
    }

    /// The element count, or `None` when it does not fit in `usize`.
    pub fn count(&self) -> (n: Option<usize>)
        ensures
            match n {
                Some(k) => k as nat == self.numel(),
                None => self.numel() > usize::MAX,
            },
    {
        let bc: u64 = match self.batch.checked_mul(self.channels) {
            Some(v) => v,
            None => {
                proof {
                    lemma_product_grows(
                        (self.batch * self.channels) as nat,
                        self.height as nat,
                        self.width as nat,
                        self.numel(),
                    );
                }
                return if self.height == 0 || self.width == 0 {
                    Some(0)
                } else {
                    None
                };
            },
        };
        let bch: u64 = match bc.checked_mul(self.height) {
            Some(v) => v,
            None => {
                proof {
                    lemma_product_grows(
                        (self.batch * self.channels * self.height) as nat,
                        self.width as nat,
                        1,
                        self.numel(),
                    );
                }
                return if self.width == 0 {
                    Some(0)
                } else {
                    None
                };
            },
        };
        match bch.checked_mul(self.width) {
            Some(v) => {
                if v <= usize::MAX as u64 {
                    Some(v as usize)
                } else {
                    None
                }
            },
            None => None,
        }
    }

    /// Whether a matrix product of operands with these shapes is defined, each
    /// operand optionally transposed first: both are plain matrices, the first
    /// is as wide as the second is high, and the product has no more than
    /// `usize::MAX` elements.
    pub open spec fn matmul_ok(self, rhs: Shape, lhs_t: bool, rhs_t: bool) -> bool {
        &&& self.is_matrix()
        &&& rhs.is_matrix()
        &&& self.inner(lhs_t) == rhs.outer(rhs_t)
        &&& self.outer(lhs_t) * rhs.inner(rhs_t) <= usize::MAX
    }

    /// The shape of a matrix product of operands with these shapes.
    pub open spec fn matmul_shape(self, rhs: Shape, lhs_t: bool, rhs_t: bool) -> Shape {
        Shape { batch: 1, channels: 1, height: self.outer(lhs_t), width: rhs.inner(rhs_t) }
    }

    /// The row count of the matrix, after an optional transposition.
    pub open spec fn outer(self, transposed: bool) -> u64 {
        if transposed { self.width } else { self.height }
    }

    /// The column count of the matrix, after an optional transposition.
    pub open spec fn inner(self, transposed: bool) -> u64 {
        if transposed { self.height } else { self.width }
    }
}

/// Folding dimensions into the width keeps the number of elements.
pub proof fn lemma_flat_numel(s: Shape, r: Shape)
    requires
        r.batch == s.batch,
        r.channels == 1,
        r.height == 1,
        r.width == s.channels * s.height * s.width,
    ensures
        r.numel() == s.numel(),
{
    assert(r.batch * r.channels * r.height * r.width == s.batch * s.channels * s.height * s.width)
        by (nonlinear_arith)
        requires
            r.batch == s.batch,
            r.channels == 1,
            r.height == 1,
            r.width == s.channels * s.height * s.width,
    ;
}

/// A single value is one element.
pub proof fn lemma_scalar_numel()
    ensures
        Shape::scalar().numel() == 1,
{
    let s = Shape::scalar();
    assert(s.batch * s.channels * s.height * s.width == 1) by (nonlinear_arith)
        requires
            s.batch == 1,
            s.channels == 1,
            s.height == 1,
            s.width == 1,
    ;
}

/// A plain matrix holds as many elements as its height and width multiply to.
pub proof fn lemma_matrix_numel(s: Shape)
    requires
        s.is_matrix(),
    ensures
        s.numel() == s.height * s.width,
        s.numel() == s.width * s.height,
{
    assert(s.batch * s.channels * s.height * s.width == s.height * s.width) by (nonlinear_arith)
        requires
            s.batch == 1,
            s.channels == 1,
    ;
    assert(s.height * s.width == s.width * s.height) by (nonlinear_arith);
}

/// A product of naturals is zero or at least as large as each nonzero leading factor.
pub proof fn lemma_product_grows(a: nat, b: nat, c: nat, total: nat)
    requires
        total == a * b * c,
    ensures
        b == 0 || c == 0 ==> total == 0,
        b > 0 && c > 0 ==> total >= a,
{
    assert(b == 0 || c == 0 ==> a * b * c == 0) by (nonlinear_arith);
    assert(b > 0 && c > 0 ==> a * b * c >= a) by (nonlinear_arith);
}

} // verus!
