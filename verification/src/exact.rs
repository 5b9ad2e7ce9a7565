//! A tensor of signed 64-bit integers with exact arithmetic that wraps around
//! at the bounds of the type, so that every operation is defined on all
//! operands of fitting shape.

use vstd::prelude::*;
use vstd::arithmetic::div_mod::lemma_fundamental_div_mod_converse;
use crate::numeric::Numeric;
use crate::shape::{Shape, lemma_matrix_numel, lemma_scalar_numel};

verus! {

/// The mathematical content of an [`IntTensor`]: a shape and the elements, the
/// row index running fastest.
pub struct IntModel {
    pub shape: Shape,
    pub elems: Seq<i64>,
}

/// The wrapping sum of the first `n` elements.
pub open spec fn total(s: Seq<i64>, n: nat) -> i64
    decreases n,
{
    if n == 0 {
        0i64
    } else {
        total(s, (n - 1) as nat).wrapping_add(s[n - 1])
    }
}

/// The entry of a matrix in the given row and column, the matrix optionally
/// transposed first.
pub open spec fn entry(m: IntModel, row: int, col: int, transposed: bool) -> i64 {
    if transposed {
        m.elems[col + m.shape.height * row]
    } else {
        m.elems[row + m.shape.height * col]
    }
}

/// The wrapping sum of the first `n` products of a row of `a` with a column of `b`.
pub open spec fn dot(
    a: IntModel,
    b: IntModel,
    lhs_t: bool,
    rhs_t: bool,
    row: int,
    col: int,
    n: nat,
) -> i64
    decreases n,
{
    if n == 0 {
        0i64
    } else {
        dot(a, b, lhs_t, rhs_t, row, col, (n - 1) as nat).wrapping_add(
            entry(a, row, n - 1, lhs_t).wrapping_mul(entry(b, n - 1, col, rhs_t)),
        )
    }
}

/// Whether the entry `i` of a tensor of the given shape lies on the main
/// diagonal of its matrix.
pub open spec fn on_diagonal(shape: Shape, i: int) -> bool {
    shape.height > 0 && (i % (shape.height as int)) == ((i / (shape.height as int)) % (
    shape.width as int))
}

/// A position within a column-major matrix lies within the matrix.
pub proof fn lemma_cell_in_bounds(row: int, height: int, col: int, width: int)
    requires
        0 <= row < height,
        0 <= col < width,
    ensures
        0 <= height * col,
        0 <= row + height * col < height * width,
        (row + height * col) % height == row,
        (row + height * col) / height == col,
{
    assert(row + height * col < height * width) by (nonlinear_arith)
        requires
            0 <= row < height,
            0 <= col < width,
    ;
    assert(0 <= height * col) by (nonlinear_arith)
        requires
            0 <= height,
            0 <= col,
    ;
    assert(row + height * col == col * height + row) by (nonlinear_arith);
    lemma_fundamental_div_mod_converse(row + height * col, height, col, row);
}

/// A tensor of integers.
#[derive(Debug, PartialEq, Eq)]
pub struct IntTensor {
    shape: Shape,
    data: Vec<i64>,
}

impl Clone for IntTensor {
    fn clone(&self) -> (r: Self)
        ensures
            r.model() == self.model(),
    {
        self.duplicate()
    }
}

impl IntTensor {
    #[verifier::type_invariant]
    spec fn inv(self) -> bool {
        self.data@.len() == self.shape.numel()
    }

    /// The tensor of the given shape with the given elements, the row index
    /// running fastest. `None` where the number of elements is not that of the
    /// shape.
    pub fn new(shape: Shape, data: Vec<i64>) -> (r: Option<Self>)
        ensures
            r is Some <==> data@.len() == shape.numel(),
            r is Some ==> r->Some_0.model() == (IntModel { shape, elems: data@ }),
    {
        let len: usize = data.len();
        match shape.count() {
            Some(n) => {
                if n == len {
                    Some(IntTensor { shape, data })
                } else {
                    None
                }
            },
            None => None,
        }
    }

    /// The tensor of the given shape with every element `v`. `None` where the
    /// shape has more than `usize::MAX` elements.
    pub fn fill(shape: Shape, v: i64) -> (r: Option<Self>)
        ensures
            r is Some <==> shape.numel() <= usize::MAX,
            r is Some ==> r->Some_0.model() == (IntModel {
                shape,
                elems: Seq::new(shape.numel(), |i: int| v),
            }),
    {
        match shape.count() {
            Some(n) => {
                let data = constant(n, v);
                Some(IntTensor { shape, data })
            },
            None => None,
        }
    }

    /// The tensor of the given shape with `v` on the main diagonal of each of
    /// its matrices and zero elsewhere. `None` where the shape has more than
    /// `usize::MAX` elements.
    pub fn eye(shape: Shape, v: i64) -> (r: Option<Self>)
        ensures
            r is Some <==> shape.numel() <= usize::MAX,
            r is Some ==> r->Some_0.model() == (IntModel {
                shape,
                elems: Seq::new(
                    shape.numel(),
                    |i: int|
                        if on_diagonal(shape, i) {
                            v
                        } else {
                            0i64
                        },
                ),
            }),
    {
        let n: usize = match shape.count() {
            Some(n) => n,
            None => {
                return None;
            },
        };
        let mut data: Vec<i64> = Vec::new();
        let mut i: usize = 0;
        while i < n
            invariant
                0 <= i <= n,
                n == shape.numel(),
                data@.len() == i,
                forall|j: int|
                    0 <= j < i ==> data@[j] == if on_diagonal(shape, j) {
                        v
                    } else {
                        0i64
                    },
            decreases n - i,
        {
            proof {
                assert(shape.height > 0 && shape.width > 0) by (nonlinear_arith)
                    requires
                        (shape.batch * shape.channels * shape.height * shape.width) as nat > 0,
                ;
            }
            let row: u64 = (i as u64) % shape.height;
            let col: u64 = ((i as u64) / shape.height) % shape.width;
            if row == col {
                data.push(v);
            } else {
                data.push(0);
            }
            i = i + 1;
        }
        let r = IntTensor { shape, data };
        proof {
            assert(r.data@ =~= Seq::new(
                shape.numel(),
                |i: int|
                    if on_diagonal(shape, i) {
                        v
                    } else {
                        0i64
                    },
            ));
        }
        Some(r)
    }

    /// The tensor of the given shape with the given elements. `None` where
    /// their number is not that of the shape.
    pub fn custom(shape: Shape, values: &[i64]) -> (r: Option<Self>)
        ensures
            r is Some <==> values@.len() == shape.numel(),
            r is Some ==> r->Some_0.model() == (IntModel { shape, elems: values@ }),
    {
        let mut data: Vec<i64> = Vec::new();
        let mut i: usize = 0;
        while i < values.len()
            invariant
                0 <= i <= values@.len(),
                data@ == values@.subrange(0, i as int),
            decreases values@.len() - i,
        {
            data.push(values[i]);
            proof {
                assert(data@ =~= values@.subrange(0, i as int + 1));
            }
            i = i + 1;
        }
        proof {
            assert(values@.subrange(0, values@.len() as int) =~= values@);
        }
        Self::new(shape, data)
    }

    /// The shape of the tensor.
    pub fn shape(&self) -> (s: Shape)
        ensures
            s == self.model().shape,
    {
        self.shape
    }

    /// The elements of the tensor, the row index running fastest.
    pub fn elements(&self) -> (r: &Vec<i64>)
        ensures
            r@ == self.model().elems,
            r@.len() == self.model().shape.numel(),
    {
        proof {
            use_type_invariant(self);
        }
        &self.data
    }
}

/// The vector of `n` elements that are all `v`.
fn constant(n: usize, v: i64) -> (data: Vec<i64>)
    ensures
        data@ == Seq::new(n as nat, |i: int| v),
{
    let mut data: Vec<i64> = Vec::new();
    let mut i: usize = 0;
    while i < n
        invariant
            0 <= i <= n,
            data@.len() == i,
            forall|j: int| 0 <= j < i ==> data@[j] == v,
        decreases n - i,
    {
        data.push(v);
        i = i + 1;
    }
    proof {
        assert(data@ =~= Seq::new(n as nat, |i: int| v));
    }
    data
}

impl Numeric for IntTensor {
    type Model = IntModel;

    closed spec fn model(&self) -> IntModel {
        IntModel { shape: self.shape, elems: self.data@ }
    }

    open spec fn shape_of(m: IntModel) -> Shape {
        m.shape
    }

    open spec fn zeros_model(shape: Shape) -> IntModel {
        IntModel { shape, elems: Seq::new(shape.numel(), |i: int| 0i64) }
    }

    open spec fn ones_model(shape: Shape) -> IntModel {
        IntModel { shape, elems: Seq::new(shape.numel(), |i: int| 1i64) }
    }

    open spec fn add_model(a: IntModel, b: IntModel) -> IntModel {
        IntModel {
            shape: a.shape,
            elems: Seq::new(a.elems.len(), |i: int| a.elems[i].wrapping_add(b.elems[i])),
        }
    }

    open spec fn sub_model(a: IntModel, b: IntModel) -> IntModel {
        IntModel {
            shape: a.shape,
            elems: Seq::new(a.elems.len(), |i: int| a.elems[i].wrapping_sub(b.elems[i])),
        }
    }

    open spec fn mul_model(a: IntModel, b: IntModel) -> IntModel {
        IntModel {
            shape: a.shape,
            elems: Seq::new(a.elems.len(), |i: int| a.elems[i].wrapping_mul(b.elems[i])),
        }
    }

    open spec fn maxof_model(a: IntModel, b: IntModel) -> IntModel {
        IntModel {
            shape: a.shape,
            elems: Seq::new(
                a.elems.len(),
                |i: int|
                    if a.elems[i] > b.elems[i] {
                        a.elems[i]
                    } else {
                        b.elems[i]
                    },
            ),
        }
    }

    open spec fn gt_model(a: IntModel, b: IntModel) -> IntModel {
        IntModel {
            shape: a.shape,
            elems: Seq::new(
                a.elems.len(),
                |i: int|
                    if a.elems[i] > b.elems[i] {
                        1i64
                    } else {
                        0i64
                    },
            ),
        }
    }

    open spec fn scale_model(a: IntModel, k: IntModel) -> IntModel {
        IntModel {
            shape: a.shape,
            elems: Seq::new(a.elems.len(), |i: int| a.elems[i].wrapping_mul(k.elems[0])),
        }
    }

    open spec fn neg_model(a: IntModel) -> IntModel {
        IntModel {
            shape: a.shape,
            elems: Seq::new(a.elems.len(), |i: int| 0i64.wrapping_sub(a.elems[i])),
        }
    }

    open spec fn matmul_model(a: IntModel, b: IntModel, lhs_t: bool, rhs_t: bool) -> IntModel {
        IntModel {
            shape: a.shape.matmul_shape(b.shape, lhs_t, rhs_t),
            elems: Seq::new(
                (a.shape.outer(lhs_t) * b.shape.inner(rhs_t)) as nat,
                |i: int|
                    dot(
                        a,
                        b,
                        lhs_t,
                        rhs_t,
                        i % (a.shape.outer(lhs_t) as int),
                        i / (a.shape.outer(lhs_t) as int),
                        a.shape.inner(lhs_t) as nat,
                    ),
            ),
        }
    }

    open spec fn reshape_model(a: IntModel, shape: Shape) -> IntModel {
        IntModel { shape, elems: a.elems }
    }

    open spec fn sum_model(a: IntModel) -> IntModel {
        IntModel { shape: Shape::scalar(), elems: seq![total(a.elems, a.elems.len())] }
    }

    fn dims(&self) -> (s: Shape) {
        proof {
            use_type_invariant(self);
        }
        let len: usize = self.data.len();
        self.shape
    }

    fn duplicate(&self) -> (r: Self) {
        proof {
            use_type_invariant(self);
        }
        let mut data: Vec<i64> = Vec::new();
        let mut i: usize = 0;
        while i < self.data.len()
            invariant
                0 <= i <= self.data@.len(),
                data@ == self.data@.subrange(0, i as int),
            decreases self.data@.len() - i,
        {
            data.push(self.data[i]);
            proof {
                assert(data@ =~= self.data@.subrange(0, i as int + 1));
            }
            i = i + 1;
        }
        proof {
            assert(self.data@.subrange(0, self.data@.len() as int) =~= self.data@);
        }
        IntTensor { shape: self.shape, data }
    }

    fn zeros_like(&self) -> (r: Self) {
        proof {
            use_type_invariant(self);
        }
        let data = constant(self.data.len(), 0);
        let r = IntTensor { shape: self.shape, data };
        proof {
            assert(r.data@ =~= Self::zeros_model(self.shape).elems);
        }
        r
    }

    fn ones_like(&self) -> (r: Self) {
        proof {
            use_type_invariant(self);
        }
        let data = constant(self.data.len(), 1);
        let r = IntTensor { shape: self.shape, data };
        proof {
            assert(r.data@ =~= Self::ones_model(self.shape).elems);
        }
        r
    }

    fn add(&self, rhs: &Self) -> (r: Self) {
        proof {
            use_type_invariant(self);
            use_type_invariant(rhs);
        }
        let mut data: Vec<i64> = Vec::new();
        let mut i: usize = 0;
        while i < self.data.len()
            invariant
                0 <= i <= self.data@.len(),
                self.data@.len() == rhs.data@.len(),
                data@.len() == i,
                forall|j: int|
                    0 <= j < i ==> data@[j] == self.data@[j].wrapping_add(rhs.data@[j]),
            decreases self.data@.len() - i,
        {
            data.push(self.data[i].wrapping_add(rhs.data[i]));
            i = i + 1;
        }
        let r = IntTensor { shape: self.shape, data };
        proof {
            assert(r.data@ =~= Self::add_model(self.model(), rhs.model()).elems);
        }
        r
    }

    fn sub(&self, rhs: &Self) -> (r: Self) {
        proof {
            use_type_invariant(self);
            use_type_invariant(rhs);
        }
        let mut data: Vec<i64> = Vec::new();
        let mut i: usize = 0;
        while i < self.data.len()
            invariant
                0 <= i <= self.data@.len(),
                self.data@.len() == rhs.data@.len(),
                data@.len() == i,
                forall|j: int|
                    0 <= j < i ==> data@[j] == self.data@[j].wrapping_sub(rhs.data@[j]),
            decreases self.data@.len() - i,
        {
            data.push(self.data[i].wrapping_sub(rhs.data[i]));
            i = i + 1;
        }
        let r = IntTensor { shape: self.shape, data };
        proof {
            assert(r.data@ =~= Self::sub_model(self.model(), rhs.model()).elems);
        }
        r
    }

    fn mul(&self, rhs: &Self) -> (r: Self) {
        proof {
            use_type_invariant(self);
            use_type_invariant(rhs);
        }
        let mut data: Vec<i64> = Vec::new();
        let mut i: usize = 0;
        while i < self.data.len()
            invariant
                0 <= i <= self.data@.len(),
                self.data@.len() == rhs.data@.len(),
                data@.len() == i,
                forall|j: int|
                    0 <= j < i ==> data@[j] == self.data@[j].wrapping_mul(rhs.data@[j]),
            decreases self.data@.len() - i,
        {
            data.push(self.data[i].wrapping_mul(rhs.data[i]));
            i = i + 1;
        }
        let r = IntTensor { shape: self.shape, data };
        proof {
            assert(r.data@ =~= Self::mul_model(self.model(), rhs.model()).elems);
        }
        r
    }

    fn maxof(&self, rhs: &Self) -> (r: Self) {
        proof {
            use_type_invariant(self);
            use_type_invariant(rhs);
        }
        let mut data: Vec<i64> = Vec::new();
        let mut i: usize = 0;
        while i < self.data.len()
            invariant
                0 <= i <= self.data@.len(),
                self.data@.len() == rhs.data@.len(),
                data@.len() == i,
                forall|j: int|
                    0 <= j < i ==> data@[j] == if self.data@[j] > rhs.data@[j] {
                        self.data@[j]
                    } else {
                        rhs.data@[j]
                    },
            decreases self.data@.len() - i,
        {
            let a: i64 = self.data[i];
            let b: i64 = rhs.data[i];
            data.push(if a > b { a } else { b });
            i = i + 1;
        }
        let r = IntTensor { shape: self.shape, data };
        proof {
            assert(r.data@ =~= Self::maxof_model(self.model(), rhs.model()).elems);
        }
        r
    }

    fn gt(&self, rhs: &Self) -> (r: Self) {
        proof {
            use_type_invariant(self);
            use_type_invariant(rhs);
        }
        let mut data: Vec<i64> = Vec::new();
        let mut i: usize = 0;
        while i < self.data.len()
            invariant
                0 <= i <= self.data@.len(),
                self.data@.len() == rhs.data@.len(),
                data@.len() == i,
                forall|j: int|
                    0 <= j < i ==> data@[j] == if self.data@[j] > rhs.data@[j] {
                        1i64
                    } else {
                        0i64
                    },
            decreases self.data@.len() - i,
        {
            data.push(if self.data[i] > rhs.data[i] { 1 } else { 0 });
            i = i + 1;
        }
        let r = IntTensor { shape: self.shape, data };
        proof {
            assert(r.data@ =~= Self::gt_model(self.model(), rhs.model()).elems);
        }
        r
    }

    fn scale(&self, k: &Self) -> (r: Self) {
        proof {
            use_type_invariant(self);
            use_type_invariant(k);
            lemma_scalar_numel();
        }
        let factor: i64 = k.data[0];
        let mut data: Vec<i64> = Vec::new();
        let mut i: usize = 0;
        while i < self.data.len()
            invariant
                0 <= i <= self.data@.len(),
                data@.len() == i,
                forall|j: int| 0 <= j < i ==> data@[j] == self.data@[j].wrapping_mul(factor),
            decreases self.data@.len() - i,
        {
            data.push(self.data[i].wrapping_mul(factor));
            i = i + 1;
        }
        let r = IntTensor { shape: self.shape, data };
        proof {
            assert(r.data@ =~= Self::scale_model(self.model(), k.model()).elems);
        }
        r
    }

    fn neg(&self) -> (r: Self) {
        proof {
            use_type_invariant(self);
        }
        let mut data: Vec<i64> = Vec::new();
        let mut i: usize = 0;
        while i < self.data.len()
            invariant
                0 <= i <= self.data@.len(),
                data@.len() == i,
                forall|j: int| 0 <= j < i ==> data@[j] == 0i64.wrapping_sub(self.data@[j]),
            decreases self.data@.len() - i,
        {
            data.push(0i64.wrapping_sub(self.data[i]));
            i = i + 1;
        }
        let r = IntTensor { shape: self.shape, data };
        proof {
            assert(r.data@ =~= Self::neg_model(self.model()).elems);
        }
        r
    }

    fn matmul(&self, rhs: &Self, lhs_t: bool, rhs_t: bool) -> (r: Self) {
        proof {
            use_type_invariant(self);
            use_type_invariant(rhs);
        }
        let ghost a = self.model();
        let ghost b = rhs.model();
        let rows: u64 = if lhs_t {
            self.shape.width
        } else {
            self.shape.height
        };
        let inner: u64 = if lhs_t {
            self.shape.height
        } else {
            self.shape.width
        };
        let cols: u64 = if rhs_t {
            rhs.shape.height
        } else {
            rhs.shape.width
        };
        let shape = Shape { batch: 1, channels: 1, height: rows, width: cols };
        let llen: usize = self.data.len();
        let rlen: usize = rhs.data.len();
        proof {
            lemma_matrix_numel(shape);
            lemma_matrix_numel(self.shape);
            lemma_matrix_numel(rhs.shape);
            assert(rows == a.shape.outer(lhs_t));
            assert(inner == a.shape.inner(lhs_t));
            assert(inner == b.shape.outer(rhs_t));
            assert(cols == b.shape.inner(rhs_t));
            assert(rows * cols <= usize::MAX);
            assert(shape.numel() == rows * cols);
            assert(self.shape.numel() == rows * inner);
            assert(rhs.shape.numel() == inner * cols);
        }
        if rows == 0 || cols == 0 {
            let data: Vec<i64> = Vec::new();
            proof {
                assert(rows * cols == 0) by (nonlinear_arith)
                    requires
                        rows == 0 || cols == 0,
                ;
            }
            let r = IntTensor { shape, data };
            proof {
                assert(r.data@ =~= Self::matmul_model(a, b, lhs_t, rhs_t).elems);
            }
            return r;
        }
        proof {
            assert(rows <= rows * cols && cols <= rows * cols) by (nonlinear_arith)
                requires
                    rows >= 1,
                    cols >= 1,
            ;
            assert(inner <= rows * inner) by (nonlinear_arith)
                requires
                    rows >= 1,
                    inner >= 0,
            ;
        }
        let m: usize = rows as usize;
        let n: usize = cols as usize;
        let k: usize = inner as usize;
        let ah: usize = if lhs_t {
            k
        } else {
            m
        };
        let bh: usize = if rhs_t {
            n
        } else {
            k
        };
        let mut data: Vec<i64> = Vec::new();
        let mut c: usize = 0;
        while c < n
            invariant
                0 <= c <= n,
                m >= 1,
                m * n <= usize::MAX,
                a == self.model(),
                b == rhs.model(),
                self.data@.len() == m * k,
                rhs.data@.len() == k * n,
                m * k <= usize::MAX,
                k * n <= usize::MAX,
                ah == self.shape.height,
                bh == rhs.shape.height,
                ah == if lhs_t {
                    k
                } else {
                    m
                },
                bh == if rhs_t {
                    n
                } else {
                    k
                },
                data@.len() == m * c,
                forall|i: int|
                    0 <= i < data@.len() ==> data@[i] == dot(
                        a,
                        b,
                        lhs_t,
                        rhs_t,
                        i % (m as int),
                        i / (m as int),
                        k as nat,
                    ),
            decreases n - c,
        {
            let mut row: usize = 0;
            while row < m
                invariant
                    0 <= row <= m,
                    0 <= c < n,
                    m >= 1,
                    m * n <= usize::MAX,
                    a == self.model(),
                    b == rhs.model(),
                    self.data@.len() == m * k,
                    rhs.data@.len() == k * n,
                    m * k <= usize::MAX,
                    k * n <= usize::MAX,
                    ah == self.shape.height,
                    bh == rhs.shape.height,
                    ah == if lhs_t {
                        k
                    } else {
                        m
                    },
                    bh == if rhs_t {
                        n
                    } else {
                        k
                    },
                    data@.len() == m * c + row,
                    forall|i: int|
                        0 <= i < data@.len() ==> data@[i] == dot(
                            a,
                            b,
                            lhs_t,
                            rhs_t,
                            i % (m as int),
                            i / (m as int),
                            k as nat,
                        ),
                decreases m - row,
            {
                let mut acc: i64 = 0;
                let mut j: usize = 0;
                while j < k
                    invariant
                        0 <= j <= k,
                        0 <= row < m,
                        0 <= c < n,
                        a == self.model(),
                        b == rhs.model(),
                        self.data@.len() == m * k,
                        rhs.data@.len() == k * n,
                        m * k <= usize::MAX,
                        k * n <= usize::MAX,
                        ah == self.shape.height,
                        bh == rhs.shape.height,
                        ah == if lhs_t {
                            k
                        } else {
                            m
                        },
                        bh == if rhs_t {
                            n
                        } else {
                            k
                        },
                        acc == dot(a, b, lhs_t, rhs_t, row as int, c as int, j as nat),
                    decreases k - j,
                {
                    proof {
                        if lhs_t {
                            lemma_cell_in_bounds(j as int, k as int, row as int, m as int);
                            assert(k * m == m * k) by (nonlinear_arith);
                            assert(0 <= ah * row <= j + ah * row < m * k);
                        } else {
                            lemma_cell_in_bounds(row as int, m as int, j as int, k as int);
                            assert(0 <= ah * j <= row + ah * j < m * k);
                        }
                        if rhs_t {
                            lemma_cell_in_bounds(c as int, n as int, j as int, k as int);
                            assert(n * k == k * n) by (nonlinear_arith);
                            assert(0 <= bh * j <= c + bh * j < k * n);
                        } else {
                            lemma_cell_in_bounds(j as int, k as int, c as int, n as int);
                            assert(0 <= bh * c <= j + bh * c < k * n);
                        }
                    }
                    let ia: usize = if lhs_t {
                        j + ah * row
                    } else {
                        row + ah * j
                    };
                    let ib: usize = if rhs_t {
                        c + bh * j
                    } else {
                        j + bh * c
                    };
                    acc = acc.wrapping_add(self.data[ia].wrapping_mul(rhs.data[ib]));
                    j = j + 1;
                }
                proof {
                    lemma_cell_in_bounds(row as int, m as int, c as int, n as int);
                }
                data.push(acc);
                row = row + 1;
            }
            proof {
                assert(m * c + m == m * (c + 1)) by (nonlinear_arith);
            }
            c = c + 1;
        }
        let r = IntTensor { shape, data };
        proof {
            assert(r.data@ =~= Self::matmul_model(a, b, lhs_t, rhs_t).elems);
        }
        r
    }

    fn reshape(&self, shape: Shape) -> (r: Self) {
        proof {
            use_type_invariant(self);
        }
        let copy = self.duplicate();
        IntTensor { shape, data: copy.data }
    }

    fn sum(&self) -> (r: Self) {
        proof {
            use_type_invariant(self);
        }
        let mut acc: i64 = 0;
        let mut i: usize = 0;
        while i < self.data.len()
            invariant
                0 <= i <= self.data@.len(),
                acc == total(self.data@, i as nat),
            decreases self.data@.len() - i,
        {
            acc = acc.wrapping_add(self.data[i]);
            i = i + 1;
        }
        let mut data: Vec<i64> = Vec::new();
        data.push(acc);
        proof {
            lemma_scalar_numel();
            assert(data@ =~= seq![total(self.data@, self.data@.len())]);
        }
        IntTensor { shape: Shape::unit(), data }
    }
}

} // verus!
