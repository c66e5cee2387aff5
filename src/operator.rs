//! Exact square operators whose entries are zero or a unit, scaled by a
//! power of 1/√2, and their tensor (Kronecker) product.

use vstd::prelude::*;
use crate::entry::Entry;

verus! {

/// Mathematical model of an operator: a `dim × dim` matrix stored row by
/// row, whose value is `(1/√2)^scale` times the entries.
pub struct OperatorModel {
    pub dim: nat,
    pub scale: nat,
    pub entries: Seq<Entry>,
}

impl OperatorModel {
    /// The entries fill the square exactly.
    pub open spec fn well_formed(self) -> bool {
        self.entries.len() == self.dim * self.dim
    }

    /// The entry in row `r` and column `c`.
    pub open spec fn at(self, r: int, c: int) -> Entry {
        self.entries[r * self.dim + c]
    }
}

/// The tensor product `a ⊗ b`: the entry in block row `i`, block column `j`,
/// inner row `k` and inner column `l` is `a[i, j] · b[k, l]`, and the scales add.
pub open spec fn kron(a: OperatorModel, b: OperatorModel) -> OperatorModel {
    let n: int = (a.dim * b.dim) as int;
    let q: int = b.dim as int;
    OperatorModel {
        dim: a.dim * b.dim,
        scale: a.scale + b.scale,
        entries: Seq::new(
            (n * n) as nat,
            |x: int| a.at((x / n) / q, (x % n) / q).spec_times(b.at((x / n) % q, (x % n) % q)),
        ),
    }
}

/// The 1 × 1 operator holding 1: the neutral element of `kron`.
pub open spec fn unit_model() -> OperatorModel {
    OperatorModel { dim: 1, scale: 0, entries: seq![Entry::One] }
}

/// For `0 <= x < a·b` with `b > 0`, the quotient by `b` is below `a` and the
/// remainder below `b`.
pub proof fn lemma_split_index(x: int, a: int, b: int)
    requires
        0 <= x < a * b,
        b > 0,
    ensures
        0 <= x / b < a,
        0 <= x % b < b,
        x == (x / b) * b + x % b,
{
    vstd::arithmetic::div_mod::lemma_fundamental_div_mod(x, b);
    vstd::arithmetic::div_mod::lemma_mod_bound(x, b);
    let q = x / b;
    let m = x % b;
    assert(q * b == b * q) by (nonlinear_arith);
    assert(q < a) by (nonlinear_arith)
        requires
            x < a * b,
            b > 0,
            x == q * b + m,
            0 <= m,
    ;
    assert(0 <= q) by (nonlinear_arith)
        requires
            0 <= x,
            b > 0,
            x == q * b + m,
            m < b,
    ;
}

/// For `r < n` and `c < n`, the row-major index `r·n + c` is below `n·n`.
pub proof fn lemma_row_major_index(r: int, c: int, n: int)
    requires
        0 <= r < n,
        0 <= c < n,
    ensures
        0 <= r * n + c < n * n,
{
    assert(0 <= r * n + c < n * n) by (nonlinear_arith)
        requires
            0 <= r < n,
            0 <= c < n,
    ;
}

/// An exact operator; see [`OperatorModel`] for its meaning.
pub struct Operator {
    dim: usize,
    scale: usize,
    entries: Vec<Entry>,
}

impl View for Operator {
    type V = OperatorModel;

    closed spec fn view(&self) -> OperatorModel {
        OperatorModel { dim: self.dim as nat, scale: self.scale as nat, entries: self.entries@ }
    }
}

impl Operator {
    /// The 2 × 2 operator `(1/√2)^scale · [[m00, m01], [m10, m11]]`.
    pub fn two_by_two(m00: Entry, m01: Entry, m10: Entry, m11: Entry, scale: usize) -> (r: Operator)
        ensures
            r@.well_formed(),
            r@ == (OperatorModel { dim: 2, scale: scale as nat, entries: seq![m00, m01, m10, m11] }),
    {
        let mut entries: Vec<Entry> = Vec::new();
        entries.push(m00);
        entries.push(m01);
        entries.push(m10);
        entries.push(m11);
        let r = Operator { dim: 2, scale, entries };
        assert(r@.entries =~= seq![m00, m01, m10, m11]);
        assert(r@.dim * r@.dim == 4) by (nonlinear_arith)
            requires
                r@.dim == 2,
        ;
        r
    }

    /// The 1 × 1 operator holding 1.
    pub fn unit() -> (r: Operator)
        ensures
            r@.well_formed(),
            r@ == unit_model(),
    {
        let mut entries: Vec<Entry> = Vec::new();
        entries.push(Entry::One);
        let r = Operator { dim: 1, scale: 0, entries };
        assert(r@.entries =~= seq![Entry::One]);
        r
    }

    /// Number of rows (and of columns).
    pub fn dim(&self) -> (r: usize)
        ensures
            r == self@.dim,
    {
        self.dim
    }

    /// The power of 1/√2 that scales the entries.
    pub fn scale(&self) -> (r: usize)
        ensures
            r == self@.scale,
    {
        self.scale
    }

    /// The entry in row `row` and column `col`.
    pub fn entry(&self, row: usize, col: usize) -> (r: Entry)
        requires
            self@.well_formed(),
            row < self@.dim,
            col < self@.dim,
        ensures
            r == self@.at(row as int, col as int),
    {
        let len = self.entries.len();
        proof {
            lemma_row_major_index(row as int, col as int, self.dim as int);
        }
        self.entries[row * self.dim + col]
    }

    /// The tensor product `a ⊗ b`.
    pub fn tensor_product(a: &Operator, b: &Operator) -> (r: Operator)
        requires
            a@.well_formed(),
            b@.well_formed(),
            a@.dim > 0,
            b@.dim > 0,
            a@.dim * b@.dim * (a@.dim * b@.dim) <= usize::MAX,
            a@.scale + b@.scale <= usize::MAX,
        ensures
            r@.well_formed(),
            r@ == kron(a@, b@),
    {
        let ghost spec_r = kron(a@, b@);
        proof {
            assert(a@.dim * b@.dim <= a@.dim * b@.dim * (a@.dim * b@.dim)) by (nonlinear_arith)
                requires
                    a@.dim > 0,
                    b@.dim > 0,
            ;
        }
        let n: usize = a.dim * b.dim;
        let total: usize = n * n;
        let mut entries: Vec<Entry> = Vec::new();
        let mut x: usize = 0;
        while x < total
            invariant
                a@.well_formed(),
                b@.well_formed(),
                a@.dim > 0,
                b@.dim > 0,
                n == a@.dim * b@.dim,
                total == n * n,
                spec_r == kron(a@, b@),
                x <= total,
                entries@.len() == x,
                forall|y: int| 0 <= y < x ==> entries@[y] == #[trigger] spec_r.entries[y],
            decreases total - x,
        {
            proof {
                lemma_split_index(x as int, n as int, n as int);
            }
            let row: usize = x / n;
            let col: usize = x % n;
            proof {
                assert(row < a@.dim * b@.dim);
                assert(col < a@.dim * b@.dim);
                lemma_split_index(row as int, a@.dim as int, b@.dim as int);
                lemma_split_index(col as int, a@.dim as int, b@.dim as int);
            }
            let e = a.entry(row / b.dim, col / b.dim).times(b.entry(row % b.dim, col % b.dim));
            entries.push(e);
            x = x + 1;
        }
        let r = Operator { dim: n, scale: a.scale + b.scale, entries };
        assert(r@.entries =~= spec_r.entries);
        r
    }
}

} // verus!
