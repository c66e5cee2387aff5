//! Index arithmetic of an n-qubit register: the operator that applies a gate
//! to one qubit of the register, and the basis states grouped by one bit.
//!
//! Basis state `x` of an n-qubit register is the index whose bit `p` (bit 0
//! being the lowest) is the state of qubit `p`.

use vstd::prelude::*;
use crate::entry::Entry;
use crate::gate::{Gate, two_pow};
use crate::operator::{Operator, OperatorModel, kron, unit_model};

verus! {

/// Bit `p` of the basis index `x`.
pub open spec fn bit_of(x: int, p: nat) -> int {
    (x / two_pow(p)) % 2
}

/// The factor that acts on qubit `position`: `g` on the target, the
/// identity elsewhere.
pub open spec fn factor(g: Gate, target: nat, position: nat) -> OperatorModel {
    if position == target {
        g.model()
    } else {
        Gate::Identity.model()
    }
}

/// The operator that applies `g` to qubit `target` of an `n`-qubit register:
/// the tensor product of one factor per qubit, the factor of the highest
/// qubit leftmost, so that qubit `p` is bit `p` of the basis index.
pub open spec fn embedded(g: Gate, target: nat, n: nat) -> OperatorModel
    decreases n,
{
    if n == 0 {
        unit_model()
    } else {
        kron(factor(g, target, (n - 1) as nat), embedded(g, target, (n - 1) as nat))
    }
}

/// `2^a <= 2^b` when `a <= b`.
pub proof fn lemma_two_pow_monotone(a: nat, b: nat)
    requires
        a <= b,
    ensures
        1 <= two_pow(a) <= two_pow(b),
    decreases b,
{
    if b > a {
        lemma_two_pow_monotone(a, (b - 1) as nat);
    } else if a > 0 {
        lemma_two_pow_monotone((a - 1) as nat, (a - 1) as nat);
    }
}

/// `2^(a + b) == 2^a · 2^b`.
pub proof fn lemma_two_pow_add(a: nat, b: nat)
    ensures
        two_pow(a + b) == two_pow(a) * two_pow(b),
    decreases b,
{
    if b > 0 {
        lemma_two_pow_add(a, (b - 1) as nat);
        assert(two_pow(a + b) == 2 * two_pow((a + b - 1) as nat));
        assert(two_pow(a) * (2 * two_pow((b - 1) as nat)) == 2 * (two_pow(a) * two_pow((b - 1) as nat)))
            by (nonlinear_arith);
    } else {
        assert(two_pow(a) * 1 == two_pow(a));
    }
}

/// Bit `p` of an index is the same after dropping the bits from `m` up,
/// for `p < m`.
pub proof fn lemma_bit_of_low(r: int, p: nat, m: nat)
    requires
        0 <= r,
        p < m,
    ensures
        bit_of(r % two_pow(m), p) == bit_of(r, p),
{
    let pp = two_pow(p);
    let q = two_pow((m - p) as nat);
    lemma_two_pow_add(p, (m - p) as nat);
    assert(p + (m - p) as nat == m);
    let d = two_pow(m);
    assert(d == pp * q);
    lemma_two_pow_monotone(m, m);
    lemma_two_pow_monotone(p, p);
    lemma_two_pow_monotone(1, (m - p) as nat);
    assert(two_pow(1) == 2 * two_pow(0));
    let q2 = two_pow((m - p - 1) as nat);
    assert(q == 2 * q2);
    vstd::arithmetic::div_mod::lemma_fundamental_div_mod(r, d);
    vstd::arithmetic::div_mod::lemma_mod_pos_bound(r, d);
    let h = r / d;
    let l = r % d;
    vstd::arithmetic::div_mod::lemma_div_pos_is_pos(r, d);
    vstd::arithmetic::div_mod::lemma_fundamental_div_mod(l, pp);
    vstd::arithmetic::div_mod::lemma_mod_pos_bound(l, pp);
    let lq = l / pp;
    let lr = l % pp;
    assert(r == (h * q + lq) * pp + lr) by (nonlinear_arith)
        requires
            r == d * h + l,
            d == pp * q,
            l == pp * lq + lr,
    ;
    vstd::arithmetic::div_mod::lemma_fundamental_div_mod_converse(r, pp, h * q + lq, lr);
    assert(h * q + lq == 2 * (h * q2) + lq) by (nonlinear_arith)
        requires
            q == 2 * q2,
    ;
    vstd::arithmetic::div_mod::lemma_mod_multiples_vanish(h * q2, lq, 2);
}

/// For an index below `2^(m+1)`, bit `m` is its quotient by `2^m`.
pub proof fn lemma_bit_of_high(r: int, m: nat)
    requires
        0 <= r < 2 * two_pow(m),
    ensures
        r / two_pow(m) == bit_of(r, m),
        0 <= r / two_pow(m) < 2,
        0 <= r % two_pow(m) < two_pow(m),
        r == (r / two_pow(m)) * two_pow(m) + r % two_pow(m),
{
    lemma_two_pow_monotone(m, m);
    lemma_split_index_pow(r, m);
    vstd::arithmetic::div_mod::lemma_small_mod((r / two_pow(m)) as nat, 2);
}

proof fn lemma_split_index_pow(r: int, m: nat)
    requires
        0 <= r < 2 * two_pow(m),
        two_pow(m) >= 1,
    ensures
        0 <= r / two_pow(m) < 2,
        0 <= r % two_pow(m) < two_pow(m),
        r == (r / two_pow(m)) * two_pow(m) + r % two_pow(m),
{
    crate::operator::lemma_split_index(r, 2, two_pow(m));
}

/// Whether the basis indices `r` and `c` agree on every bit below `n` but
/// bit `t`.
pub open spec fn agree_except(r: int, c: int, t: nat, n: nat) -> bool {
    forall|p: nat| p < n && p != t ==> #[trigger] bit_of(r, p) == bit_of(c, p)
}

/// The entry of the operator that applies `g` to qubit `t` of an `n`-qubit
/// register, stated directly: where `r` and `c` differ on a bit other than
/// `t` it is 0; otherwise it is `g`'s entry for bit `t` of `r` and of `c`
/// (or 1 when `t` lies outside the register).
pub open spec fn embedded_entry(g: Gate, t: nat, n: nat, r: int, c: int) -> Entry {
    if agree_except(r, c, t, n) {
        if t < n {
            g.model().at(bit_of(r, t), bit_of(c, t))
        } else {
            Entry::One
        }
    } else {
        Entry::Zero
    }
}

/// The tensor product of one factor per qubit is the operator that applies
/// `g` to qubit `t` and leaves every other qubit alone.
pub proof fn lemma_embedded_entry(g: Gate, t: nat, n: nat, r: int, c: int)
    requires
        0 <= r < two_pow(n),
        0 <= c < two_pow(n),
    ensures
        embedded(g, t, n).well_formed(),
        embedded(g, t, n).dim == two_pow(n),
        embedded(g, t, n).at(r, c) == embedded_entry(g, t, n, r, c),
    decreases n,
{
    if n == 0 {
        lemma_embedded_shape(g, t, n);
        assert(two_pow(0) == 1);
        assert(r == 0 && c == 0);
        assert(embedded(g, t, n).at(0, 0) == Entry::One);
        assert(agree_except(r, c, t, n));
    } else {
        let m = (n - 1) as nat;
        let d = two_pow(m);
        let e = embedded(g, t, m);
        let f = factor(g, t, m);
        lemma_embedded_shape(g, t, n);
        lemma_embedded_shape(g, t, m);
        assert(two_pow(n) == 2 * d);
        lemma_bit_of_high(r, m);
        lemma_bit_of_high(c, m);
        let (hr, lr) = (r / d, r % d);
        let (hc, lc) = (c / d, c % d);
        lemma_embedded_entry(g, t, m, lr, lc);
        // Position of entry (r, c) in the product.
        let big = 2 * d;
        crate::operator::lemma_row_major_index(r, c, big);
        let x = r * big + c;
        vstd::arithmetic::div_mod::lemma_fundamental_div_mod_converse(x, big, r, c);
        assert(embedded(g, t, n) == kron(f, e));
        assert(f.dim == 2 && e.dim == d);
        assert(kron(f, e).at(r, c) == f.at(hr, hc).spec_times(e.at(lr, lc)));
        assert forall|p: nat| p < m implies #[trigger] bit_of(lr, p) == bit_of(r, p) && bit_of(lc, p) == bit_of(c, p) by {
            lemma_bit_of_low(r, p, m);
            lemma_bit_of_low(c, p, m);
        }
        if agree_except(r, c, t, n) {
            assert forall|p: nat| p < m && p != t implies #[trigger] bit_of(lr, p) == bit_of(lc, p) by {
                assert(bit_of(r, p) == bit_of(c, p));
            }
            assert(agree_except(lr, lc, t, m));
            if m != t {
                assert(bit_of(r, m) == bit_of(c, m));
            }
        } else {
            let p = choose|p: nat| !(p < n && p != t ==> #[trigger] bit_of(r, p) == bit_of(c, p));
            assert(p < n && p != t && bit_of(r, p) != bit_of(c, p));
            if p < m {
                lemma_bit_of_low(r, p, m);
                lemma_bit_of_low(c, p, m);
                assert(bit_of(lr, p) != bit_of(lc, p));
                assert(!agree_except(lr, lc, t, m));
            }
        }
        let result = f.at(hr, hc).spec_times(e.at(lr, lc));
        if m == t {
            assert(agree_except(r, c, t, n) == agree_except(lr, lc, t, m));
            assert(result == embedded_entry(g, t, n, r, c));
        } else {
            assert(f == Gate::Identity.model());
            assert(f.at(hr, hc) == f.entries[hr * 2 + hc]);
            assert(hr == 0 || hr == 1);
            assert(hc == 0 || hc == 1);
            assert(f.at(hr, hc) == if hr == hc { Entry::One } else { Entry::Zero });
            if t < m {
                assert(bit_of(lr, t) == bit_of(r, t) && bit_of(lc, t) == bit_of(c, t));
            }
            assert(result == embedded_entry(g, t, n, r, c));
        }
    }
}

/// The embedded operator is square with `2^n` rows.
pub proof fn lemma_embedded_shape(g: Gate, t: nat, n: nat)
    ensures
        embedded(g, t, n).well_formed(),
        embedded(g, t, n).dim == two_pow(n),
    decreases n,
{
    if n > 0 {
        lemma_embedded_shape(g, t, (n - 1) as nat);
        let d = two_pow((n - 1) as nat);
        assert(2 * d * (2 * d) == (2 * d) * (2 * d));
    } else {
        assert(two_pow(0) == 1);
    }
}

/// Whether a register of `n` qubits has room for a dense operator.
pub open spec fn fits_dense(n: nat) -> bool {
    two_pow(n) * two_pow(n) <= usize::MAX
}

/// The operator that applies `gate` to qubit `target` of a register of
/// `num_qubits` qubits. A target outside the register leaves every qubit
/// alone.
pub fn gate_on_target(gate: Gate, target: usize, num_qubits: usize) -> (r: Operator)
    requires
        fits_dense(num_qubits as nat),
    ensures
        r@.well_formed(),
        r@ == embedded(gate, target as nat, num_qubits as nat),
        r@.dim == two_pow(num_qubits as nat),
        forall|row: int, col: int|
            0 <= row < r@.dim && 0 <= col < r@.dim ==> #[trigger] r@.at(row, col) == embedded_entry(
                gate,
                target as nat,
                num_qubits as nat,
                row,
                col,
            ),
{
    let mut acc = Operator::unit();
    let mut p: usize = 0;
    assert(two_pow(0) == 1);
    while p < num_qubits
        invariant
            p <= num_qubits,
            fits_dense(num_qubits as nat),
            acc@.well_formed(),
            acc@ == embedded(gate, target as nat, p as nat),
            acc@.dim == two_pow(p as nat),
            acc@.scale <= p,
        decreases num_qubits - p,
    {
        let f = if p == target {
            gate.matrix_representation()
        } else {
            Gate::Identity.matrix_representation()
        };
        proof {
            let d = two_pow(p as nat);
            let n = two_pow(num_qubits as nat);
            lemma_two_pow_monotone((p + 1) as nat, num_qubits as nat);
            assert(two_pow((p + 1) as nat) == 2 * d);
            assert(2 * d * (2 * d) <= n * n) by (nonlinear_arith)
                requires
                    2 * d <= n,
                    1 <= d,
            ;
            assert(f@.dim == 2);
            assert(f@.dim * acc@.dim * (f@.dim * acc@.dim) <= usize::MAX);
            assert(f@.scale <= 1);
        }
        acc = Operator::tensor_product(&f, &acc);
        p = p + 1;
    }
    proof {
        assert forall|row: int, col: int| 0 <= row < acc@.dim && 0 <= col < acc@.dim implies #[trigger] acc@.at(
            row,
            col,
        ) == embedded_entry(gate, target as nat, num_qubits as nat, row, col) by {
            lemma_embedded_entry(gate, target as nat, num_qubits as nat, row, col);
        }
    }
    acc
}

/// The number of basis states of a register of `num_qubits` qubits.
pub fn basis_count(num_qubits: usize) -> (r: usize)
    requires
        two_pow(num_qubits as nat) <= usize::MAX,
    ensures
        r == two_pow(num_qubits as nat),
{
    let mut r: usize = 1;
    let mut k: usize = 0;
    while k < num_qubits
        invariant
            k <= num_qubits,
            r == two_pow(k as nat),
            two_pow(num_qubits as nat) <= usize::MAX,
        decreases num_qubits - k,
    {
        proof {
            lemma_two_pow_monotone((k + 1) as nat, num_qubits as nat);
        }
        r = r * 2;
        k = k + 1;
    }
    r
}

/// The basis indices of a register of `num_qubits` qubits whose bit
/// `position` equals `bit`, in increasing order. For a position outside the
/// register every bit is 0.
pub fn basis_indices_with_bit(num_qubits: usize, position: usize, bit: u8) -> (r: Vec<usize>)
    requires
        two_pow(num_qubits as nat) <= usize::MAX,
    ensures
        forall|k: int| 0 <= k < r@.len() ==> r@[k] < two_pow(num_qubits as nat),
        forall|k: int| 0 <= k < r@.len() ==> bit_of(#[trigger] r@[k] as int, position as nat) == bit,
        forall|k: int, l: int| 0 <= k < l < r@.len() ==> r@[k] < r@[l],
        forall|x: int|
            0 <= x < two_pow(num_qubits as nat) && bit_of(x, position as nat) == bit ==> r@.contains(
                x as usize,
            ),
{
    let size = basis_count(num_qubits);
    let low: usize = if position < num_qubits {
        position
    } else {
        num_qubits
    };
    proof {
        lemma_two_pow_monotone(low as nat, num_qubits as nat);
        lemma_two_pow_monotone(low as nat, position as nat);
    }
    let step = basis_count(low);
    let mut r: Vec<usize> = Vec::new();
    let mut i: usize = 0;
    while i < size
        invariant
            size == two_pow(num_qubits as nat),
            step == two_pow(low as nat),
            step >= 1,
            low == position || (low == num_qubits && position >= num_qubits),
            i <= size,
            forall|k: int| 0 <= k < r@.len() ==> r@[k] < i,
            forall|k: int| 0 <= k < r@.len() ==> bit_of(#[trigger] r@[k] as int, position as nat) == bit,
            forall|k: int, l: int| 0 <= k < l < r@.len() ==> r@[k] < r@[l],
            forall|x: int| 0 <= x < i && bit_of(x, position as nat) == bit ==> r@.contains(x as usize),
        decreases size - i,
    {
        let b: u8 = ((i / step) % 2) as u8;
        proof {
            if low != position {
                lemma_two_pow_monotone(num_qubits as nat, position as nat);
                vstd::arithmetic::div_mod::lemma_basic_div(i as int, two_pow(low as nat));
                vstd::arithmetic::div_mod::lemma_basic_div(i as int, two_pow(position as nat));
            }
            assert(b == bit_of(i as int, position as nat));
        }
        if b == bit {
            let ghost old_r = r@;
            r.push(i);
            proof {
                assert forall|x: int| 0 <= x < i + 1 && bit_of(x, position as nat) == bit implies r@.contains(
                    x as usize,
                ) by {
                    if x < i {
                        assert(old_r.contains(x as usize));
                        let k = choose|k: int| 0 <= k < old_r.len() && old_r[k] == x as usize;
                        assert(r@[k] == x as usize);
                    } else {
                        assert(r@[r@.len() - 1] == i);
                    }
                }
            }
        }
        i = i + 1;
    }
    r
}

} // verus!
