//! The fixed catalog of single-qubit gates, as exact matrices.

use vstd::prelude::*;
use crate::entry::{Entry, Gauss, gauss_add, gauss_conj, gauss_mul, gauss_norm};
use crate::operator::{Operator, OperatorModel};

verus! {

/// The closed set of gates the simulator knows.
#[derive(Clone, Copy, Debug, PartialEq, Eq, Structural)]
pub enum Gate {
    Identity,
    PauliX,
    PauliY,
    PauliZ,
    Hadamard,
}

/// The 2 × 2 model `(1/√2)^scale · [[m00, m01], [m10, m11]]`.
pub open spec fn matrix2(m00: Entry, m01: Entry, m10: Entry, m11: Entry, scale: nat) -> OperatorModel {
    OperatorModel { dim: 2, scale, entries: seq![m00, m01, m10, m11] }
}

/// The catalog entry that a program names, if any.
pub open spec fn gate_named(name: Seq<char>) -> Option<Gate> {
    if name == "identity"@ {
        Some(Gate::Identity)
    } else if name == "pauliX"@ {
        Some(Gate::PauliX)
    } else if name == "pauliY"@ {
        Some(Gate::PauliY)
    } else if name == "pauliZ"@ {
        Some(Gate::PauliZ)
    } else if name == "hadamard"@ {
        Some(Gate::Hadamard)
    } else {
        None
    }
}

/// How one entry is written.
pub open spec fn entry_text(e: Entry) -> Seq<char> {
    match e {
        Entry::Zero => "0"@,
        Entry::One => "1"@,
        Entry::NegOne => "-1"@,
        Entry::I => "i"@,
        Entry::NegI => "-i"@,
    }
}

/// Writes one entry.
pub fn write_entry(e: Entry) -> (r: String)
    ensures
        r@ == entry_text(e),
{
    match e {
        Entry::Zero => String::from_str("0"),
        Entry::One => String::from_str("1"),
        Entry::NegOne => String::from_str("-1"),
        Entry::I => String::from_str("i"),
        Entry::NegI => String::from_str("-i"),
    }
}

/// The value of `m` applied to the exact vector `(v0, v1)`, before the
/// `(1/√2)^scale` factor.
pub open spec fn apply2(m: OperatorModel, v0: Gauss, v1: Gauss) -> (Gauss, Gauss) {
    (
        gauss_add(gauss_mul(m.at(0, 0).value(), v0), gauss_mul(m.at(0, 1).value(), v1)),
        gauss_add(gauss_mul(m.at(1, 0).value(), v0), gauss_mul(m.at(1, 1).value(), v1)),
    )
}

/// `k · v` for an integer `k`.
pub open spec fn gauss_scale(k: int, v: Gauss) -> Gauss {
    Gauss { re: k * v.re, im: k * v.im }
}

/// `2^n`.
pub open spec fn two_pow(n: nat) -> int
    decreases n,
{
    if n == 0 {
        1
    } else {
        2 * two_pow((n - 1) as nat)
    }
}

/// Applying the identity gate leaves every vector exactly as it was.
pub proof fn lemma_identity_keeps_vector(v0: Gauss, v1: Gauss)
    ensures
        apply2(Gate::Identity.model(), v0, v1) == (v0, v1),
{
    let m = Gate::Identity.model();
    lemma_catalog_entries(Gate::Identity);
    lemma_entry_times(m.at(0, 0), v0);
    lemma_entry_times(m.at(0, 1), v1);
    lemma_entry_times(m.at(1, 0), v0);
    lemma_entry_times(m.at(1, 1), v1);
}

/// Every gate of the catalog undoes itself: its matrix applied twice gives
/// `2^scale` times the vector, which the factor `(1/√2)^(2·scale)` cancels.
/// For the Pauli gates the scale is 0, so twice applied they give back the
/// vector itself; for Hadamard it is 1.
pub proof fn lemma_gate_twice_is_identity(g: Gate, v0: Gauss, v1: Gauss)
    ensures
        ({
            let m = g.model();
            let w = apply2(m, v0, v1);
            apply2(m, w.0, w.1) == (gauss_scale(two_pow(m.scale), v0), gauss_scale(two_pow(m.scale), v1))
        }),
        g != Gate::Hadamard ==> g.model().scale == 0,
        g == Gate::Hadamard ==> g.model().scale == 1,
{
    let m = g.model();
    let w = apply2(m, v0, v1);
    let u = apply2(m, w.0, w.1);
    lemma_catalog_entries(g);
    lemma_entry_times(m.at(0, 0), w.0);
    lemma_entry_times(m.at(0, 1), w.1);
    lemma_entry_times(m.at(1, 0), w.0);
    lemma_entry_times(m.at(1, 1), w.1);
    lemma_entry_times(m.at(0, 0), v0);
    lemma_entry_times(m.at(0, 1), v1);
    lemma_entry_times(m.at(1, 0), v0);
    lemma_entry_times(m.at(1, 1), v1);
    let (a, b, c, d) = (v0.re, v0.im, v1.re, v1.im);
    match g {
        Gate::Identity => {
            assert(w == (v0, v1));
            assert(u == (v0, v1));
        },
        Gate::PauliX => {
            assert(w == (v1, v0));
            assert(u == (v0, v1));
        },
        Gate::PauliY => {
            assert(w == (Gauss { re: d, im: -c }, Gauss { re: -b, im: a }));
            assert(u == (v0, v1));
        },
        Gate::PauliZ => {
            assert(w == (v0, Gauss { re: -c, im: -d }));
            assert(u == (v0, v1));
        },
        Gate::Hadamard => {
            assert(w == (Gauss { re: a + c, im: b + d }, Gauss { re: a - c, im: b - d }));
            assert(u == (Gauss { re: 2 * a, im: 2 * b }, Gauss { re: 2 * c, im: 2 * d }));
        },
    }
}

/// Every gate of the catalog preserves the norm: its matrix multiplies the
/// squared norm by `2^scale`, which the factor `(1/√2)^scale` divides out
/// again.
pub proof fn lemma_gate_keeps_norm(g: Gate, v0: Gauss, v1: Gauss)
    ensures
        ({
            let m = g.model();
            let w = apply2(m, v0, v1);
            gauss_norm(w.0) + gauss_norm(w.1) == two_pow(m.scale) * (gauss_norm(v0) + gauss_norm(v1))
        }),
{
    let m = g.model();
    let w = apply2(m, v0, v1);
    lemma_catalog_entries(g);
    lemma_entry_times(m.at(0, 0), v0);
    lemma_entry_times(m.at(0, 1), v1);
    lemma_entry_times(m.at(1, 0), v0);
    lemma_entry_times(m.at(1, 1), v1);
    let (a, b, c, d) = (v0.re, v0.im, v1.re, v1.im);
    match g {
        Gate::Identity => {
            assert(w == (v0, v1));
        },
        Gate::PauliX => {
            assert(w == (v1, v0));
        },
        Gate::PauliY => {
            assert(w == (Gauss { re: d, im: -c }, Gauss { re: -b, im: a }));
            assert((-c) * (-c) == c * c) by (nonlinear_arith);
            assert((-b) * (-b) == b * b) by (nonlinear_arith);
        },
        Gate::PauliZ => {
            assert(w == (v0, Gauss { re: -c, im: -d }));
            assert((-c) * (-c) == c * c) by (nonlinear_arith);
            assert((-d) * (-d) == d * d) by (nonlinear_arith);
        },
        Gate::Hadamard => {
            assert(w == (Gauss { re: a + c, im: b + d }, Gauss { re: a - c, im: b - d }));
            assert((a + c) * (a + c) + (b + d) * (b + d) + ((a - c) * (a - c) + (b - d) * (b - d))
                == 2 * (a * a + b * b + (c * c + d * d))) by (nonlinear_arith);
        },
    }
}

/// Entry `(i, j)` of `m† · m`, the conjugate transpose of `m` times `m`.
pub open spec fn gram(m: OperatorModel, i: int, j: int) -> Gauss {
    gauss_add(
        gauss_mul(gauss_conj(m.at(0, i).value()), m.at(0, j).value()),
        gauss_mul(gauss_conj(m.at(1, i).value()), m.at(1, j).value()),
    )
}

/// Every gate of the catalog is unitary: `m† · m` is `2^scale` times the
/// identity, so with its factor `(1/√2)^scale` the conjugate transpose of
/// each catalog matrix is its inverse.
pub proof fn lemma_gate_unitary(g: Gate, i: int, j: int)
    requires
        0 <= i < 2,
        0 <= j < 2,
    ensures
        gram(g.model(), i, j) == if i == j {
            Gauss { re: two_pow(g.model().scale), im: 0 }
        } else {
            Gauss { re: 0, im: 0 }
        },
{
    let m = g.model();
    lemma_catalog_entries(g);
    assert(m.at(0, i) == m.entries[i] && m.at(0, j) == m.entries[j]);
    assert(m.at(1, i) == m.entries[2 + i] && m.at(1, j) == m.entries[2 + j]);
    let (a, b) = (m.at(0, i), m.at(1, i));
    lemma_entry_times(m.at(0, j), gauss_conj(a.value()));
    lemma_entry_times(m.at(1, j), gauss_conj(b.value()));
    lemma_gauss_mul_commutes(gauss_conj(a.value()), m.at(0, j).value());
    lemma_gauss_mul_commutes(gauss_conj(b.value()), m.at(1, j).value());
}

/// Multiplication of Gaussian integers commutes.
pub proof fn lemma_gauss_mul_commutes(a: Gauss, b: Gauss)
    ensures
        gauss_mul(a, b) == gauss_mul(b, a),
{
    assert(a.re * b.re - a.im * b.im == b.re * a.re - b.im * a.im) by (nonlinear_arith);
    assert(a.re * b.im + a.im * b.re == b.re * a.im + b.im * a.re) by (nonlinear_arith);
}

/// Multiplying by an entry moves and negates the parts of a Gaussian integer.
pub proof fn lemma_entry_times(e: Entry, v: Gauss)
    ensures
        gauss_mul(e.value(), v) == match e {
            Entry::Zero => Gauss { re: 0, im: 0 },
            Entry::One => v,
            Entry::NegOne => Gauss { re: -v.re, im: -v.im },
            Entry::I => Gauss { re: -v.im, im: v.re },
            Entry::NegI => Gauss { re: v.im, im: -v.re },
        },
{
    let (x, y) = (v.re, v.im);
    assert(0 * x - 0 * y == 0 && 0 * y + 0 * x == 0) by (nonlinear_arith);
    assert(1 * x - 0 * y == x && 1 * y + 0 * x == y) by (nonlinear_arith);
    assert((-1) * x - 0 * y == -x && (-1) * y + 0 * x == -y) by (nonlinear_arith);
    assert(0 * x - 1 * y == -y && 0 * y + 1 * x == x) by (nonlinear_arith);
    assert(0 * x - (-1) * y == y && 0 * y + (-1) * x == -x) by (nonlinear_arith);
}

/// The four entries of a catalog matrix, and the powers of two its scale uses.
proof fn lemma_catalog_entries(g: Gate)
    ensures
        g.model().at(0, 0) == g.model().entries[0],
        g.model().at(0, 1) == g.model().entries[1],
        g.model().at(1, 0) == g.model().entries[2],
        g.model().at(1, 1) == g.model().entries[3],
        two_pow(0) == 1,
        two_pow(1) == 2,
{
    assert(two_pow(0) == 1);
    assert(two_pow(1) == 2 * two_pow(0));
}

impl Gate {
    /// The exact matrix of this gate.
    pub open spec fn model(self) -> OperatorModel {
        match self {
            Gate::Identity => matrix2(Entry::One, Entry::Zero, Entry::Zero, Entry::One, 0),
            Gate::PauliX => matrix2(Entry::Zero, Entry::One, Entry::One, Entry::Zero, 0),
            Gate::PauliY => matrix2(Entry::Zero, Entry::NegI, Entry::I, Entry::Zero, 0),
            Gate::PauliZ => matrix2(Entry::One, Entry::Zero, Entry::Zero, Entry::NegOne, 0),
            Gate::Hadamard => matrix2(Entry::One, Entry::One, Entry::One, Entry::NegOne, 1),
        }
    }

    /// The name under which programs refer to this gate.
    pub open spec fn spec_name(self) -> Seq<char> {
        match self {
            Gate::Identity => "identity"@,
            Gate::PauliX => "pauliX"@,
            Gate::PauliY => "pauliY"@,
            Gate::PauliZ => "pauliZ"@,
            Gate::Hadamard => "hadamard"@,
        }
    }

    /// How this matrix is written: `[[a, b], [c, d]]`, preceded by
    /// `1/sqrt(2) * ` when the matrix is scaled.
    pub open spec fn spec_text(self) -> Seq<char> {
        let m = self.model();
        let body = "[["@ + entry_text(m.at(0, 0)) + ", "@ + entry_text(m.at(0, 1)) + "], ["@
            + entry_text(m.at(1, 0)) + ", "@ + entry_text(m.at(1, 1)) + "]]"@;
        if m.scale == 0 {
            body
        } else {
            "1/sqrt(2) * "@ + body
        }
    }

    /// The exact matrix of this gate.
    pub fn matrix_representation(&self) -> (r: Operator)
        ensures
            r@.well_formed(),
            r@ == self.model(),
    {
        match self {
            Gate::Identity => Operator::two_by_two(Entry::One, Entry::Zero, Entry::Zero, Entry::One, 0),
            Gate::PauliX => Operator::two_by_two(Entry::Zero, Entry::One, Entry::One, Entry::Zero, 0),
            Gate::PauliY => Operator::two_by_two(Entry::Zero, Entry::NegI, Entry::I, Entry::Zero, 0),
            Gate::PauliZ => Operator::two_by_two(Entry::One, Entry::Zero, Entry::Zero, Entry::NegOne, 0),
            Gate::Hadamard => Operator::two_by_two(Entry::One, Entry::One, Entry::One, Entry::NegOne, 1),
        }
    }

    /// The name under which programs refer to this gate.
    pub fn name(&self) -> (r: String)
        ensures
            r@ == self.spec_name(),
    {
        match self {
            Gate::Identity => String::from_str("identity"),
            Gate::PauliX => String::from_str("pauliX"),
            Gate::PauliY => String::from_str("pauliY"),
            Gate::PauliZ => String::from_str("pauliZ"),
            Gate::Hadamard => String::from_str("hadamard"),
        }
    }

    /// Looks a gate up in the catalog by name.
    pub fn from_name(name: &String) -> (r: Option<Gate>)
        ensures
            r == gate_named(name@),
    {
        if *name == String::from_str("identity") {
            Some(Gate::Identity)
        } else if *name == String::from_str("pauliX") {
            Some(Gate::PauliX)
        } else if *name == String::from_str("pauliY") {
            Some(Gate::PauliY)
        } else if *name == String::from_str("pauliZ") {
            Some(Gate::PauliZ)
        } else if *name == String::from_str("hadamard") {
            Some(Gate::Hadamard)
        } else {
            None
        }
    }

    /// Writes this matrix out.
    pub fn render(&self) -> (r: String)
        ensures
            r@ == self.spec_text(),
    {
        let m = self.matrix_representation();
        let mut body = String::from_str("[[");
        body.append(write_entry(m.entry(0, 0)).as_str());
        body.append(", ");
        body.append(write_entry(m.entry(0, 1)).as_str());
        body.append("], [");
        body.append(write_entry(m.entry(1, 0)).as_str());
        body.append(", ");
        body.append(write_entry(m.entry(1, 1)).as_str());
        body.append("]]");
        if m.scale() == 0 {
            body
        } else {
            String::from_str("1/sqrt(2) * ").concat(body.as_str())
        }
    }
}

/// The `Identity` gate of the catalog as a value of its own, holding its matrix.
pub struct Identity {
    matrix_form: Operator,
}

impl View for Identity {
    type V = OperatorModel;

    closed spec fn view(&self) -> OperatorModel {
        self.matrix_form@
    }
}

impl Identity {
    pub fn new() -> (r: Self)
        ensures
            r@ == Gate::Identity.model(),
    {
        Identity { matrix_form: Gate::Identity.matrix_representation() }
    }

    pub fn matrix_representation(&self) -> (r: &Operator)
        ensures
            r@ == self@,
    {
        &self.matrix_form
    }
}

/// The `PauliX` gate of the catalog as a value of its own, holding its matrix.
pub struct PauliX {
    matrix_form: Operator,
}

impl View for PauliX {
    type V = OperatorModel;

    closed spec fn view(&self) -> OperatorModel {
        self.matrix_form@
    }
}

impl PauliX {
    pub fn new() -> (r: Self)
        ensures
            r@ == Gate::PauliX.model(),
    {
        PauliX { matrix_form: Gate::PauliX.matrix_representation() }
    }

    pub fn matrix_representation(&self) -> (r: &Operator)
        ensures
            r@ == self@,
    {
        &self.matrix_form
    }
}

/// The `PauliY` gate of the catalog as a value of its own, holding its matrix.
pub struct PauliY {
    matrix_form: Operator,
}

impl View for PauliY {
    type V = OperatorModel;

    closed spec fn view(&self) -> OperatorModel {
        self.matrix_form@
    }
}

impl PauliY {
    pub fn new() -> (r: Self)
        ensures
            r@ == Gate::PauliY.model(),
    {
        PauliY { matrix_form: Gate::PauliY.matrix_representation() }
    }

    pub fn matrix_representation(&self) -> (r: &Operator)
        ensures
            r@ == self@,
    {
        &self.matrix_form
    }
}

/// The `PauliZ` gate of the catalog as a value of its own, holding its matrix.
pub struct PauliZ {
    matrix_form: Operator,
}

impl View for PauliZ {
    type V = OperatorModel;

    closed spec fn view(&self) -> OperatorModel {
        self.matrix_form@
    }
}

impl PauliZ {
    pub fn new() -> (r: Self)
        ensures
            r@ == Gate::PauliZ.model(),
    {
        PauliZ { matrix_form: Gate::PauliZ.matrix_representation() }
    }

    pub fn matrix_representation(&self) -> (r: &Operator)
        ensures
            r@ == self@,
    {
        &self.matrix_form
    }
}

/// The `Hadamard` gate of the catalog as a value of its own, holding its matrix.
pub struct Hadamard {
    matrix_form: Operator,
}

impl View for Hadamard {
    type V = OperatorModel;

    closed spec fn view(&self) -> OperatorModel {
        self.matrix_form@
    }
}

impl Hadamard {
    pub fn new() -> (r: Self)
        ensures
            r@ == Gate::Hadamard.model(),
    {
        Hadamard { matrix_form: Gate::Hadamard.matrix_representation() }
    }

    pub fn matrix_representation(&self) -> (r: &Operator)
        ensures
            r@ == self@,
    {
        &self.matrix_form
    }
}

} // verus!
