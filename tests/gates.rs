use qubit_sim::entry::Entry;
use qubit_sim::gate::{write_entry, Gate};
use qubit_sim::operator::Operator;

type Vector = [(i64, i64); 2];

/// The matrix of `gate` applied to `v`, before the factor (1/√2)^scale.
fn apply(gate: Gate, v: Vector) -> Vector {
    let m = gate.matrix_representation();
    let mut out = [(0, 0); 2];
    for r in 0..2 {
        for c in 0..2 {
            let e = m.entry(r, c);
            let (x, y) = (e.real_part() as i64, e.imaginary_part() as i64);
            out[r].0 += x * v[c].0 - y * v[c].1;
            out[r].1 += x * v[c].1 + y * v[c].0;
        }
    }
    out
}

const BASIS0: Vector = [(1, 0), (0, 0)];
const BASIS1: Vector = [(0, 0), (1, 0)];

#[test]
fn test_identity_gate() {
    assert_eq!(apply(Gate::Identity, BASIS0), BASIS0);
    assert_eq!(apply(Gate::Identity, BASIS1), BASIS1);
    let v = [(1, 1), (1, 1)];
    assert_eq!(apply(Gate::Identity, v), v);
    assert_eq!(Gate::Identity.matrix_representation().scale(), 0);
}

#[test]
fn test_pauli_x_gate() {
    assert_eq!(apply(Gate::PauliX, BASIS0), BASIS1);
    assert_eq!(apply(Gate::PauliX, BASIS1), BASIS0);
}

#[test]
fn test_pauli_y_gate() {
    assert_eq!(apply(Gate::PauliY, BASIS0), [(0, 0), (0, 1)]);
    assert_eq!(apply(Gate::PauliY, BASIS1), [(0, -1), (0, 0)]);
}

#[test]
fn test_pauli_z_gate() {
    assert_eq!(apply(Gate::PauliZ, BASIS0), BASIS0);
    assert_eq!(apply(Gate::PauliZ, BASIS1), [(0, 0), (-1, 0)]);
}

#[test]
fn test_hadamard_gate() {
    let h = Gate::Hadamard.matrix_representation();
    assert_eq!(h.scale(), 1);
    assert_eq!(apply(Gate::Hadamard, BASIS0), [(1, 0), (1, 0)]);
    assert_eq!(apply(Gate::Hadamard, BASIS1), [(1, 0), (-1, 0)]);
    let k = 1.0_f64 / 2.0_f64.sqrt();
    let scaled = (h.entry(1, 1).real_part() as f64) * k;
    assert!((scaled + 0.7071067811865476).abs() < 1e-12);
}

#[test]
fn gates_applied_twice_give_back_the_vector() {
    let v: Vector = [(3, -2), (5, 7)];
    for g in [Gate::PauliX, Gate::PauliY, Gate::PauliZ] {
        assert_eq!(apply(g, apply(g, v)), v);
    }
    let twice = apply(Gate::Hadamard, apply(Gate::Hadamard, v));
    assert_eq!(twice, [(6, -4), (10, 14)]);
}

#[test]
fn gates_keep_the_norm() {
    let v: Vector = [(3, -2), (5, 7)];
    let norm = |w: Vector| w[0].0 * w[0].0 + w[0].1 * w[0].1 + w[1].0 * w[1].0 + w[1].1 * w[1].1;
    for g in [Gate::Identity, Gate::PauliX, Gate::PauliY, Gate::PauliZ] {
        assert_eq!(norm(apply(g, v)), norm(v));
    }
    assert_eq!(norm(apply(Gate::Hadamard, v)), 2 * norm(v));
}

#[test]
fn gates_are_found_by_name() {
    for g in [Gate::Identity, Gate::PauliX, Gate::PauliY, Gate::PauliZ, Gate::Hadamard] {
        assert_eq!(Gate::from_name(&g.name()), Some(g));
    }
    assert_eq!(Gate::from_name(&"pauliX".to_string()), Some(Gate::PauliX));
    assert_eq!(Gate::from_name(&"PauliX".to_string()), None);
    assert_eq!(Gate::from_name(&"".to_string()), None);
}

#[test]
fn gates_are_written_out() {
    assert_eq!(Gate::Identity.render(), "[[1, 0], [0, 1]]");
    assert_eq!(Gate::PauliX.render(), "[[0, 1], [1, 0]]");
    assert_eq!(Gate::PauliY.render(), "[[0, -i], [i, 0]]");
    assert_eq!(Gate::PauliZ.render(), "[[1, 0], [0, -1]]");
    assert_eq!(Gate::Hadamard.render(), "1/sqrt(2) * [[1, 1], [1, -1]]");
    assert_eq!(write_entry(Entry::NegI), "-i");
}

#[test]
fn entries_multiply_exactly() {
    assert_eq!(Entry::I.times(Entry::I), Entry::NegOne);
    assert_eq!(Entry::I.times(Entry::NegI), Entry::One);
    assert_eq!(Entry::NegOne.times(Entry::NegI), Entry::I);
    assert_eq!(Entry::Zero.times(Entry::NegOne), Entry::Zero);
    assert_eq!(Entry::NegI.real_part(), 0);
    assert_eq!(Entry::NegI.imaginary_part(), -1);
}

#[test]
fn two_by_two_holds_its_entries() {
    let m = Operator::two_by_two(Entry::One, Entry::I, Entry::NegI, Entry::NegOne, 3);
    assert_eq!(m.dim(), 2);
    assert_eq!(m.scale(), 3);
    assert_eq!(m.entry(0, 1), Entry::I);
    assert_eq!(m.entry(1, 0), Entry::NegI);
    assert_eq!(m.entry(1, 1), Entry::NegOne);
}
