//! Matrix entries of the catalog of gates: zero or one of the units 1, -1, i, -i.

use vstd::prelude::*;

verus! {

/// A Gaussian integer `re + im·i`, the exact value of an entry.
pub struct Gauss {
    pub re: int,
    pub im: int,
}

/// Product of two Gaussian integers.
pub open spec fn gauss_mul(a: Gauss, b: Gauss) -> Gauss {
    Gauss { re: a.re * b.re - a.im * b.im, im: a.re * b.im + a.im * b.re }
}

/// Sum of two Gaussian integers.
pub open spec fn gauss_add(a: Gauss, b: Gauss) -> Gauss {
    Gauss { re: a.re + b.re, im: a.im + b.im }
}

/// Squared magnitude `re² + im²`.
pub open spec fn gauss_norm(a: Gauss) -> int {
    a.re * a.re + a.im * a.im
}

/// Complex conjugate.
pub open spec fn gauss_conj(a: Gauss) -> Gauss {
    Gauss { re: a.re, im: -a.im }
}

/// One entry of an exact gate matrix. The set is closed under
/// multiplication, so tensor products of catalog gates stay in it.
#[derive(Clone, Copy, Debug, PartialEq, Eq, Structural)]
pub enum Entry {
    Zero,
    One,
    NegOne,
    I,
    NegI,
}

impl Entry {
    /// The exact value of the entry.
    pub open spec fn value(self) -> Gauss {
        match self {
            Entry::Zero => Gauss { re: 0, im: 0 },
            Entry::One => Gauss { re: 1, im: 0 },
            Entry::NegOne => Gauss { re: -1, im: 0 },
            Entry::I => Gauss { re: 0, im: 1 },
            Entry::NegI => Gauss { re: 0, im: -1 },
        }
    }

    /// The entry whose value is the product of the two values.
    pub open spec fn spec_times(self, other: Entry) -> Entry {
        match (self, other) {
            (Entry::Zero, _) => Entry::Zero,
            (_, Entry::Zero) => Entry::Zero,
            (Entry::One, b) => b,
            (a, Entry::One) => a,
            (Entry::NegOne, Entry::NegOne) => Entry::One,
            (Entry::NegOne, Entry::I) => Entry::NegI,
            (Entry::NegOne, Entry::NegI) => Entry::I,
            (Entry::I, Entry::NegOne) => Entry::NegI,
            (Entry::I, Entry::I) => Entry::NegOne,
            (Entry::I, Entry::NegI) => Entry::One,
            (Entry::NegI, Entry::NegOne) => Entry::I,
            (Entry::NegI, Entry::I) => Entry::One,
            (Entry::NegI, Entry::NegI) => Entry::NegOne,
        }
    }

    /// Multiplies two entries exactly.
    pub fn times(self, other: Entry) -> (r: Entry)
        ensures
            r == self.spec_times(other),
            r.value() == gauss_mul(self.value(), other.value()),
    {
        match (self, other) {
            (Entry::Zero, _) => Entry::Zero,
            (_, Entry::Zero) => Entry::Zero,
            (Entry::One, b) => b,
            (a, Entry::One) => a,
            (Entry::NegOne, Entry::NegOne) => Entry::One,
            (Entry::NegOne, Entry::I) => Entry::NegI,
            (Entry::NegOne, Entry::NegI) => Entry::I,
            (Entry::I, Entry::NegOne) => Entry::NegI,
            (Entry::I, Entry::I) => Entry::NegOne,
            (Entry::I, Entry::NegI) => Entry::One,
            (Entry::NegI, Entry::NegOne) => Entry::I,
            (Entry::NegI, Entry::I) => Entry::One,
            (Entry::NegI, Entry::NegI) => Entry::NegOne,
        }
    }

    /// The real part as a small integer.
    pub fn real_part(self) -> (r: i8)
        ensures
            r as int == self.value().re,
    {
        match self {
            Entry::One => 1,
            Entry::NegOne => -1,
            _ => 0,
        }
    }

    /// The imaginary part as a small integer.
    pub fn imaginary_part(self) -> (r: i8)
        ensures
            r as int == self.value().im,
    {
        match self {
            Entry::I => 1,
            Entry::NegI => -1,
            _ => 0,
        }
    }
}

} // verus!
