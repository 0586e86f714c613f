//! The supported pairing-friendly curves and the sizes of their fields.

use vstd::prelude::*;

verus! {

/// A pairing-friendly curve, named after the field that circuits over it use.
#[derive(Clone, Copy, Debug, PartialEq, Eq, Structural)]
pub enum Curve {
    /// BN254: the second group lies over a quadratic extension.
    Bn128,
    /// BLS12-377: the second group lies over a quadratic extension.
    Bls12_377,
    /// BW6-761: the second group lies over the base field itself.
    Bw6_761,
}

impl Curve {
    /// Bytes of one base-field element.
    pub open spec fn base_size(self) -> nat {
        match self {
            Curve::Bn128 => 32,
            Curve::Bls12_377 => 48,
            Curve::Bw6_761 => 96,
        }
    }

    /// Bytes of one scalar-field element.
    pub open spec fn scalar_size(self) -> nat {
        match self {
            Curve::Bn128 => 32,
            Curve::Bls12_377 => 32,
            Curve::Bw6_761 => 48,
        }
    }

    /// Whether the coordinates of the second group are base-field elements
    /// instead of pairs of them.
    pub open spec fn has_base_field_g2(self) -> bool {
        self == Curve::Bw6_761
    }

    /// Bytes of a point of the first group: two coordinates.
    pub open spec fn g1_size(self) -> nat {
        2 * self.base_size()
    }

    /// Bytes of a point of the second group: two coordinates, each one or two
    /// base-field elements.
    pub open spec fn g2_size(self) -> nat {
        if self.has_base_field_g2() {
            2 * self.base_size()
        } else {
            4 * self.base_size()
        }
    }

    /// Bytes of one base-field element.
    pub fn base_len(self) -> (n: usize)
        ensures
            n == self.base_size(),
    {
        match self {
            Curve::Bn128 => 32,
            Curve::Bls12_377 => 48,
            Curve::Bw6_761 => 96,
        }
    }

    /// Bytes of one scalar-field element.
    pub fn scalar_len(self) -> (n: usize)
        ensures
            n == self.scalar_size(),
    {
        match self {
            Curve::Bn128 => 32,
            Curve::Bls12_377 => 32,
            Curve::Bw6_761 => 48,
        }
    }

    /// Whether the second group lies over the base field itself.
    pub fn g2_over_base_field(self) -> (b: bool)
        ensures
            b == self.has_base_field_g2(),
    {
        match self {
            Curve::Bw6_761 => true,
            _ => false,
        }
    }

    /// Bytes of a point of the first group.
    pub fn g1_len(self) -> (n: usize)
        ensures
            n == self.g1_size(),
    {
        2 * self.base_len()
    }

    /// Bytes of a point of the second group.
    pub fn g2_len(self) -> (n: usize)
        ensures
            n == self.g2_size(),
    {
        if self.g2_over_base_field() {
            2 * self.base_len()
        } else {
            4 * self.base_len()
        }
    }
}

} // verus!
