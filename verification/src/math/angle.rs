//! Fixed-point angles.

use vstd::prelude::*;

verus! {

/// An angle in [-180°, 180°) held as a signed 32-bit fraction of a half turn:
/// `i32::MAX` stands for 180°. Equality, ordering and hashing are those of
/// the bit pattern, which is also the stored form.
#[derive(Clone, Copy, Debug, PartialEq, Eq, Hash, PartialOrd, Ord, Structural)]
pub struct Angle(pub i32);

impl Angle {
    /// The angle with the given bit pattern.
    pub fn from_bits(i: i32) -> (a: Angle)
        ensures
            a.0 == i,
    {
        Angle(i)
    }

    /// The bit pattern of the angle.
    pub fn to_bits(self) -> (i: i32)
        ensures
            i == self.0,
    {
        self.0
    }
}

impl core::ops::Add for Angle {
    type Output = Angle;

    /// Modular sum of the bit patterns, which wraps around the circle.
    fn add(self, rhs: Angle) -> (sum: Angle) {
        Angle(self.0.wrapping_add(rhs.0))
    }
}

impl vstd::std_specs::ops::AddSpecImpl for Angle {
    open spec fn obeys_add_spec() -> bool {
        true
    }

    open spec fn add_req(self, rhs: Angle) -> bool {
        true
    }

    open spec fn add_spec(self, rhs: Angle) -> Angle {
        Angle(self.0.wrapping_add(rhs.0))
    }
}

impl core::ops::Sub for Angle {
    type Output = Angle;

    /// Modular difference of the bit patterns.
    fn sub(self, rhs: Angle) -> (diff: Angle) {
        Angle(self.0.wrapping_sub(rhs.0))
    }
}

impl vstd::std_specs::ops::SubSpecImpl for Angle {
    open spec fn obeys_sub_spec() -> bool {
        true
    }

    open spec fn sub_req(self, rhs: Angle) -> bool {
        true
    }

    open spec fn sub_spec(self, rhs: Angle) -> Angle {
        Angle(self.0.wrapping_sub(rhs.0))
    }
}

} // verus!
