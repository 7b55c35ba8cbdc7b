//! Three-component vectors of [`Scalar`]s: positions, directions and colours.
use crate::scalar::Scalar;
use vstd::prelude::*;

verus! {

/// The pattern of `1e-8`, the bound under which a component counts as zero.
pub const NEAR_ZERO_BITS: u64 = 0x3E45_798E_E230_8C3A;

/// A vector of three numbers.
#[derive(Clone, Copy, Debug, PartialEq, Eq, Structural)]
pub struct Vec3 {
    pub x: Scalar,
    pub y: Scalar,
    pub z: Scalar,
}

pub type Color = Vec3;

pub type Point3 = Vec3;

impl Vec3 {
    /// The vector whose components are all `+0.0`; as a colour, black.
    pub open spec fn spec_zero() -> Vec3 {
        Vec3 { x: Scalar::zero(), y: Scalar::zero(), z: Scalar::zero() }
    }

    /// The component on axis 0, 1 or 2; any larger index reads `z`.
    pub open spec fn spec_index(&self, index: usize) -> Scalar {
        if index == 0 {
            self.x
        } else if index == 1 {
            self.y
        } else {
            self.z
        }
    }

    /// The vector with the component on axis `index` replaced.
    pub open spec fn with_component(self, index: usize, value: Scalar) -> Vec3 {
        if index == 0 {
            Vec3 { x: value, ..self }
        } else if index == 1 {
            Vec3 { y: value, ..self }
        } else {
            Vec3 { z: value, ..self }
        }
    }

    /// The vector pointing the other way.
    pub open spec fn spec_neg(self) -> Vec3 {
        Vec3 { x: self.x.neg(), y: self.y.neg(), z: self.z.neg() }
    }

    /// Whether no component is a NaN.
    pub open spec fn is_numeric(self) -> bool {
        !self.x.is_nan() && !self.y.is_nan() && !self.z.is_nan()
    }

    /// Whether every component is smaller than `1e-8` in absolute value.
    pub open spec fn spec_near_zero(&self) -> bool {
        let s = Scalar { bits: NEAR_ZERO_BITS };
        self.x.abs().lt(s) && self.y.abs().lt(s) && self.z.abs().lt(s)
    }

    pub fn new(x: Scalar, y: Scalar, z: Scalar) -> (res: Self)
        ensures
            res == (Vec3 { x, y, z }),
    {
        Self { x, y, z }
    }

    pub fn x(&self) -> (res: Scalar)
        ensures
            res == self.x,
    {
        self.x
    }

    pub fn y(&self) -> (res: Scalar)
        ensures
            res == self.y,
    {
        self.y
    }

    pub fn z(&self) -> (res: Scalar)
        ensures
            res == self.z,
    {
        self.z
    }

    /// Whether the vector is too short to serve as a direction.
    #[verifier::when_used_as_spec(spec_near_zero)]
    pub fn near_zero(&self) -> (res: bool)
        ensures
            res == self.spec_near_zero(),
    {
        let s = Scalar::from_bits(NEAR_ZERO_BITS);
        self.x.abs().lt(s) && self.y.abs().lt(s) && self.z.abs().lt(s)
    }

    /// The vector pointing the other way: each component with its sign flipped.
    #[verifier::when_used_as_spec(spec_neg)]
    pub fn neg(self) -> (res: Vec3)
        ensures
            res == self.spec_neg(),
    {
        Vec3 { x: self.x.neg(), y: self.y.neg(), z: self.z.neg() }
    }

    /// The component on an axis, for code that walks the axes by number.
    #[verifier::when_used_as_spec(spec_index)]
    pub fn index(&self, index: usize) -> (res: Scalar)
        ensures
            res == self.spec_index(index),
    {
        if index == 0 {
            self.x
        } else if index == 1 {
            self.y
        } else {
            self.z
        }
    }

    /// A handle on the component on an axis, through which it can be replaced.
    pub fn index_mut(&mut self, index: usize) -> (res: &mut Scalar)
        ensures
            *res == old(self).spec_index(index),
            *final(self) == old(self).with_component(index, *final(res)),
    {
        if index == 0 {
            &mut self.x
        } else if index == 1 {
            &mut self.y
        } else {
            &mut self.z
        }
    }
}

impl Default for Vec3 {
    fn default() -> (res: Self)
        ensures
            res == Vec3::spec_zero(),
    {
        Vec3 { x: Scalar::zero(), y: Scalar::zero(), z: Scalar::zero() }
    }
}

} // verus!
