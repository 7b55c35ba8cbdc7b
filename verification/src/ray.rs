//! Rays: a start, a direction and the moment of the shutter interval at which
//! the ray is cast.
use crate::scalar::Scalar;
use crate::vec3::{Point3, Vec3};
use vstd::prelude::*;

verus! {

/// A ray. The direction need not have unit length.
#[derive(Clone, Copy, Debug, PartialEq, Eq, Structural)]
pub struct Ray {
    pub origin: Point3,
    pub direction: Vec3,
    pub time: Scalar,
}

impl Ray {
    pub fn new(origin: Vec3, direction: Vec3, time: Scalar) -> (res: Ray)
        ensures
            res == (Ray { origin, direction, time }),
    {
        Self { origin, direction, time }
    }

    pub fn origin(&self) -> (res: Point3)
        ensures
            res == self.origin,
    {
        self.origin
    }

    pub fn direction(&self) -> (res: Vec3)
        ensures
            res == self.direction,
    {
        self.direction
    }

    pub fn time(&self) -> (res: Scalar)
        ensures
            res == self.time,
    {
        self.time
    }
}

impl Default for Ray {
    fn default() -> (res: Self)
        ensures
            res == (Ray { origin: Vec3::spec_zero(), direction: Vec3::spec_zero(), time: Scalar::zero() }),
    {
        Ray { origin: Vec3::default(), direction: Vec3::default(), time: Scalar::zero() }
    }
}

} // verus!
