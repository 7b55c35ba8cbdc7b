//! A sphere whose centre moves on a straight line while the shutter is open.
use crate::hits::aabb::{spec_surrounding_box, surrounding_box, AABB};
use crate::hits::hittable::HitRecord;
use crate::objects::sphere::{hit_sphere, sphere_hit_admits, Contact, Roots};
use crate::scalar::Scalar;
use crate::vec3::Point3;
use vstd::prelude::*;

verus! {

/// A sphere that is at `centers.0` at time `time_frame.0` and at `centers.1`
/// at time `time_frame.1`.
#[derive(Debug)]
pub struct MovingSphere<M> {
    pub centers: (Point3, Point3),
    pub time_frame: (Scalar, Scalar),
    pub radius: Scalar,
    pub material: M,
}

impl<M: Copy> MovingSphere<M> {
    pub fn new(
        centers: (Point3, Point3),
        time_frame: (Scalar, Scalar),
        radius: Scalar,
        material: M,
    ) -> (res: Self)
        ensures
            res.centers == centers,
            res.time_frame == time_frame,
            res.radius == radius,
            res.material == material,
    {
        Self { centers, time_frame, radius, material }
    }

    /// The hit of a ray on the sphere within `interval`, from the roots of the
    /// quadratic that the ray sets up with the sphere where it is at the
    /// ray's time.
    pub fn hit<S: Fn(Scalar) -> Contact>(
        &self,
        roots: Roots,
        interval: (Scalar, Scalar),
        contact: &S,
    ) -> (res: Option<HitRecord<M>>)
        requires
            forall|t: Scalar| call_requires(*contact, (t,)),
        ensures
            sphere_hit_admits(roots, interval, *contact, self.material, res),
    {
        hit_sphere(roots, interval, contact, self.material)
    }

    /// The sphere's box over a time interval, from its box at the start and
    /// its box at the end: the box around the two. Where the centre does not
    /// move on a straight line this is not the box of the swept volume.
    pub fn bounding_box(&self, box0: AABB, box1: AABB) -> (res: Option<AABB>)
        ensures
            res == Some(spec_surrounding_box(box0, box1)),
    {
        Some(surrounding_box(box0, box1))
    }
}

} // verus!
