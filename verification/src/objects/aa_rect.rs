//! Axis-aligned rectangles, one kind for each axis they stand across.
use crate::hits::aabb::AABB;
use crate::hits::hittable::{
    in_interval, make_record, record_at, spec_in_interval, HitRecord, Surface,
};
use crate::scalar::Scalar;
use crate::vec3::{Point3, Vec3};
use vstd::prelude::*;

verus! {

/// Where a ray crosses the plane of a rectangle.
///
/// For a rectangle at `k` on its own axis and a ray `r`: `t` is
/// `(k - r.origin[axis]) / r.direction[axis]`, and `a` and `b` are the
/// coordinates of `r.origin + t * r.direction` on the rectangle's first and
/// second axis.
#[derive(Clone, Copy, Debug, PartialEq, Eq, Structural)]
pub struct PlaneCrossing {
    pub t: Scalar,
    pub a: Scalar,
    pub b: Scalar,
}

/// Whether a coordinate lies within bounds, the bounds included. A NaN lies
/// within no bounds, so a ray that runs in the plane of a rectangle, whose
/// crossing is no point at all, does not hit it.
pub open spec fn is_between(x: Scalar, boundaries: (Scalar, Scalar)) -> bool {
    boundaries.0.le(x) && x.le(boundaries.1)
}

/// Whether a crossing counts: its parameter lies in the interval, which is
/// open at its start and closed at its end, and the point lies within the
/// bounds on both axes.
pub open spec fn is_on_rect(
    crossing: PlaneCrossing,
    a_boundaries: (Scalar, Scalar),
    b_boundaries: (Scalar, Scalar),
    interval: (Scalar, Scalar),
) -> bool {
    &&& spec_in_interval(crossing.t, interval)
    &&& is_between(crossing.a, a_boundaries)
    &&& is_between(crossing.b, b_boundaries)
}

/// What a rectangle with normal `normal` answers to a ray that crosses its
/// plane at `crossing`.
pub open spec fn rect_hit<M>(
    crossing: PlaneCrossing,
    surface: Surface,
    a_boundaries: (Scalar, Scalar),
    b_boundaries: (Scalar, Scalar),
    interval: (Scalar, Scalar),
    normal: Vec3,
    material: M,
) -> Option<HitRecord<M>> {
    if is_on_rect(crossing, a_boundaries, b_boundaries, interval) {
        Some(record_at(crossing.t, surface, normal, material))
    } else {
        None
    }
}

/// The unit vector along an axis.
pub open spec fn unit_axis(axis: usize) -> Vec3 {
    Vec3::spec_zero().with_component(axis, Scalar::one())
}

fn on_rect(
    crossing: PlaneCrossing,
    a_boundaries: (Scalar, Scalar),
    b_boundaries: (Scalar, Scalar),
    interval: (Scalar, Scalar),
) -> (res: bool)
    ensures
        res == is_on_rect(crossing, a_boundaries, b_boundaries, interval),
{
    if !in_interval(crossing.t, interval) {
        return false;
    }
    if !(a_boundaries.0.le(crossing.a) && crossing.a.le(a_boundaries.1)) {
        return false;
    }
    if !(b_boundaries.0.le(crossing.b) && crossing.b.le(b_boundaries.1)) {
        return false;
    }
    true
}

/// A rectangle in a plane of constant `z`.
#[derive(Debug)]
pub struct XYRect<M> {
    pub material: M,
    pub x_boundaries: (Scalar, Scalar),
    pub y_boundaries: (Scalar, Scalar),
    pub k: Scalar,
}

/// A rectangle in a plane of constant `y`.
#[derive(Debug)]
pub struct XZRect<M> {
    pub material: M,
    pub x_boundaries: (Scalar, Scalar),
    pub z_boundaries: (Scalar, Scalar),
    pub k: Scalar,
}

/// A rectangle in a plane of constant `x`.
#[derive(Debug)]
pub struct YZRect<M> {
    pub material: M,
    pub y_boundaries: (Scalar, Scalar),
    pub z_boundaries: (Scalar, Scalar),
    pub k: Scalar,
}

impl<M: Copy> XYRect<M> {
    pub fn new(x: (Scalar, Scalar), y: (Scalar, Scalar), k: Scalar, material: M) -> (res: Self)
        ensures
            res.material == material,
            res.x_boundaries == x,
            res.y_boundaries == y,
            res.k == k,
    {
        Self { material, x_boundaries: x, y_boundaries: y, k }
    }

    /// The rectangle's box. The rectangle has no thickness, so the box reaches
    /// from `below` to `above` on the z axis, which the caller sets a little
    /// under and a little over `k`.
    pub fn bounding_box(&self, below: Scalar, above: Scalar) -> (res: Option<AABB>)
        ensures
            res == Some(
                AABB {
                    minimum: Vec3 { x: self.x_boundaries.0, y: self.y_boundaries.0, z: below },
                    maximum: Vec3 { x: self.x_boundaries.1, y: self.y_boundaries.1, z: above },
                },
            ),
    {
        Some(
            AABB::new(
                Point3::new(self.x_boundaries.0, self.y_boundaries.0, below),
                Point3::new(self.x_boundaries.1, self.y_boundaries.1, above),
            ),
        )
    }

    /// The hit of a ray that crosses the rectangle's plane at `crossing`,
    /// where `crossing.a` is the x and `crossing.b` the y coordinate: none
    /// if the crossing is outside `interval` or outside the rectangle.
    pub fn hit(&self, crossing: PlaneCrossing, surface: Surface, interval: (Scalar, Scalar)) -> (res:
        Option<HitRecord<M>>)
        ensures
            res == rect_hit(
                crossing,
                surface,
                self.x_boundaries,
                self.y_boundaries,
                interval,
                unit_axis(2),
                self.material,
            ),
    {
        if !on_rect(crossing, self.x_boundaries, self.y_boundaries, interval) {
            return None;
        }
        let normal = Vec3::new(Scalar::zero(), Scalar::zero(), Scalar::one());
        Some(make_record(crossing.t, surface, normal, self.material))
    }
}

impl<M: Copy> XZRect<M> {
    pub fn new(x: (Scalar, Scalar), z: (Scalar, Scalar), k: Scalar, material: M) -> (res: Self)
        ensures
            res.material == material,
            res.x_boundaries == x,
            res.z_boundaries == z,
            res.k == k,
    {
        Self { material, x_boundaries: x, z_boundaries: z, k }
    }

    /// The rectangle's box, reaching from `below` to `above` on the y axis.
    pub fn bounding_box(&self, below: Scalar, above: Scalar) -> (res: Option<AABB>)
        ensures
            res == Some(
                AABB {
                    minimum: Vec3 { x: self.x_boundaries.0, y: below, z: self.z_boundaries.0 },
                    maximum: Vec3 { x: self.x_boundaries.1, y: above, z: self.z_boundaries.1 },
                },
            ),
    {
        Some(
            AABB::new(
                Point3::new(self.x_boundaries.0, below, self.z_boundaries.0),
                Point3::new(self.x_boundaries.1, above, self.z_boundaries.1),
            ),
        )
    }

    /// The hit of a ray that crosses the rectangle's plane at `crossing`,
    /// where `crossing.a` is the x and `crossing.b` the z coordinate.
    pub fn hit(&self, crossing: PlaneCrossing, surface: Surface, interval: (Scalar, Scalar)) -> (res:
        Option<HitRecord<M>>)
        ensures
            res == rect_hit(
                crossing,
                surface,
                self.x_boundaries,
                self.z_boundaries,
                interval,
                unit_axis(1),
                self.material,
            ),
    {
        if !on_rect(crossing, self.x_boundaries, self.z_boundaries, interval) {
            return None;
        }
        let normal = Vec3::new(Scalar::zero(), Scalar::one(), Scalar::zero());
        Some(make_record(crossing.t, surface, normal, self.material))
    }
}

impl<M: Copy> YZRect<M> {
    pub fn new(y: (Scalar, Scalar), z: (Scalar, Scalar), k: Scalar, material: M) -> (res: Self)
        ensures
            res.material == material,
            res.y_boundaries == y,
            res.z_boundaries == z,
            res.k == k,
    {
        Self { material, y_boundaries: y, z_boundaries: z, k }
    }

    /// The rectangle's box, reaching from `below` to `above` on the x axis.
    pub fn bounding_box(&self, below: Scalar, above: Scalar) -> (res: Option<AABB>)
        ensures
            res == Some(
                AABB {
                    minimum: Vec3 { x: below, y: self.y_boundaries.0, z: self.z_boundaries.0 },
                    maximum: Vec3 { x: above, y: self.y_boundaries.1, z: self.z_boundaries.1 },
                },
            ),
    {
        Some(
            AABB::new(
                Point3::new(below, self.y_boundaries.0, self.z_boundaries.0),
                Point3::new(above, self.y_boundaries.1, self.z_boundaries.1),
            ),
        )
    }

    /// The hit of a ray that crosses the rectangle's plane at `crossing`,
    /// where `crossing.a` is the y and `crossing.b` the z coordinate.
    pub fn hit(&self, crossing: PlaneCrossing, surface: Surface, interval: (Scalar, Scalar)) -> (res:
        Option<HitRecord<M>>)
        ensures
            res == rect_hit(
                crossing,
                surface,
                self.y_boundaries,
                self.z_boundaries,
                interval,
                unit_axis(0),
                self.material,
            ),
    {
        if !on_rect(crossing, self.y_boundaries, self.z_boundaries, interval) {
            return None;
        }
        let normal = Vec3::new(Scalar::one(), Scalar::zero(), Scalar::zero());
        Some(make_record(crossing.t, surface, normal, self.material))
    }
}

} // verus!
