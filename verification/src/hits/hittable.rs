//! The record of a ray meeting a surface.
use crate::scalar::Scalar;
use crate::vec3::{Point3, Vec3};
use vstd::prelude::*;

verus! {

/// Where and how a ray met a surface.
///
/// `M` is whatever names the material at that point; the record only carries
/// it.
#[derive(Clone, Debug)]
pub struct HitRecord<M> {
    /// The point that was hit.
    pub p: Point3,
    /// The surface normal there, turned against the ray.
    pub normal: Vec3,
    /// The ray parameter of the hit.
    pub t: Scalar,
    /// Whether the ray came from outside the surface.
    pub front_face: bool,
    /// The texture coordinates of the point.
    pub u: Scalar,
    pub v: Scalar,
    pub material: M,
}

impl<M> HitRecord<M> {
    /// Turns the normal against the ray.
    ///
    /// `direction_dot_normal` is the dot product of the ray's direction with
    /// `outward_normal`. The ray comes from outside exactly if it is negative;
    /// the stored normal is then the outward one, and its opposite otherwise.
    pub fn set_face_normal(&mut self, direction_dot_normal: Scalar, outward_normal: Vec3)
        ensures
            final(self).front_face == direction_dot_normal.lt(Scalar::zero()),
            final(self).normal == (if direction_dot_normal.lt(Scalar::zero()) {
                outward_normal
            } else {
                outward_normal.spec_neg()
            }),
            final(self).p == old(self).p,
            final(self).t == old(self).t,
            final(self).u == old(self).u,
            final(self).v == old(self).v,
            final(self).material == old(self).material,
    {
        self.front_face = direction_dot_normal.lt(Scalar::zero());
        self.normal = if self.front_face {
            outward_normal
        } else {
            outward_normal.neg()
        };
    }
}

/// What is known of the point at which a ray meets a surface.
///
/// `p` is the point, `u` and `v` are its texture coordinates, and
/// `direction_dot_normal` is the dot product of the ray's direction with the
/// surface's outward normal at `p`.
#[derive(Clone, Copy, Debug, PartialEq, Eq, Structural)]
pub struct Surface {
    pub p: Point3,
    pub u: Scalar,
    pub v: Scalar,
    pub direction_dot_normal: Scalar,
}

/// The record of a hit at parameter `t`, on a surface whose outward normal
/// there is `outward_normal`: the normal is turned against the ray.
pub open spec fn record_at<M>(
    t: Scalar,
    surface: Surface,
    outward_normal: Vec3,
    material: M,
) -> HitRecord<M> {
    let front_face = surface.direction_dot_normal.lt(Scalar::zero());
    HitRecord {
        p: surface.p,
        normal: if front_face { outward_normal } else { outward_normal.spec_neg() },
        t,
        front_face,
        u: surface.u,
        v: surface.v,
        material,
    }
}

/// Assembles the record of a hit.
pub fn make_record<M>(t: Scalar, surface: Surface, outward_normal: Vec3, material: M) -> (res: HitRecord<M>)
    ensures
        res == record_at(t, surface, outward_normal, material),
{
    let mut result = HitRecord {
        t,
        p: surface.p,
        normal: outward_normal,
        front_face: true,
        u: surface.u,
        v: surface.v,
        material,
    };
    result.set_face_normal(surface.direction_dot_normal, outward_normal);
    result
}

/// Whether a parameter lies in an interval, which is open at its start and
/// closed at its end: a hit exactly at the start does not count, one exactly
/// at the end does. Nothing lies in an interval with a NaN for an end, and a
/// NaN lies in no interval.
pub open spec fn spec_in_interval(t: Scalar, interval: (Scalar, Scalar)) -> bool {
    interval.0.lt(t) && t.le(interval.1)
}

#[verifier::when_used_as_spec(spec_in_interval)]
pub fn in_interval(t: Scalar, interval: (Scalar, Scalar)) -> (res: bool)
    ensures
        res == spec_in_interval(t, interval),
{
    interval.0.lt(t) && t.le(interval.1)
}

/// The parameter up to which a search still looks once it holds `found`: the
/// parameter of the hit it holds, or the end of the interval it began with.
pub open spec fn limit_after<M>(found: Option<HitRecord<M>>, t_max: Scalar) -> Scalar {
    match found {
        Some(hit) => hit.t,
        None => t_max,
    }
}

/// The later of two answers of a search, where the later was looked for only
/// up to the earlier: the later if it is a hit, else the earlier.
pub open spec fn later_or<M>(later: Option<HitRecord<M>>, earlier: Option<HitRecord<M>>) -> Option<
    HitRecord<M>,
> {
    if later is Some {
        later
    } else {
        earlier
    }
}

} // verus!
