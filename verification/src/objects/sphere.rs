//! Spheres, and the choice between the two points at which a ray crosses one.
use crate::hits::hittable::{
    in_interval, make_record, record_at, spec_in_interval, HitRecord, Surface,
};
use crate::scalar::Scalar;
use crate::vec3::{Point3, Vec3};
use vstd::prelude::*;

verus! {

/// The solution of the quadratic that a ray and a sphere set up.
///
/// With `oc = r.origin - center`, `a = |r.direction|²`,
/// `half_b = oc · r.direction` and `c = |oc|² - radius²`: `discriminant` is
/// `half_b² - a·c`, and `near` and `far` are `(-half_b ∓ √discriminant) / a`.
/// Where the discriminant is negative the two roots are not read.
#[derive(Clone, Copy, Debug, PartialEq, Eq, Structural)]
pub struct Roots {
    pub discriminant: Scalar,
    pub near: Scalar,
    pub far: Scalar,
}

/// A point of a sphere at which a ray crosses it, with the outward normal
/// there.
#[derive(Clone, Copy, Debug, PartialEq, Eq, Structural)]
pub struct Contact {
    pub surface: Surface,
    pub outward_normal: Vec3,
}

/// The parameter at which a sphere is hit: none if the ray passes it by; else
/// the near root if it lies in the interval, else the far root if that lies
/// in the interval, else none.
pub open spec fn spec_nearest_root(roots: Roots, interval: (Scalar, Scalar)) -> Option<Scalar> {
    if roots.discriminant.lt(Scalar::zero()) {
        None
    } else if spec_in_interval(roots.near, interval) {
        Some(roots.near)
    } else if spec_in_interval(roots.far, interval) {
        Some(roots.far)
    } else {
        None
    }
}

#[verifier::when_used_as_spec(spec_nearest_root)]
pub fn nearest_root(roots: Roots, interval: (Scalar, Scalar)) -> (res: Option<Scalar>)
    ensures
        res == spec_nearest_root(roots, interval),
{
    if roots.discriminant.lt(Scalar::zero()) {
        return None;
    }
    let mut root = roots.near;
    if !in_interval(root, interval) {
        root = roots.far;
        if !in_interval(root, interval) {
            return None;
        }
    }
    Some(root)
}

/// The first root past the start of an interval, whatever its end: the
/// parameter at which the sphere is met by a ray that is not cut short.
pub open spec fn first_root_after(roots: Roots, t_min: Scalar) -> Option<Scalar> {
    spec_nearest_root(roots, (t_min, Scalar::infinity()))
}

/// A sphere reports its first crossing past the start of the interval, if
/// that lies at or before the end, and nothing otherwise: cutting the
/// interval short never brings a later crossing forward. This holds where the
/// far root is not before the near one and the end is not a NaN.
pub proof fn lemma_nearest_root_is_first_or_none(roots: Roots, interval: (Scalar, Scalar))
    requires
        !roots.far.lt(roots.near),
        !interval.1.spec_is_nan(),
    ensures
        spec_nearest_root(roots, interval) == (match first_root_after(roots, interval.0) {
            Some(t) => if t.le(interval.1) { Some(t) } else { None },
            None => None,
        }),
{
}

/// Whether `res` can be the answer of a sphere of the given material to a ray
/// with these roots: no hit where no root lies in the interval, else the record of
/// the contact that `contact` gives for the chosen root.
pub open spec fn sphere_hit_admits<M, S: Fn(Scalar) -> Contact>(
    roots: Roots,
    interval: (Scalar, Scalar),
    contact: S,
    material: M,
    res: Option<HitRecord<M>>,
) -> bool {
    match spec_nearest_root(roots, interval) {
        None => res is None,
        Some(t) => exists|c: Contact|
            #![trigger call_ensures(contact, (t,), c)]
            call_ensures(contact, (t,), c) && res == Some(
                record_at(t, c.surface, c.outward_normal, material),
            ),
    }
}

/// The common part of the two kinds of sphere.
pub fn hit_sphere<M, S: Fn(Scalar) -> Contact>(
    roots: Roots,
    interval: (Scalar, Scalar),
    contact: &S,
    material: M,
) -> (res: Option<HitRecord<M>>)
    requires
        forall|t: Scalar| call_requires(*contact, (t,)),
    ensures
        sphere_hit_admits(roots, interval, *contact, material, res),
{
    match nearest_root(roots, interval) {
        None => None,
        Some(t) => {
            let c = contact(t);
            Some(make_record(t, c.surface, c.outward_normal, material))
        },
    }
}

/// A sphere at rest.
#[derive(Debug)]
pub struct Sphere<M> {
    pub center: Point3,
    pub radius: Scalar,
    pub material: M,
}

impl<M: Copy> Sphere<M> {
    pub fn new(center: Point3, radius: Scalar, material: M) -> (res: Self)
        ensures
            res.center == center,
            res.radius == radius,
            res.material == material,
    {
        Self { center, radius, material }
    }

    /// The hit of a ray on the sphere within `interval`, from the roots of the
    /// ray's quadratic. `contact` gives the point of the sphere at a
    /// parameter of the ray.
    pub fn hit<S: Fn(Scalar) -> Contact>(
        &self,
        roots: Roots,
        interval: (Scalar, Scalar),
        contact: &S,
    ) -> (res: Option<HitRecord<M>>)
        requires
            forall|t: Scalar| call_requires(*contact, (t,)),
        ensures
            sphere_hit_admits(roots, interval, *contact, self.material, res),
    {
        hit_sphere(roots, interval, contact, self.material)
    }
}

} // verus!
