//! The material of a medium that scatters in every direction alike.
use crate::hits::hittable::HitRecord;
use crate::ray::Ray;
use crate::scalar::Scalar;
use crate::textures::solid_color::SolidColor;
use crate::vec3::{Color, Point3, Vec3};
use vstd::prelude::*;

verus! {

pub struct Isotropic<T> {
    pub albedo: T,
}

impl<T> Isotropic<T> {
    pub fn new(a: T) -> (res: Self)
        ensures
            res.albedo == a,
    {
        Self { albedo: a }
    }

    /// Scatters a ray at a hit: always, from the hit point, at the time of
    /// the incoming ray, in `direction`, which the caller draws from the unit
    /// sphere and which is used as it is, and attenuated by the texture's
    /// colour at the hit.
    pub fn scatter<M, F: Fn(&T, (Scalar, Scalar), &Point3) -> Color>(
        &self,
        r_in: Ray,
        hitrecord: &HitRecord<M>,
        direction: Vec3,
        lookup: &F,
    ) -> (res: Option<(Ray, Color)>)
        requires
            call_requires(*lookup, (&self.albedo, (hitrecord.u, hitrecord.v), &hitrecord.p)),
        ensures
            res matches Some((scattered, attenuation)) && scattered == (Ray {
                origin: hitrecord.p,
                direction,
                time: r_in.time,
            }) && call_ensures(
                *lookup,
                (&self.albedo, (hitrecord.u, hitrecord.v), &hitrecord.p),
                attenuation,
            ),
    {
        let scattered = Ray::new(hitrecord.p, direction, r_in.time());
        let attenuation = lookup(&self.albedo, (hitrecord.u, hitrecord.v), &hitrecord.p);
        Some((scattered, attenuation))
    }
}

impl Isotropic<SolidColor> {
    pub fn new_from_color(c: Color) -> (res: Self)
        ensures
            res.albedo.color_value == c,
    {
        Self { albedo: SolidColor::new_from_color(c) }
    }
}

} // verus!
