//! The diffuse material.
use crate::hits::hittable::HitRecord;
use crate::ray::Ray;
use crate::scalar::Scalar;
use crate::textures::solid_color::SolidColor;
use crate::vec3::{Color, Point3, Vec3};
use vstd::prelude::*;

verus! {

/// A surface that scatters light evenly, coloured by a texture.
pub struct Lambertian<T> {
    pub albedo: T,
}

/// The direction in which a diffuse surface scatters: `candidate`, the sum
/// of the surface normal and a random unit vector, unless the two nearly
/// cancel; then the normal itself.
pub open spec fn spec_scatter_direction(normal: Vec3, candidate: Vec3) -> Vec3 {
    if candidate.spec_near_zero() {
        normal
    } else {
        candidate
    }
}

#[verifier::when_used_as_spec(spec_scatter_direction)]
pub fn scatter_direction(normal: Vec3, candidate: Vec3) -> (res: Vec3)
    ensures
        res == spec_scatter_direction(normal, candidate),
{
    if candidate.near_zero() {
        normal
    } else {
        candidate
    }
}

impl<T> Lambertian<T> {
    pub fn new_from_texture(albedo: T) -> (res: Self)
        ensures
            res.albedo == albedo,
    {
        Self { albedo }
    }

    /// Scatters a ray at a hit. `candidate` is the sum of the hit's normal
    /// and a random unit vector, and `lookup` gives the colour of the
    /// texture.
    ///
    /// The ray is always scattered. It leaves the hit point at the time of
    /// the incoming ray, in the direction [`spec_scatter_direction`], and is
    /// attenuated by the texture's colour at the hit.
    pub fn scatter<M, F: Fn(&T, (Scalar, Scalar), &Point3) -> Color>(
        &self,
        r_in: Ray,
        hitrecord: &HitRecord<M>,
        candidate: Vec3,
        lookup: &F,
    ) -> (res: Option<(Ray, Color)>)
        requires
            call_requires(*lookup, (&self.albedo, (hitrecord.u, hitrecord.v), &hitrecord.p)),
        ensures
            res matches Some((scattered, attenuation)) && scattered == (Ray {
                origin: hitrecord.p,
                direction: spec_scatter_direction(hitrecord.normal, candidate),
                time: r_in.time,
            }) && call_ensures(
                *lookup,
                (&self.albedo, (hitrecord.u, hitrecord.v), &hitrecord.p),
                attenuation,
            ),
    {
        let direction = scatter_direction(hitrecord.normal, candidate);
        let scattered_ray = Ray::new(hitrecord.p, direction, r_in.time());
        let attenuation = lookup(&self.albedo, (hitrecord.u, hitrecord.v), &hitrecord.p);
        Some((scattered_ray, attenuation))
    }
}

impl Lambertian<SolidColor> {
    /// A diffuse surface of one colour.
    pub fn new(albedo: Color) -> (res: Self)
        ensures
            res.albedo.color_value == albedo,
    {
        Self { albedo: SolidColor::new_from_color(albedo) }
    }
}

/// A diffuse surface whose candidate direction nearly vanishes scatters along
/// its normal, exactly; and one whose candidate does not vanish scatters along
/// the candidate.
pub proof fn lemma_scatter_falls_back_to_normal(normal: Vec3, candidate: Vec3)
    ensures
        candidate.spec_near_zero() ==> spec_scatter_direction(normal, candidate) == normal,
        !candidate.spec_near_zero() ==> spec_scatter_direction(normal, candidate) == candidate,
{
}

} // verus!
