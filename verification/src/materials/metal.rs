//! The mirror-like material.
use crate::hits::hittable::HitRecord;
use crate::ray::Ray;
use crate::scalar::Scalar;
use crate::vec3::{Color, Vec3};
use vstd::prelude::*;

verus! {

/// A surface that reflects, blurred by `fuzz`, which lies between zero and one.
#[derive(Clone, Copy, Debug, PartialEq, Eq, Structural)]
pub struct Metal {
    pub albedo: Color,
    pub fuzz: Scalar,
}

/// The fuzz a metal is given: the number asked for, held between zero and
/// one. Anything below zero gives zero; anything that is not below one,
/// which a NaN is not, gives one.
pub open spec fn limited_fuzz(fuzz: Scalar) -> Scalar {
    if fuzz.lt(Scalar::zero()) {
        Scalar::zero()
    } else if fuzz.lt(Scalar::one()) {
        fuzz
    } else {
        Scalar::one()
    }
}

impl Metal {
    pub fn new(albedo: Color, fuzz: Scalar) -> (res: Self)
        ensures
            res.albedo == albedo,
            res.fuzz == limited_fuzz(fuzz),
    {
        let fuzz = if fuzz.lt(Scalar::zero()) {
            Scalar::zero()
        } else if fuzz.lt(Scalar::one()) {
            fuzz
        } else {
            Scalar::one()
        };
        Self { albedo, fuzz }
    }

    /// What the metal does with a ray: it scatters it, in the given
    /// direction and attenuated by the albedo, if that direction points away
    /// from the surface, and absorbs it otherwise.
    pub open spec fn spec_scatter<M>(
        self,
        r_in: Ray,
        hitrecord: HitRecord<M>,
        direction: Vec3,
        facing: Scalar,
    ) -> Option<(Ray, Color)> {
        if facing.gt(Scalar::zero()) {
            Some((Ray { origin: hitrecord.p, direction, time: r_in.time }, self.albedo))
        } else {
            None
        }
    }

    /// Scatters a ray at a hit. `direction` is the incoming direction
    /// mirrored at the surface, plus `fuzz` times a random point of the unit
    /// sphere; `facing` is its dot product with the hit's normal.
    pub fn scatter<M>(&self, r_in: Ray, hitrecord: &HitRecord<M>, direction: Vec3, facing: Scalar) -> (res:
        Option<(Ray, Color)>)
        ensures
            res == self.spec_scatter(r_in, *hitrecord, direction, facing),
    {
        let scattered_ray = Ray::new(hitrecord.p, direction, r_in.time());
        let attenuation = self.albedo;
        if facing.gt(Scalar::zero()) {
            Some((scattered_ray, attenuation))
        } else {
            None
        }
    }
}

/// Whatever fuzz is asked for, the fuzz of a metal is a number from zero to
/// one, and is the number asked for if that is one.
pub proof fn lemma_fuzz_is_within_unit(fuzz: Scalar)
    ensures
        Scalar::zero().spec_le(limited_fuzz(fuzz)),
        limited_fuzz(fuzz).spec_le(Scalar::one()),
        Scalar::zero().spec_le(fuzz) && fuzz.spec_le(Scalar::one()) ==> limited_fuzz(fuzz) == fuzz,
{
}

/// A metal absorbs exactly the rays whose outgoing direction does not point
/// away from the surface, and sends the others on in the very direction it
/// was given.
pub proof fn lemma_metal_absorbs_inward<M>(
    metal: Metal,
    r_in: Ray,
    hitrecord: HitRecord<M>,
    direction: Vec3,
    facing: Scalar,
)
    ensures
        metal.spec_scatter(r_in, hitrecord, direction, facing) is None <==> !facing.gt(Scalar::zero()),
        facing.gt(Scalar::zero()) ==> metal.spec_scatter(r_in, hitrecord, direction, facing)
            == Some((Ray { origin: hitrecord.p, direction, time: r_in.time }, metal.albedo)),
        facing.is_negative() || facing.rank() == 0 || facing.is_nan() ==> metal.spec_scatter(
            r_in,
            hitrecord,
            direction,
            facing,
        ) is None,
{
}

} // verus!
