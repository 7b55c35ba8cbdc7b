//! The glass-like material.
use crate::hits::hittable::HitRecord;
use crate::ray::Ray;
use crate::scalar::{Scalar, ONE_BITS};
use crate::vec3::{Color, Vec3};
use vstd::prelude::*;

verus! {

/// A clear material that bends light, with its index of refraction.
#[derive(Clone, Copy, Debug, PartialEq, Eq, Structural)]
pub struct Dielectric {
    pub refraction_index: Scalar,
}

/// What the geometry of a ray meeting glass comes to.
///
/// With `ratio` the ratio of the refractive indices and `θ` the angle of
/// incidence: `ratio_sin_theta` is `ratio * sin θ`, `reflectance` is Schlick's
/// estimate `r0 + (1 - r0)(1 - cos θ)^5` with `r0 = ((1 - ratio)/(1 + ratio))²`,
/// `draw` is a fresh random number in `[0, 1)`, and `reflected` and
/// `refracted` are the unit direction of the ray, mirrored at the surface
/// and bent through it.
#[derive(Clone, Copy, Debug, PartialEq, Eq, Structural)]
pub struct Bend {
    pub ratio_sin_theta: Scalar,
    pub reflectance: Scalar,
    pub draw: Scalar,
    pub reflected: Vec3,
    pub refracted: Vec3,
}

/// No colour is taken from light that passes glass.
pub open spec fn white() -> Color {
    Vec3 { x: Scalar::one(), y: Scalar::one(), z: Scalar::one() }
}

impl Bend {
    /// Whether the ray cannot pass the surface at all: the sine of the angle
    /// it would leave at exceeds one.
    pub open spec fn cannot_refract(self) -> bool {
        self.ratio_sin_theta.gt(Scalar::one())
    }

    /// Whether the ray is mirrored: it is where it cannot pass, and else
    /// with the probability `reflectance`, decided by the draw.
    pub open spec fn spec_reflects(self) -> bool {
        self.cannot_refract() || self.reflectance.gt(self.draw)
    }

    /// The direction in which the ray goes on.
    pub open spec fn spec_direction(self) -> Vec3 {
        if self.spec_reflects() {
            self.reflected
        } else {
            self.refracted
        }
    }

    #[verifier::when_used_as_spec(spec_reflects)]
    pub fn reflects(self) -> (res: bool)
        ensures
            res == self.spec_reflects(),
    {
        self.ratio_sin_theta.gt(Scalar::one()) || self.reflectance.gt(self.draw)
    }

    #[verifier::when_used_as_spec(spec_direction)]
    pub fn direction(self) -> (res: Vec3)
        ensures
            res == self.spec_direction(),
    {
        if self.reflects() {
            self.reflected
        } else {
            self.refracted
        }
    }
}

impl Dielectric {
    pub fn new(refraction_index: Scalar) -> (res: Self)
        ensures
            res.refraction_index == refraction_index,
    {
        Self { refraction_index }
    }

    /// The ratio of the refractive indices for a ray at a hit: `inverse`,
    /// the caller's `1 / refraction_index`, where the ray enters the
    /// material, and the index itself where it leaves.
    pub fn refraction_ratio<M>(&self, hitrecord: &HitRecord<M>, inverse: Scalar) -> (res: Scalar)
        ensures
            res == (if hitrecord.front_face { inverse } else { self.refraction_index }),
    {
        if hitrecord.front_face {
            inverse
        } else {
            self.refraction_index
        }
    }

    /// Scatters a ray at a hit: always, from the hit point, at the time of
    /// the incoming ray, in the direction [`Bend::spec_direction`], and
    /// without loss of colour.
    pub fn scatter<M>(&self, r_in: Ray, hitrecord: &HitRecord<M>, bend: Bend) -> (res: Option<
        (Ray, Color),
    >)
        ensures
            res == Some(
                (
                    Ray { origin: hitrecord.p, direction: bend.spec_direction(), time: r_in.time },
                    white(),
                ),
            ),
    {
        let direction = bend.direction();
        let one = Scalar::from_bits(ONE_BITS);
        Some((Ray::new(hitrecord.p, direction, r_in.time()), Color::new(one, one, one)))
    }
}

/// Glass that a ray cannot pass mirrors it, whatever the draw; and where it
/// can pass, a draw at or above the reflectance lets it through.
pub proof fn lemma_total_reflection_ignores_draw(bend: Bend, other_draw: Scalar)
    ensures
        bend.cannot_refract() ==> bend.spec_direction() == bend.reflected && (Bend {
            draw: other_draw,
            ..bend
        }).spec_direction() == bend.reflected,
        !bend.cannot_refract() && !bend.reflectance.gt(bend.draw) ==> bend.spec_direction()
            == bend.refracted,
{
}

} // verus!
