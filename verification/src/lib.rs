//! The deciding half of a path tracer.
//!
//! A path tracer follows rays of light backwards from the eye into a scene.
//! Half of that work is arithmetic on rounded numbers: where a ray meets a
//! sphere, in which direction it is mirrored. The other half is decisions:
//! which of two roots counts, whether a ray passes a box, which hit is the
//! nearest, in what order a tree of boxes is searched and built, when a path
//! ends and what it is worth then. This library is that second half. Numbers
//! are carried as bit patterns ([`scalar::Scalar`]), every comparison on them
//! is made here, and whatever has to be computed with rounding is handed in
//! by the caller, as a value or as a function to call.
pub mod bvh_tree;
pub mod frame;
pub mod hits;
pub mod materials;
pub mod objects;
pub mod permutation;
pub mod random;
pub mod ray;
pub mod scalar;
pub mod textures;
pub mod vec3;

use crate::hits::hittable::HitRecord;
use crate::ray::Ray;
use crate::scalar::{
    lemma_byte_is_positive_from_least_visible, Scalar, INFINITY_BITS, LEAST_VISIBLE_BITS,
};
use crate::vec3::{Color, Vec3};
use vstd::prelude::*;

verus! {

/// The pattern of `0.001`: a hit nearer to a ray's start than this is taken
/// for the surface the ray has just left, and is not seen.
pub const NEAREST_HIT_BITS: u64 = 0x3F50_624D_D2F1_A9FC;

/// The pattern of `0.999`, the brightest a channel can be before it is
/// scaled to a byte.
pub const BRIGHTEST_BITS: u64 = 0x3FEF_F7CE_D916_872B;

/// `x` held within a range: the lower end if `x` is below it, the upper end
/// if `x` is above it, and `x` itself otherwise. A NaN is neither below nor
/// above and is returned as it is.
pub open spec fn spec_clamp(x: Scalar, range: (Scalar, Scalar)) -> Scalar {
    if x.lt(range.0) {
        range.0
    } else if x.gt(range.1) {
        range.1
    } else {
        x
    }
}

#[verifier::when_used_as_spec(spec_clamp)]
pub fn clamp(x: Scalar, range: (Scalar, Scalar)) -> (res: Scalar)
    ensures
        res == spec_clamp(x, range),
{
    let (min, max) = range;
    if x.lt(min) {
        return min;
    }
    if x.gt(max) {
        return max;
    }
    x
}

/// The range of brightness that is scaled to a byte.
pub open spec fn visible_range() -> (Scalar, Scalar) {
    (Scalar::zero(), Scalar { bits: BRIGHTEST_BITS })
}

/// The three bytes that one pixel of colour `color` is written as, for red,
/// green and blue: each channel is held within [`visible_range`] and scaled
/// to a byte.
pub open spec fn written(color: Color) -> Seq<u8> {
    seq![
        spec_clamp(color.x, visible_range()).spec_to_byte(),
        spec_clamp(color.y, visible_range()).spec_to_byte(),
        spec_clamp(color.z, visible_range()).spec_to_byte(),
    ]
}

/// A channel is written as a byte other than 0 exactly if it is at least
/// `1/256`: what is brighter than that shows, and black stays black.
pub proof fn lemma_channel_shows_from_least_visible(x: Scalar)
    ensures
        spec_clamp(x, visible_range()).spec_to_byte() > 0 <==> (Scalar {
            bits: LEAST_VISIBLE_BITS,
        }).spec_le(x),
        spec_clamp(Scalar::zero(), visible_range()).spec_to_byte() == 0,
{
    lemma_byte_is_positive_from_least_visible(spec_clamp(x, visible_range()));
    lemma_byte_is_positive_from_least_visible(spec_clamp(Scalar::zero(), visible_range()));
}

/// Appends one pixel to an image. `color` is the pixel's colour after
/// averaging and gamma correction.
pub fn write_color(list: &mut Vec<u8>, color: Color)
    ensures
        final(list)@ == old(list)@ + written(color),
{
    let range = (Scalar::zero(), Scalar::from_bits(BRIGHTEST_BITS));
    let red = clamp(color.x(), range).to_byte();
    let green = clamp(color.y(), range).to_byte();
    let blue = clamp(color.z(), range).to_byte();
    list.push(red);
    list.push(green);
    list.push(blue);
    proof {
        assert(final(list)@ =~= old(list)@ + written(color));
    }
}

/// What a surface does with a ray that hits it: the light it gives off, and
/// the ray it sends on with the share of colour that the ray keeps, if it
/// sends one on.
pub struct Shading {
    pub emitted: Color,
    pub scattered: Option<(Ray, Color)>,
}

/// The part of a ray on which hits are looked for.
pub open spec fn visible_interval() -> (Scalar, Scalar) {
    (Scalar { bits: NEAREST_HIT_BITS }, Scalar::infinity())
}

/// Whether a path can have taken this step and be worth `res`: the scene
/// answered `hit` to the ray, the surface `shading`, and the rest of the
/// path was worth `incoming`.
///
/// A ray that hits nothing is worth the background. A ray that is absorbed
/// is worth what the surface gives off. A ray that is sent on is worth what
/// `blend` makes of the light given off, the share kept, and the worth of
/// the ray sent on.
pub open spec fn is_step<
    M,
    W: Fn(&Ray, (Scalar, Scalar)) -> Option<HitRecord<M>>,
    S: Fn(&Ray, &HitRecord<M>) -> Shading,
    C: Fn(Color, Color, Color) -> Color,
>(
    r: Ray,
    background: Color,
    world: W,
    shade: S,
    blend: C,
    res: Color,
    hit: Option<HitRecord<M>>,
    shading: Shading,
    incoming: Color,
) -> bool {
    &&& call_ensures(world, (&r, visible_interval()), hit)
    &&& match hit {
        None => res == background,
        Some(hitrecord) => {
            &&& call_ensures(shade, (&r, &hitrecord), shading)
            &&& match shading.scattered {
                None => res == shading.emitted,
                Some((scattered, attenuation)) => call_ensures(
                    blend,
                    (shading.emitted, attenuation, incoming),
                    res,
                ),
            }
        },
    }
}

/// The ray that a step sends on, if it sends one on.
pub open spec fn next_ray<M>(hit: Option<HitRecord<M>>, shading: Shading) -> Option<Ray> {
    match (hit, shading.scattered) {
        (Some(_), Some((scattered, _))) => Some(scattered),
        _ => None,
    }
}

/// Whether `res` can be what [`ray_color`] returns: black where no step is
/// left, and else the worth of some step, where the ray that the step sends
/// on is worth what it can be with one step less to go.
pub open spec fn ray_color_admits<
    M,
    W: Fn(&Ray, (Scalar, Scalar)) -> Option<HitRecord<M>>,
    S: Fn(&Ray, &HitRecord<M>) -> Shading,
    C: Fn(Color, Color, Color) -> Color,
>(r: Ray, background: Color, world: W, shade: S, blend: C, depth: u32, res: Color) -> bool
    decreases depth,
{
    if depth == 0 {
        res == Vec3::spec_zero()
    } else {
        exists|hit: Option<HitRecord<M>>, shading: Shading, incoming: Color|
            {
                &&& #[trigger] is_step(r, background, world, shade, blend, res, hit, shading, incoming)
                &&& next_ray(hit, shading) matches Some(scattered) ==> ray_color_admits(
                    scattered,
                    background,
                    world,
                    shade,
                    blend,
                    (depth - 1) as u32,
                    incoming,
                )
            }
    }
}

/// The light that comes back along a ray, followed for at most `depth`
/// steps.
///
/// `world` finds the nearest hit of a ray in the scene within an interval,
/// `shade` asks the material at a hit what it gives off and where it sends
/// the ray, and `blend` computes `emitted + attenuation * incoming`.
pub fn ray_color<
    M,
    W: Fn(&Ray, (Scalar, Scalar)) -> Option<HitRecord<M>>,
    S: Fn(&Ray, &HitRecord<M>) -> Shading,
    C: Fn(Color, Color, Color) -> Color,
>(r: Ray, background: &Color, world: &W, shade: &S, blend: &C, depth: u32) -> (res: Color)
    requires
        forall|ray: &Ray, interval: (Scalar, Scalar)| call_requires(*world, (ray, interval)),
        forall|ray: &Ray, hit: &HitRecord<M>| call_requires(*shade, (ray, hit)),
        forall|a: Color, b: Color, c: Color| call_requires(*blend, (a, b, c)),
    ensures
        ray_color_admits(r, *background, *world, *shade, *blend, depth, res),
        depth == 0 ==> res == Vec3::spec_zero(),
    decreases depth,
{
    if depth == 0 {
        return Color::default();
    }
    let ghost black = Vec3::spec_zero();
    let hit = world(&r, (Scalar::from_bits(NEAREST_HIT_BITS), Scalar::from_bits(INFINITY_BITS)));
    match hit {
        None => {
            proof {
                let nothing = Shading { emitted: black, scattered: None };
                assert(is_step(
                    r,
                    *background,
                    *world,
                    *shade,
                    *blend,
                    *background,
                    hit,
                    nothing,
                    black,
                ));
            }
            *background
        },
        Some(hitrecord) => {
            let shading = shade(&r, &hitrecord);
            match shading.scattered {
                None => {
                    proof {
                        assert(is_step(
                            r,
                            *background,
                            *world,
                            *shade,
                            *blend,
                            shading.emitted,
                            hit,
                            shading,
                            black,
                        ));
                    }
                    shading.emitted
                },
                Some((scattered, attenuation)) => {
                    let incoming = ray_color(scattered, background, world, shade, blend, depth - 1);
                    let res = blend(shading.emitted, attenuation, incoming);
                    proof {
                        assert(is_step(
                            r,
                            *background,
                            *world,
                            *shade,
                            *blend,
                            res,
                            hit,
                            shading,
                            incoming,
                        ));
                    }
                    res
                },
            }
        },
    }
}

/// A ray that may take no step is worth black, whatever the scene.
pub proof fn lemma_no_depth_is_black<
    M,
    W: Fn(&Ray, (Scalar, Scalar)) -> Option<HitRecord<M>>,
    S: Fn(&Ray, &HitRecord<M>) -> Shading,
    C: Fn(Color, Color, Color) -> Color,
>(r: Ray, background: Color, world: W, shade: S, blend: C, res: Color)
    requires
        ray_color_admits(r, background, world, shade, blend, 0, res),
    ensures
        res == Vec3::spec_zero(),
{
}

/// A ray that hits a surface which only gives off light is worth exactly
/// that light, however many steps it might have taken.
pub proof fn lemma_emitter_returns_emission<
    M,
    W: Fn(&Ray, (Scalar, Scalar)) -> Option<HitRecord<M>>,
    S: Fn(&Ray, &HitRecord<M>) -> Shading,
    C: Fn(Color, Color, Color) -> Color,
>(r: Ray, background: Color, world: W, shade: S, blend: C, depth: u32, emission: Color, res: Color)
    requires
        depth > 0,
        ray_color_admits(r, background, world, shade, blend, depth, res),
        forall|hit: Option<HitRecord<M>>|
            call_ensures(world, (&r, visible_interval()), hit) ==> hit is Some,
        forall|hit: HitRecord<M>, shading: Shading| #[trigger]
            call_ensures(shade, (&r, &hit), shading) ==> shading.scattered is None
                && shading.emitted == emission,
    ensures
        res == emission,
{
    let (hit, shading, incoming) = choose|
        hit: Option<HitRecord<M>>,
        shading: Shading,
        incoming: Color,
    |
        {
            &&& #[trigger] is_step(r, background, world, shade, blend, res, hit, shading, incoming)
            &&& next_ray(hit, shading) matches Some(scattered) ==> ray_color_admits(
                scattered,
                background,
                world,
                shade,
                blend,
                (depth - 1) as u32,
                incoming,
            )
        };
    assert(call_ensures(shade, (&r, &hit->0), shading));
}

/// A ray that hits nothing is worth the background, however many steps it
/// might have taken.
pub proof fn lemma_miss_returns_background<
    M,
    W: Fn(&Ray, (Scalar, Scalar)) -> Option<HitRecord<M>>,
    S: Fn(&Ray, &HitRecord<M>) -> Shading,
    C: Fn(Color, Color, Color) -> Color,
>(r: Ray, background: Color, world: W, shade: S, blend: C, depth: u32, res: Color)
    requires
        depth > 0,
        ray_color_admits(r, background, world, shade, blend, depth, res),
        forall|hit: Option<HitRecord<M>>|
            call_ensures(world, (&r, visible_interval()), hit) ==> hit is None,
    ensures
        res == background,
{
}

} // verus!
