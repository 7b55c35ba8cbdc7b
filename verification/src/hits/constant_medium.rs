//! A medium of constant density, such as smoke, inside a boundary.
use crate::hits::hittable::HitRecord;
use crate::ray::Ray;
use crate::scalar::Scalar;
use crate::vec3::{Point3, Vec3};
use vstd::prelude::*;

verus! {

/// A medium in which a ray is scattered after a free path of random length.
///
/// The boundary is the caller's; the medium knows the material that scatters
/// and `-1 / density`.
#[derive(Debug)]
pub struct ConstantMedium<M> {
    pub phase_function: M,
    pub neg_inv_density: Scalar,
}

/// How far a ray gets inside the medium.
///
/// For a ray `r` that is inside the boundary from parameter `entry` to `exit`:
/// `distance_inside_boundary` is `(exit - entry) * |r.direction|`,
/// `hit_distance` is `neg_inv_density * ln(x)` for a fresh random `x` in
/// `[0, 1)`, `t` is `entry + hit_distance / |r.direction|` and `p` is the
/// point of the ray at `t`.
#[derive(Clone, Copy, Debug, PartialEq, Eq, Structural)]
pub struct FreePath {
    pub hit_distance: Scalar,
    pub distance_inside_boundary: Scalar,
    pub t: Scalar,
    pub p: Point3,
}

/// The part of `interval` in which the ray is inside the boundary, given the
/// parameters at which it enters and leaves: the two are moved into the
/// interval; unless the first then lies before the last there is none; and a
/// part that begins behind the ray's origin begins at the origin instead.
pub open spec fn spec_span_inside(entry: Scalar, exit: Scalar, interval: (Scalar, Scalar)) -> Option<
    (Scalar, Scalar),
> {
    let first = if entry.lt(interval.0) { interval.0 } else { entry };
    let last = if exit.gt(interval.1) { interval.1 } else { exit };
    if first.lt(last) {
        Some((if first.lt(Scalar::zero()) { Scalar::zero() } else { first }, last))
    } else {
        None
    }
}

#[verifier::when_used_as_spec(spec_span_inside)]
pub fn span_inside(entry: Scalar, exit: Scalar, interval: (Scalar, Scalar)) -> (res: Option<
    (Scalar, Scalar),
>)
    ensures
        res == spec_span_inside(entry, exit, interval),
{
    let (t_min, t_max) = interval;
    let mut first = entry;
    let mut last = exit;
    if first.lt(t_min) {
        first = t_min;
    }
    if last.gt(t_max) {
        last = t_max;
    }
    if !first.lt(last) {
        return None;
    }
    if first.lt(Scalar::zero()) {
        first = Scalar::zero();
    }
    Some((first, last))
}

/// What the medium answers once the ray's free path is known: no hit if the
/// free path is longer than the way through the medium, else a hit at the end
/// of the free path. Scattering in the medium has no preferred direction, so
/// the normal is arbitrary: it is the x axis, seen from the front.
pub open spec fn scattering<M>(path: FreePath, material: M) -> Option<HitRecord<M>> {
    if path.hit_distance.gt(path.distance_inside_boundary) {
        None
    } else {
        Some(
            HitRecord {
                t: path.t,
                p: path.p,
                normal: Vec3 { x: Scalar::one(), y: Scalar::zero(), z: Scalar::zero() },
                front_face: true,
                material,
                u: Scalar::zero(),
                v: Scalar::zero(),
            },
        )
    }
}

impl<M: Copy> ConstantMedium<M> {
    /// A medium with the negated inverse of its density and the material
    /// that scatters in it.
    pub fn new(neg_inv_density: Scalar, a: M) -> (res: Self)
        ensures
            res.neg_inv_density == neg_inv_density,
            res.phase_function == a,
    {
        Self { neg_inv_density, phase_function: a }
    }

    /// Whether a search of the medium can have gone this way and ended in
    /// `res`.
    ///
    /// The boundary is asked where the ray enters it, over all parameters,
    /// and then where it leaves, from `resume` on, a parameter just past the
    /// entry. If either is missing, or no part of `interval` lies between
    /// them (see [`spec_span_inside`]), there is no hit. Otherwise the free
    /// path is drawn for that part, and the answer is [`scattering`] of it.
    pub open spec fn is_course<
        B: Fn(&Ray, (Scalar, Scalar)) -> Option<Scalar>,
        N: Fn(Scalar) -> Scalar,
        F: Fn(&Ray, (Scalar, Scalar)) -> FreePath,
    >(
        self,
        r: Ray,
        interval: (Scalar, Scalar),
        boundary: B,
        just_past: N,
        free_path: F,
        res: Option<HitRecord<M>>,
        entry: Option<Scalar>,
        resume: Scalar,
        exit: Option<Scalar>,
        path: FreePath,
    ) -> bool {
        &&& call_ensures(boundary, (&r, (Scalar::neg_infinity(), Scalar::infinity())), entry)
        &&& entry is None ==> res is None
        &&& entry is Some ==> {
            &&& call_ensures(just_past, (entry->0,), resume)
            &&& call_ensures(boundary, (&r, (resume, Scalar::infinity())), exit)
            &&& exit is None ==> res is None
            &&& exit is Some ==> match spec_span_inside(entry->0, exit->0, interval) {
                None => res is None,
                Some(span) => call_ensures(free_path, (&r, span), path) && res == scattering(
                    path,
                    self.phase_function,
                ),
            }
        }
    }

    /// Whether `res` can be what [`ConstantMedium::hit`] returns: whether
    /// some course of the search ends in it.
    pub open spec fn hit_admits<
        B: Fn(&Ray, (Scalar, Scalar)) -> Option<Scalar>,
        N: Fn(Scalar) -> Scalar,
        F: Fn(&Ray, (Scalar, Scalar)) -> FreePath,
    >(
        self,
        r: Ray,
        interval: (Scalar, Scalar),
        boundary: B,
        just_past: N,
        free_path: F,
        res: Option<HitRecord<M>>,
    ) -> bool {
        exists|entry: Option<Scalar>, resume: Scalar, exit: Option<Scalar>, path: FreePath|
            #[trigger] self.is_course(
                r,
                interval,
                boundary,
                just_past,
                free_path,
                res,
                entry,
                resume,
                exit,
                path,
            )
    }

    /// The hit of a ray in the medium within `interval`.
    ///
    /// `boundary` gives the parameter at which the ray crosses the boundary
    /// within an interval, `just_past` a parameter a little after a given
    /// one, and `free_path` draws the ray's free path for the part of the ray
    /// that lies inside.
    pub fn hit<
        B: Fn(&Ray, (Scalar, Scalar)) -> Option<Scalar>,
        N: Fn(Scalar) -> Scalar,
        F: Fn(&Ray, (Scalar, Scalar)) -> FreePath,
    >(
        &self,
        r: &Ray,
        interval: (Scalar, Scalar),
        boundary: &B,
        just_past: &N,
        free_path: &F,
    ) -> (res: Option<HitRecord<M>>)
        requires
            forall|iv: (Scalar, Scalar)| call_requires(*boundary, (r, iv)),
            forall|t: Scalar| call_requires(*just_past, (t,)),
            forall|span: (Scalar, Scalar)| call_requires(*free_path, (r, span)),
        ensures
            self.hit_admits(*r, interval, *boundary, *just_past, *free_path, res),
    {
        let ghost any_path = FreePath {
            hit_distance: Scalar::zero(),
            distance_inside_boundary: Scalar::zero(),
            t: Scalar::zero(),
            p: Vec3::spec_zero(),
        };
        let entry = boundary(r, (Scalar::neg_infinity(), Scalar::infinity()));
        match entry {
            None => {
                proof {
                    let none: Option<Scalar> = None;
                    assert(self.is_course(
                        *r,
                        interval,
                        *boundary,
                        *just_past,
                        *free_path,
                        None,
                        entry,
                        Scalar::zero(),
                        none,
                        any_path,
                    ));
                }
                None
            },
            Some(t1) => {
                let resume = just_past(t1);
                let exit = boundary(r, (resume, Scalar::infinity()));
                match exit {
                    None => {
                        proof {
                            assert(self.is_course(
                                *r,
                                interval,
                                *boundary,
                                *just_past,
                                *free_path,
                                None,
                                entry,
                                resume,
                                exit,
                                any_path,
                            ));
                        }
                        None
                    },
                    Some(t2) => match span_inside(t1, t2, interval) {
                        None => {
                            proof {
                                assert(self.is_course(
                                    *r,
                                    interval,
                                    *boundary,
                                    *just_past,
                                    *free_path,
                                    None,
                                    entry,
                                    resume,
                                    exit,
                                    any_path,
                                ));
                            }
                            None
                        },
                        Some(span) => {
                            let path = free_path(r, span);
                            let res = if path.hit_distance.gt(path.distance_inside_boundary) {
                                None
                            } else {
                                Some(
                                    HitRecord {
                                        t: path.t,
                                        p: path.p,
                                        normal: Vec3::new(
                                            Scalar::one(),
                                            Scalar::zero(),
                                            Scalar::zero(),
                                        ),
                                        front_face: true,
                                        material: self.phase_function,
                                        u: Scalar::zero(),
                                        v: Scalar::zero(),
                                    },
                                )
                            };
                            proof {
                                assert(self.is_course(
                                    *r,
                                    interval,
                                    *boundary,
                                    *just_past,
                                    *free_path,
                                    res,
                                    entry,
                                    resume,
                                    exit,
                                    path,
                                ));
                            }
                            res
                        },
                    },
                }
            },
        }
    }
}

/// What decides whether a ray is scattered in the medium. A ray that is
/// inside the boundary for part of the interval is scattered exactly if its
/// free path is not longer than its way through the medium, and then at the
/// parameter at which the free path ends. So a medium so dense that the free
/// path is always short scatters every such ray, and one so thin that the
/// free path is always long scatters none.
pub proof fn lemma_free_path_decides<
    M: Copy,
    B: Fn(&Ray, (Scalar, Scalar)) -> Option<Scalar>,
    N: Fn(Scalar) -> Scalar,
    F: Fn(&Ray, (Scalar, Scalar)) -> FreePath,
>(
    medium: ConstantMedium<M>,
    r: Ray,
    interval: (Scalar, Scalar),
    boundary: B,
    just_past: N,
    free_path: F,
    res: Option<HitRecord<M>>,
    entry: Option<Scalar>,
    resume: Scalar,
    exit: Option<Scalar>,
    path: FreePath,
)
    requires
        medium.is_course(r, interval, boundary, just_past, free_path, res, entry, resume, exit, path),
        entry is Some,
        exit is Some,
        spec_span_inside(entry->0, exit->0, interval) is Some,
    ensures
        res is Some <==> !path.hit_distance.spec_gt(path.distance_inside_boundary),
        path.hit_distance.spec_le(path.distance_inside_boundary) ==> res is Some && res->0.t == path.t
            && res->0.p == path.p && res->0.material == medium.phase_function,
        path.hit_distance.spec_gt(path.distance_inside_boundary) ==> res is None,
{
}

} // verus!
