//! Moving an object by an offset.
use crate::hits::hittable::HitRecord;
use crate::ray::Ray;
use crate::scalar::Scalar;
use crate::vec3::{Point3, Vec3};
use vstd::prelude::*;

verus! {

/// An object moved by `offset`.
#[derive(Clone, Copy, Debug)]
pub struct Translate {
    pub offset: Vec3,
}

/// A hit as seen from the scene: the point is the shifted one, and
/// everything else, the normal and the face too, is as the object reported
/// it.
pub open spec fn shifted<M>(hit: HitRecord<M>, p: Point3) -> HitRecord<M> {
    HitRecord {
        p,
        normal: hit.normal,
        front_face: hit.front_face,
        t: hit.t,
        u: hit.u,
        v: hit.v,
        material: hit.material,
    }
}

/// Whether a moved object can have been asked in this way and answered
/// `res`: the object answered `inner` to the ray moved back, and the point of
/// a hit was moved forward to `p`.
pub open spec fn is_shifted_course<
    M,
    H: Fn(&Ray, (Scalar, Scalar)) -> Option<HitRecord<M>>,
    L: Fn(&HitRecord<M>) -> Point3,
>(
    moved_r: Ray,
    interval: (Scalar, Scalar),
    object: H,
    shift: L,
    res: Option<HitRecord<M>>,
    inner: Option<HitRecord<M>>,
    p: Point3,
) -> bool {
    &&& call_ensures(object, (&moved_r, interval), inner)
    &&& inner is None ==> res is None
    &&& inner is Some ==> call_ensures(shift, (&inner->0,), p) && res == Some(shifted(inner->0, p))
}

/// Whether `res` can be the answer of a moved object: what the object
/// answers to the ray moved back, with its point moved forward by `shift`.
pub open spec fn shifted_hit_admits<
    M,
    H: Fn(&Ray, (Scalar, Scalar)) -> Option<HitRecord<M>>,
    L: Fn(&HitRecord<M>) -> Point3,
>(moved_r: Ray, interval: (Scalar, Scalar), object: H, shift: L, res: Option<HitRecord<M>>) -> bool {
    exists|inner: Option<HitRecord<M>>, p: Point3|
        #[trigger] is_shifted_course(moved_r, interval, object, shift, res, inner, p)
}

impl Translate {
    pub fn new(displacement: Vec3) -> (res: Self)
        ensures
            res.offset == displacement,
    {
        Self { offset: displacement }
    }

    /// The hit of a ray on the moved object. `moved_r` is the ray moved back
    /// by the offset, `object` tests a ray against the object where it
    /// stands unmoved, and `shift` gives the point of a hit moved forward by
    /// the offset. Nothing but the point of the hit is changed.
    pub fn hit<
        M,
        H: Fn(&Ray, (Scalar, Scalar)) -> Option<HitRecord<M>>,
        L: Fn(&HitRecord<M>) -> Point3,
    >(&self, moved_r: &Ray, interval: (Scalar, Scalar), object: &H, shift: &L) -> (res: Option<
        HitRecord<M>,
    >)
        requires
            call_requires(*object, (moved_r, interval)),
            forall|hit: &HitRecord<M>| call_requires(*shift, (hit,)),
        ensures
            shifted_hit_admits(*moved_r, interval, *object, *shift, res),
    {
        let inner = object(moved_r, interval);
        match inner {
            Some(mut hitrecord) => {
                let ghost found = hitrecord;
                let p = shift(&hitrecord);
                hitrecord.p = p;
                proof {
                    assert(hitrecord == shifted(found, p));
                    assert(is_shifted_course(
                        *moved_r,
                        interval,
                        *object,
                        *shift,
                        Some(hitrecord),
                        Some(found),
                        p,
                    ));
                }
                Some(hitrecord)
            },
            None => {
                proof {
                    let none: Option<HitRecord<M>> = None;
                    assert(is_shifted_course(
                        *moved_r,
                        interval,
                        *object,
                        *shift,
                        none,
                        none,
                        Vec3::spec_zero(),
                    ));
                }
                None
            },
        }
    }
}

} // verus!
