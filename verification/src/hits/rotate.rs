//! Turning an object about the y axis.
use crate::hits::aabb::AABB;
use crate::hits::hittable::HitRecord;
use crate::ray::Ray;
use crate::scalar::Scalar;
use crate::vec3::{Point3, Vec3};
use vstd::prelude::*;

verus! {

/// An object turned about the y axis by an angle, of which the sine and the
/// cosine are kept, with the box of the turned object.
#[derive(Clone, Copy, Debug)]
pub struct RotateY {
    pub sin_theta: Scalar,
    pub cos_theta: Scalar,
    pub b_box: Option<AABB>,
}

/// A hit turned forward from the object's own frame into the scene's: the
/// hit's point and the hit's normal, both turned by the angle.
#[derive(Clone, Copy, Debug, PartialEq, Eq, Structural)]
pub struct Placed {
    pub p: Point3,
    pub normal: Vec3,
}

/// The box that holds nothing: it reaches from plus infinity down to minus
/// infinity, so that the first point put into it becomes both corners.
pub open spec fn empty_box() -> AABB {
    AABB {
        minimum: Vec3 { x: Scalar::infinity(), y: Scalar::infinity(), z: Scalar::infinity() },
        maximum: Vec3 {
            x: Scalar::neg_infinity(),
            y: Scalar::neg_infinity(),
            z: Scalar::neg_infinity(),
        },
    }
}

/// A box grown to hold a point.
pub open spec fn grown(b: AABB, point: Vec3) -> AABB {
    AABB {
        minimum: Vec3 {
            x: b.minimum.x.min(point.x),
            y: b.minimum.y.min(point.y),
            z: b.minimum.z.min(point.z),
        },
        maximum: Vec3 {
            x: b.maximum.x.max(point.x),
            y: b.maximum.y.max(point.y),
            z: b.maximum.z.max(point.z),
        },
    }
}

/// The least box that holds all of the points.
pub open spec fn extent_of(points: Seq<Vec3>) -> AABB
    decreases points.len(),
{
    if points.len() == 0 {
        empty_box()
    } else {
        grown(extent_of(points.drop_last()), points.last())
    }
}

/// A hit as seen from the scene: the point and the normal are the placed
/// ones, and everything else is as the object reported it. The normal was
/// turned against the ray in the object's frame and is turned with the ray,
/// so it needs no second turning, and the hit is on the same face.
pub open spec fn replaced<M>(hit: HitRecord<M>, placed: Placed) -> HitRecord<M> {
    HitRecord {
        p: placed.p,
        normal: placed.normal,
        front_face: hit.front_face,
        t: hit.t,
        u: hit.u,
        v: hit.v,
        material: hit.material,
    }
}

/// Whether a turned object can have been asked in this way and answered
/// `res`: the object answered `inner` to the ray in its own frame, and a hit
/// was put back into the scene as `placed`.
pub open spec fn is_turned_course<
    M,
    H: Fn(&Ray, (Scalar, Scalar)) -> Option<HitRecord<M>>,
    L: Fn(&HitRecord<M>) -> Placed,
>(
    own_ray: Ray,
    interval: (Scalar, Scalar),
    object: H,
    place: L,
    res: Option<HitRecord<M>>,
    inner: Option<HitRecord<M>>,
    placed: Placed,
) -> bool {
    &&& call_ensures(object, (&own_ray, interval), inner)
    &&& inner is None ==> res is None
    &&& inner is Some ==> call_ensures(place, (&inner->0,), placed) && res == Some(
        replaced(inner->0, placed),
    )
}

/// Whether `res` can be the answer of a turned object: what the object
/// answers to the ray in its own frame, put back into the scene by `place`.
pub open spec fn turned_hit_admits<
    M,
    H: Fn(&Ray, (Scalar, Scalar)) -> Option<HitRecord<M>>,
    L: Fn(&HitRecord<M>) -> Placed,
>(own_ray: Ray, interval: (Scalar, Scalar), object: H, place: L, res: Option<HitRecord<M>>) -> bool {
    exists|inner: Option<HitRecord<M>>, placed: Placed|
        #[trigger] is_turned_course(own_ray, interval, object, place, res, inner, placed)
}

/// The hit of a ray on an object that has been turned: the object is asked
/// with the ray as it runs in the object's frame, and its answer is put back.
pub fn hit_turned<
    M,
    H: Fn(&Ray, (Scalar, Scalar)) -> Option<HitRecord<M>>,
    L: Fn(&HitRecord<M>) -> Placed,
>(own_ray: &Ray, interval: (Scalar, Scalar), object: &H, place: &L) -> (res: Option<HitRecord<M>>)
    requires
        call_requires(*object, (own_ray, interval)),
        forall|hit: &HitRecord<M>| call_requires(*place, (hit,)),
    ensures
        turned_hit_admits(*own_ray, interval, *object, *place, res),
{
    let inner = object(own_ray, interval);
    match inner {
        Some(mut hitrecord) => {
            let ghost found = hitrecord;
            let placed = place(&hitrecord);
            hitrecord.p = placed.p;
            hitrecord.normal = placed.normal;
            proof {
                assert(hitrecord == replaced(found, placed));
                assert(is_turned_course(
                    *own_ray,
                    interval,
                    *object,
                    *place,
                    Some(hitrecord),
                    Some(found),
                    placed,
                ));
            }
            Some(hitrecord)
        },
        None => {
            proof {
                let none: Option<HitRecord<M>> = None;
                let any = Placed { p: Vec3::spec_zero(), normal: Vec3::spec_zero() };
                assert(is_turned_course(*own_ray, interval, *object, *place, none, none, any));
            }
            None
        },
    }
}

impl RotateY {
    /// A rotation with the given sine and cosine of its angle, around an
    /// object of which `corners` are the eight corners of its box after the
    /// rotation. The box kept is the least axis-aligned box around them,
    /// which is in general larger than the turned object.
    pub fn new(sin_theta: Scalar, cos_theta: Scalar, corners: &[Vec3; 8]) -> (res: Self)
        ensures
            res.sin_theta == sin_theta,
            res.cos_theta == cos_theta,
            res.b_box == Some(extent_of(corners@)),
    {
        let mut min = Point3::new(Scalar::infinity(), Scalar::infinity(), Scalar::infinity());
        let mut max = Point3::new(
            Scalar::neg_infinity(),
            Scalar::neg_infinity(),
            Scalar::neg_infinity(),
        );
        let mut k: usize = 0;
        while k < 8
            invariant
                k <= 8,
                corners@.len() == 8,
                (AABB { minimum: min, maximum: max }) == extent_of(corners@.take(k as int)),
            decreases 8 - k,
        {
            let tester = corners[k];
            min = Point3::new(min.x().min(tester.x()), min.y().min(tester.y()), min.z().min(tester.z()));
            max = Point3::new(max.x().max(tester.x()), max.y().max(tester.y()), max.z().max(tester.z()));
            proof {
                assert(corners@.take(k + 1).drop_last() =~= corners@.take(k as int));
            }
            k = k + 1;
        }
        proof {
            assert(corners@.take(8) =~= corners@);
        }
        Self { sin_theta, cos_theta, b_box: Some(AABB::new(min, max)) }
    }

    /// The box of the turned object, whatever the time.
    pub fn bounding_box(&self) -> (res: Option<AABB>)
        ensures
            res == self.b_box,
    {
        self.b_box
    }

    /// The hit of a ray on the turned object. `rotated_r` is the ray turned
    /// back by the angle, `object` tests a ray against the object as it
    /// stands unturned, and `place` turns the point and the normal of a hit
    /// forward again.
    pub fn hit<
        M,
        H: Fn(&Ray, (Scalar, Scalar)) -> Option<HitRecord<M>>,
        L: Fn(&HitRecord<M>) -> Placed,
    >(&self, rotated_r: &Ray, interval: (Scalar, Scalar), object: &H, place: &L) -> (res: Option<
        HitRecord<M>,
    >)
        requires
            call_requires(*object, (rotated_r, interval)),
            forall|hit: &HitRecord<M>| call_requires(*place, (hit,)),
        ensures
            turned_hit_admits(*rotated_r, interval, *object, *place, res),
    {
        hit_turned(rotated_r, interval, object, place)
    }
}

/// The least box around points lies around each of them, where no
/// coordinate is a NaN.
pub proof fn lemma_extent_holds_points(points: Seq<Vec3>, k: int)
    requires
        0 <= k < points.len(),
        forall|i: int| 0 <= i < points.len() ==> (#[trigger] points[i]).is_numeric(),
    ensures
        extent_of(points).contains(AABB { minimum: points[k], maximum: points[k] }),
        extent_of(points).is_numeric(),
    decreases points.len(),
{
    let front = points.drop_last();
    if front.len() == 0 {
    } else {
        if k < front.len() {
            lemma_extent_holds_points(front, k);
        } else {
            lemma_extent_holds_points(front, 0);
        }
    }
}

} // verus!
