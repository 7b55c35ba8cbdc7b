//! Axis-aligned bounding boxes: the slab test and the union of two boxes.
use crate::scalar::Scalar;
use crate::scalar::lemma_min_max_bound;
use crate::vec3::{Point3, Vec3};
use vstd::prelude::*;

verus! {

/// An axis-aligned box, given by its least and greatest corner.
///
/// Nothing enforces that the least corner is below the greatest; callers
/// build boxes that are.
#[derive(Clone, Copy, Debug, PartialEq, Eq, Structural)]
pub struct AABB {
    pub minimum: Point3,
    pub maximum: Point3,
}

/// Where a ray crosses the two planes that bound a box on one axis.
///
/// For a box `b` and a ray `r`, on axis `a`: `inv_d` is `1 / r.direction[a]`,
/// `t0` is `(b.minimum[a] - r.origin[a]) * inv_d` and `t1` is
/// `(b.maximum[a] - r.origin[a]) * inv_d`. A direction component of zero gives
/// an infinite `inv_d`, and the comparisons below still decide rightly.
#[derive(Clone, Copy, Debug, PartialEq, Eq, Structural)]
pub struct Slab {
    pub inv_d: Scalar,
    pub t0: Scalar,
    pub t1: Scalar,
}

impl Slab {
    /// The crossing at which the ray comes between the two planes: the one
    /// with the lesser coordinate, unless the ray runs against the axis.
    pub open spec fn entry(self) -> Scalar {
        if self.inv_d.lt(Scalar::zero()) {
            self.t1
        } else {
            self.t0
        }
    }

    /// The crossing at which the ray leaves the space between the planes.
    pub open spec fn exit(self) -> Scalar {
        if self.inv_d.lt(Scalar::zero()) {
            self.t0
        } else {
            self.t1
        }
    }

    /// The interval `time` cut down to the part in which the ray is between
    /// the two planes: each end of the interval moves inward to the crossing
    /// if the crossing is further in.
    pub open spec fn spec_tighten(self, time: (Scalar, Scalar)) -> (Scalar, Scalar) {
        (
            if self.entry().gt(time.0) { self.entry() } else { time.0 },
            if self.exit().lt(time.1) { self.exit() } else { time.1 },
        )
    }

    /// Whether the ray is between these planes at least as long as between
    /// the planes of `inner`: it comes in no later and leaves no earlier.
    pub open spec fn is_wider_than(self, inner: Slab) -> bool {
        self.entry().le(inner.entry()) && inner.exit().le(self.exit())
    }

    #[verifier::when_used_as_spec(spec_tighten)]
    pub fn tighten(self, time: (Scalar, Scalar)) -> (res: (Scalar, Scalar))
        ensures
            res == self.spec_tighten(time),
    {
        let mut t0 = self.t0;
        let mut t1 = self.t1;
        if self.inv_d.lt(Scalar::zero()) {
            let swapped = t0;
            t0 = t1;
            t1 = swapped;
        }
        let t_min = if t0.gt(time.0) { t0 } else { time.0 };
        let t_max = if t1.lt(time.1) { t1 } else { time.1 };
        (t_min, t_max)
    }
}

/// Whether an interval holds no parameter: its end is at or before its start.
pub open spec fn is_empty_interval(time: (Scalar, Scalar)) -> bool {
    time.1.le(time.0)
}

/// Whether `outer` reaches at least as far as `inner` at both ends.
pub open spec fn interval_covers(outer: (Scalar, Scalar), inner: (Scalar, Scalar)) -> bool {
    &&& outer.0 == inner.0 || outer.0.le(inner.0)
    &&& outer.1 == inner.1 || inner.1.le(outer.1)
}

impl AABB {
    /// Whether a ray with these crossings passes through the box within
    /// `time`: the interval is tightened axis by axis, and the ray misses as
    /// soon as the interval is empty.
    pub open spec fn spec_hit(slabs: [Slab; 3], time: (Scalar, Scalar)) -> bool {
        let after_x = slabs[0].spec_tighten(time);
        let after_y = slabs[1].spec_tighten(after_x);
        let after_z = slabs[2].spec_tighten(after_y);
        !is_empty_interval(after_x) && !is_empty_interval(after_y) && !is_empty_interval(
            after_z,
        )
    }

    /// Whether this box lies around `other`: on every axis its least corner is
    /// at or below, and its greatest corner at or above, that of `other`.
    pub open spec fn contains(self, other: AABB) -> bool {
        &&& self.minimum.x.le(other.minimum.x)
        &&& self.minimum.y.le(other.minimum.y)
        &&& self.minimum.z.le(other.minimum.z)
        &&& other.maximum.x.le(self.maximum.x)
        &&& other.maximum.y.le(self.maximum.y)
        &&& other.maximum.z.le(self.maximum.z)
    }

    /// Whether no coordinate of either corner is a NaN.
    pub open spec fn is_numeric(self) -> bool {
        self.minimum.is_numeric() && self.maximum.is_numeric()
    }

    pub fn new(a: Point3, b: Point3) -> (res: Self)
        ensures
            res == (AABB { minimum: a, maximum: b }),
    {
        Self { minimum: a, maximum: b }
    }

    pub fn min(&self) -> (res: Point3)
        ensures
            res == self.minimum,
    {
        self.minimum
    }

    pub fn max(&self) -> (res: Point3)
        ensures
            res == self.maximum,
    {
        self.maximum
    }

    /// The slab test, on the crossings of a ray with this box's planes (see
    /// [`Slab`]), one per axis in the order x, y, z.
    pub fn hit(slabs: &[Slab; 3], time: (Scalar, Scalar)) -> (res: bool)
        ensures
            res == AABB::spec_hit(*slabs, time),
    {
        let mut interval = time;
        for a in 0..3usize
            invariant
                a == 0 ==> interval == time,
                a >= 1 ==> !is_empty_interval(slabs[0].spec_tighten(time)),
                a == 1 ==> interval == slabs[0].spec_tighten(time),
                a >= 2 ==> !is_empty_interval(slabs[1].spec_tighten(slabs[0].spec_tighten(time))),
                a == 2 ==> interval == slabs[1].spec_tighten(slabs[0].spec_tighten(time)),
                a >= 3 ==> !is_empty_interval(
                    slabs[2].spec_tighten(slabs[1].spec_tighten(slabs[0].spec_tighten(time))),
                ),
        {
            interval = slabs[a].tighten(interval);
            if interval.1.le(interval.0) {
                return false;
            }
        }
        true
    }
}

impl Default for AABB {
    fn default() -> (res: Self)
        ensures
            res == (AABB { minimum: Vec3::spec_zero(), maximum: Vec3::spec_zero() }),
    {
        AABB { minimum: Vec3::default(), maximum: Vec3::default() }
    }
}

/// The box spanned by two boxes: on each axis the lesser of the least corners
/// and the greater of the greatest.
pub open spec fn spec_surrounding_box(box0: AABB, box1: AABB) -> AABB {
    AABB {
        minimum: Vec3 {
            x: box0.minimum.x.min(box1.minimum.x),
            y: box0.minimum.y.min(box1.minimum.y),
            z: box0.minimum.z.min(box1.minimum.z),
        },
        maximum: Vec3 {
            x: box0.maximum.x.max(box1.maximum.x),
            y: box0.maximum.y.max(box1.maximum.y),
            z: box0.maximum.z.max(box1.maximum.z),
        },
    }
}

#[verifier::when_used_as_spec(spec_surrounding_box)]
pub fn surrounding_box(box0: AABB, box1: AABB) -> (res: AABB)
    ensures
        res == spec_surrounding_box(box0, box1),
{
    let small = Point3::new(
        box0.min().x().min(box1.min().x()),
        box0.min().y().min(box1.min().y()),
        box0.min().z().min(box1.min().z()),
    );
    let big = Point3::new(
        box0.max().x().max(box1.max().x()),
        box0.max().y().max(box1.max().y()),
        box0.max().z().max(box1.max().z()),
    );
    AABB::new(small, big)
}

/// The box spanned by two boxes lies around both of them, and holds no NaN,
/// whenever the two hold none.
pub proof fn lemma_surrounding_box_contains_both(box0: AABB, box1: AABB)
    requires
        box0.is_numeric(),
        box1.is_numeric(),
    ensures
        spec_surrounding_box(box0, box1).contains(box0),
        spec_surrounding_box(box0, box1).contains(box1),
        spec_surrounding_box(box0, box1).is_numeric(),
{
    lemma_min_max_bound(box0.minimum.x, box1.minimum.x);
    lemma_min_max_bound(box0.minimum.y, box1.minimum.y);
    lemma_min_max_bound(box0.minimum.z, box1.minimum.z);
    lemma_min_max_bound(box0.maximum.x, box1.maximum.x);
    lemma_min_max_bound(box0.maximum.y, box1.maximum.y);
    lemma_min_max_bound(box0.maximum.z, box1.maximum.z);
}

/// Lying around is transitive, and every box without a NaN lies around itself.
pub proof fn lemma_contains_is_preorder(a: AABB, b: AABB, c: AABB)
    requires
        a.is_numeric(),
    ensures
        a.contains(a),
        a.contains(b) && b.contains(c) ==> a.contains(c),
{
}

/// What the slab test decides, where no crossing and no end of the interval
/// is a NaN: the ray passes the box within the interval exactly if it is
/// between all three pairs of planes at once at some parameter of the
/// interval, that is, if each way in, and the start of the interval, comes
/// before each way out, and before the end of the interval.
pub proof fn lemma_hit_is_overlap(slabs: [Slab; 3], time: (Scalar, Scalar))
    requires
        !time.0.spec_is_nan(),
        !time.1.spec_is_nan(),
        forall|a: int|
            0 <= a < 3 ==> !(#[trigger] slabs[a]).entry().spec_is_nan() && !slabs[a].exit().spec_is_nan(),
    ensures
        AABB::spec_hit(slabs, time) <==> {
            &&& time.0.lt(time.1)
            &&& forall|a: int| 0 <= a < 3 ==> time.0.lt((#[trigger] slabs[a]).exit())
            &&& forall|a: int| 0 <= a < 3 ==> (#[trigger] slabs[a]).entry().lt(time.1)
            &&& forall|a: int, b: int|
                0 <= a < 3 && 0 <= b < 3 ==> (#[trigger] slabs[a]).entry().lt(
                    (#[trigger] slabs[b]).exit(),
                )
        },
{
    let after_x = slabs[0].spec_tighten(time);
    let after_y = slabs[1].spec_tighten(after_x);
    let after_z = slabs[2].spec_tighten(after_y);
    assert(!slabs[0].entry().spec_is_nan() && !slabs[1].entry().spec_is_nan()
        && !slabs[2].entry().spec_is_nan());
    assert(!slabs[0].exit().spec_is_nan() && !slabs[1].exit().spec_is_nan()
        && !slabs[2].exit().spec_is_nan());
}

/// A ray that runs along one axis through a box passes it: if on that axis
/// the ray comes between the planes before it leaves them, and before the
/// interval ends, and leaves them after the interval starts, while on the
/// other two axes, along which it does not move, it is between the planes
/// from minus infinity to plus infinity, then the slab test succeeds.
pub proof fn lemma_ray_along_axis_hits(slabs: [Slab; 3], time: (Scalar, Scalar), axis: int)
    requires
        0 <= axis < 3,
        time.0.spec_lt(time.1),
        slabs[axis].entry().spec_lt(slabs[axis].exit()),
        slabs[axis].entry().spec_lt(time.1),
        time.0.spec_lt(slabs[axis].exit()),
        forall|other: int|
            0 <= other < 3 && other != axis ==> (#[trigger] slabs[other]).entry()
                == Scalar::spec_neg_infinity() && slabs[other].exit() == Scalar::spec_infinity(),
    ensures
        AABB::spec_hit(slabs, time),
{
    assert(slabs[0].entry() == slabs[0].entry());
    assert(slabs[1].entry() == slabs[1].entry());
    assert(slabs[2].entry() == slabs[2].entry());
    lemma_hit_is_overlap(slabs, time);
}

/// A box that lies behind the start of the interval on some axis is missed:
/// if the ray leaves the space between the two planes of an axis at or
/// before `time.0`, the slab test fails, whatever the other axes say.
pub proof fn lemma_box_behind_is_missed(slabs: [Slab; 3], time: (Scalar, Scalar), axis: int)
    requires
        0 <= axis < 3,
        slabs[axis].exit().le(time.0),
        !time.1.spec_is_nan(),
    ensures
        !AABB::spec_hit(slabs, time),
{
    let after_x = slabs[0].spec_tighten(time);
    let after_y = slabs[1].spec_tighten(after_x);
    let after_z = slabs[2].spec_tighten(after_y);
    assert(time.0.le(after_x.0) && !after_x.1.spec_is_nan());
    if !is_empty_interval(after_x) {
        assert(time.0.le(after_y.0) && !after_y.1.spec_is_nan());
        if !is_empty_interval(after_y) {
            assert(time.0.le(after_z.0) && !after_z.1.spec_is_nan());
        }
    }
}

/// A box that lies wholly beyond the end of the interval on some axis is
/// missed: if the ray comes between the two planes of an axis at or after
/// `time.1`, the slab test fails.
pub proof fn lemma_box_beyond_is_missed(slabs: [Slab; 3], time: (Scalar, Scalar), axis: int)
    requires
        0 <= axis < 3,
        time.1.le(slabs[axis].entry()),
        !time.0.spec_is_nan(),
    ensures
        !AABB::spec_hit(slabs, time),
{
    let after_x = slabs[0].spec_tighten(time);
    let after_y = slabs[1].spec_tighten(after_x);
    let after_z = slabs[2].spec_tighten(after_y);
    assert(after_x.1.le(time.1) && !after_x.0.spec_is_nan());
    if !is_empty_interval(after_x) {
        assert(after_y.1.le(time.1) && !after_y.0.spec_is_nan());
        if !is_empty_interval(after_y) {
            assert(after_z.1.le(time.1) && !after_z.0.spec_is_nan());
        }
    }
}

/// Tightening a wider interval by a wider slab leaves a wider interval, and
/// one that is empty only if the narrower one is.
pub proof fn lemma_wider_slab_tightens_less(
    outer: Slab,
    inner: Slab,
    outer_time: (Scalar, Scalar),
    inner_time: (Scalar, Scalar),
)
    requires
        outer.is_wider_than(inner),
        interval_covers(outer_time, inner_time),
    ensures
        interval_covers(outer.spec_tighten(outer_time), inner.spec_tighten(inner_time)),
        is_empty_interval(outer.spec_tighten(outer_time)) ==> is_empty_interval(
            inner.spec_tighten(inner_time),
        ),
{
}

/// The slab test is monotone: a ray that passes between the planes of one
/// box within an interval passes between any planes that it crosses no later
/// on the way in and no earlier on the way out.
pub proof fn lemma_wider_slabs_pass(outer: [Slab; 3], inner: [Slab; 3], time: (Scalar, Scalar))
    requires
        outer[0].is_wider_than(inner[0]),
        outer[1].is_wider_than(inner[1]),
        outer[2].is_wider_than(inner[2]),
    ensures
        AABB::spec_hit(inner, time) ==> AABB::spec_hit(outer, time),
{
    let outer_x = outer[0].spec_tighten(time);
    let inner_x = inner[0].spec_tighten(time);
    lemma_wider_slab_tightens_less(outer[0], inner[0], time, time);
    let outer_y = outer[1].spec_tighten(outer_x);
    let inner_y = inner[1].spec_tighten(inner_x);
    lemma_wider_slab_tightens_less(outer[1], inner[1], outer_x, inner_x);
    lemma_wider_slab_tightens_less(outer[2], inner[2], outer_y, inner_y);
}

} // verus!
