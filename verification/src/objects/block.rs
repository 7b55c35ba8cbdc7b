//! A box with six rectangular faces.
use crate::hits::aabb::AABB;
use crate::hits::hittable::HitRecord;
use crate::hits::hittable_list::{is_scan, last_hit, HittableList};
use crate::objects::aa_rect::{XYRect, XZRect, YZRect};
use crate::ray::Ray;
use crate::scalar::Scalar;
use crate::vec3::Point3;
use vstd::prelude::*;

verus! {

/// One face of a block.
#[derive(Debug)]
pub enum Side<M> {
    XY(XYRect<M>),
    XZ(XZRect<M>),
    YZ(YZRect<M>),
}

/// An axis-aligned box between two corners, made of six rectangles that share
/// one material.
pub struct Block<M> {
    pub block_min: Point3,
    pub block_max: Point3,
    pub sides: HittableList<Side<M>>,
}

/// The six faces of the block between `p0` and `p1`: on each of the three
/// axes in the order z, y, x, the face at `p1` and then the face at `p0`.
pub open spec fn faces<M>(p0: Point3, p1: Point3, material: M) -> Seq<Side<M>> {
    seq![
        Side::XY(XYRect { material, x_boundaries: (p0.x, p1.x), y_boundaries: (p0.y, p1.y), k: p1.z }),
        Side::XY(XYRect { material, x_boundaries: (p0.x, p1.x), y_boundaries: (p0.y, p1.y), k: p0.z }),
        Side::XZ(XZRect { material, x_boundaries: (p0.x, p1.x), z_boundaries: (p0.z, p1.z), k: p1.y }),
        Side::XZ(XZRect { material, x_boundaries: (p0.x, p1.x), z_boundaries: (p0.z, p1.z), k: p0.y }),
        Side::YZ(YZRect { material, y_boundaries: (p0.y, p1.y), z_boundaries: (p0.z, p1.z), k: p1.x }),
        Side::YZ(YZRect { material, y_boundaries: (p0.y, p1.y), z_boundaries: (p0.z, p1.z), k: p0.x }),
    ]
}

impl<M: Copy> Block<M> {
    pub fn new(p0: Point3, p1: Point3, material: M) -> (res: Self)
        ensures
            res.block_min == p0,
            res.block_max == p1,
            res.sides.list@ == faces(p0, p1, material),
    {
        let mut new = Self { block_min: p0, block_max: p1, sides: HittableList::new() };
        new.sides.add(
            Side::XY(XYRect::new((p0.x(), p1.x()), (p0.y(), p1.y()), p1.z(), material)),
        );
        new.sides.add(
            Side::XY(XYRect::new((p0.x(), p1.x()), (p0.y(), p1.y()), p0.z(), material)),
        );
        new.sides.add(
            Side::XZ(XZRect::new((p0.x(), p1.x()), (p0.z(), p1.z()), p1.y(), material)),
        );
        new.sides.add(
            Side::XZ(XZRect::new((p0.x(), p1.x()), (p0.z(), p1.z()), p0.y(), material)),
        );
        new.sides.add(
            Side::YZ(YZRect::new((p0.y(), p1.y()), (p0.z(), p1.z()), p1.x(), material)),
        );
        new.sides.add(
            Side::YZ(YZRect::new((p0.y(), p1.y()), (p0.z(), p1.z()), p0.x(), material)),
        );
        proof {
            assert(new.sides.list@ =~= faces(p0, p1, material));
        }
        new
    }

    /// The block's box: the block itself.
    pub fn bounding_box(&self) -> (res: Option<AABB>)
        ensures
            res == Some(AABB { minimum: self.block_min, maximum: self.block_max }),
    {
        Some(AABB::new(self.block_min, self.block_max))
    }

    /// The nearest hit of the ray on the faces within `interval`: the faces
    /// are searched as a list, with `probe` testing the ray against a face.
    pub fn hit<P: Fn(&Side<M>, &Ray, (Scalar, Scalar)) -> Option<HitRecord<M>>>(
        &self,
        r: &Ray,
        interval: (Scalar, Scalar),
        probe: &P,
    ) -> (res: Option<HitRecord<M>>)
        requires
            forall|k: int, hi: Scalar|
                0 <= k < self.sides.list@.len() ==> call_requires(
                    *probe,
                    (&#[trigger] self.sides.list@[k], r, (interval.0, hi)),
                ),
        ensures
            exists|answers: Seq<Option<HitRecord<M>>>|
                #[trigger] is_scan(self.sides.list@, *probe, *r, interval, answers) && res
                    == last_hit(answers),
    {
        self.sides.hit(r, interval, probe)
    }
}

} // verus!
