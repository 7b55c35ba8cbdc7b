//! The material that gives off light.
use crate::hits::hittable::HitRecord;
use crate::ray::Ray;
use crate::scalar::Scalar;
use crate::textures::solid_color::SolidColor;
use crate::vec3::{Color, Point3};
use vstd::prelude::*;

verus! {

/// A surface that emits the colour of a texture and scatters nothing.
pub struct DiffuseLight<T> {
    pub emit: T,
}

impl<T> DiffuseLight<T> {
    pub fn new_from_texture(a: T) -> (res: Self)
        ensures
            res.emit == a,
    {
        Self { emit: a }
    }

    /// The light given off at a point: the colour of the texture there, as
    /// `lookup` gives it.
    pub fn emitted<F: Fn(&T, (Scalar, Scalar), &Point3) -> Color>(
        &self,
        uv: (Scalar, Scalar),
        p: &Point3,
        lookup: &F,
    ) -> (res: Color)
        requires
            call_requires(*lookup, (&self.emit, uv, p)),
        ensures
            call_ensures(*lookup, (&self.emit, uv, p), res),
    {
        lookup(&self.emit, uv, p)
    }

    /// A light scatters no ray.
    pub fn scatter<M>(&self, r_in: Ray, hitrecord: &HitRecord<M>) -> (res: Option<(Ray, Color)>)
        ensures
            res is None,
    {
        None
    }
}

impl DiffuseLight<SolidColor> {
    /// A light of one colour.
    pub fn new(c: Color) -> (res: Self)
        ensures
            res.emit.color_value == c,
    {
        Self { emit: SolidColor::new_from_color(c) }
    }
}

} // verus!
