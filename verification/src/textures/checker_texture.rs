//! A texture that alternates between two others in a three-dimensional
//! checker pattern.
use crate::scalar::Scalar;
use crate::textures::solid_color::SolidColor;
use crate::vec3::{Color, Point3};
use vstd::prelude::*;

verus! {

pub struct CheckerTexture<T> {
    pub odd: T,
    pub even: T,
}

impl<T> CheckerTexture<T> {
    pub fn new(odd: T, even: T) -> (res: Self)
        ensures
            res.odd == odd,
            res.even == even,
    {
        Self { odd, even }
    }

    /// The colour at a point. `sines` is the product
    /// `sin(10 p.x) * sin(10 p.y) * sin(10 p.z)`: where it is negative the
    /// odd texture is looked up, and the even one otherwise. `lookup` gives
    /// the colour of one of the two textures.
    pub fn value<F: Fn(&T, (Scalar, Scalar), &Point3) -> Color>(
        &self,
        uv: (Scalar, Scalar),
        p: &Point3,
        sines: Scalar,
        lookup: &F,
    ) -> (res: Color)
        requires
            call_requires(*lookup, (&self.odd, uv, p)),
            call_requires(*lookup, (&self.even, uv, p)),
        ensures
            call_ensures(*lookup, (if sines.lt(Scalar::zero()) { &self.odd } else { &self.even }, uv, p), res),
    {
        if sines.lt(Scalar::zero()) {
            lookup(&self.odd, uv, p)
        } else {
            lookup(&self.even, uv, p)
        }
    }
}

impl CheckerTexture<SolidColor> {
    /// A checker of two plain colours.
    pub fn new_from_color(c1: Color, c2: Color) -> (res: Self)
        ensures
            res.odd.color_value == c1,
            res.even.color_value == c2,
    {
        Self::new(SolidColor::new_from_color(c1), SolidColor::new_from_color(c2))
    }
}

} // verus!
