//! The texture that has one colour everywhere.
use crate::scalar::Scalar;
use crate::vec3::{Color, Point3, Vec3};
use vstd::prelude::*;

verus! {

#[derive(Clone, Copy, Debug, PartialEq, Eq, Structural)]
pub struct SolidColor {
    pub color_value: Color,
}

impl SolidColor {
    pub fn new(r: Scalar, g: Scalar, b: Scalar) -> (res: Self)
        ensures
            res.color_value == (Vec3 { x: r, y: g, z: b }),
    {
        Self { color_value: Color::new(r, g, b) }
    }

    pub fn new_from_color(c: Color) -> (res: Self)
        ensures
            res.color_value == c,
    {
        Self { color_value: c }
    }

    /// The colour, whatever the coordinates and the point.
    pub fn value(&self, uv: (Scalar, Scalar), p: &Point3) -> (res: Color)
        ensures
            res == self.color_value,
    {
        self.color_value
    }
}

impl Default for SolidColor {
    fn default() -> (res: Self)
        ensures
            res.color_value == Vec3::spec_zero(),
    {
        Self { color_value: Color::default() }
    }
}

} // verus!
