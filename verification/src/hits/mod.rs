pub mod aabb;
pub mod constant_medium;
pub mod hittable;
pub mod hittable_list;
pub mod rotate;
pub mod translate;
