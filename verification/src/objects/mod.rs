pub mod aa_rect;
pub mod block;
pub mod moving_sphere;
pub mod sphere;
