pub mod checker_texture;
pub mod image_texture;
pub mod noise_texture;
pub mod solid_color;
