pub mod header;
pub mod image;

pub use header::Header;
pub use image::Image;
