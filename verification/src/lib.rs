pub mod cache;
pub mod charset;
pub mod laws;
pub mod layout;
pub mod meta;
pub mod pixels;
pub mod player;
pub mod prepare;
pub mod render;
pub mod rounding;
pub mod screen;
pub mod text;
