pub mod buffer;
pub mod color;
pub mod screen;
pub mod writer;
