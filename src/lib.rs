//! Decoding of raw X-server framebuffer replies into packed 8-bit RGB / RGBA
//! images, together with the geometry decisions that precede a capture.

pub mod error;
pub mod pixel;
pub mod frame;
pub mod image_buffer;
pub mod reply;
pub mod dispatch;
