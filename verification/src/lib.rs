//! A verified pixel-buffer pipeline: a flat row-major raster type, exact
//! grayscale reduction, Sobel gradient-magnitude edge detection with a
//! configurable border sentinel, and plain-text raster (`P3`/`P2`) headers
//! and bodies with a proved header round trip. JPEG decoding is delegated to
//! an outside decoder; all logic around it is specified and verified.

pub mod buffer;
pub mod error;
pub mod jpeg;
pub mod pixel;
pub mod render;
pub mod sobel;
pub mod text;
