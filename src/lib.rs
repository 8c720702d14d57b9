//! Integer side of a small ray-tracing image generator: image dimensions,
//! the order in which pixels are emitted, exact quantization of the gradient
//! test pattern, and the plain-text PPM (`P3`) encoding of an image.
pub mod gradient;
pub mod ppm;
pub mod raster;
