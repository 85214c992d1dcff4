//! Verified core of an image-resizing library: pixel types and images,
//! alpha multiplication and division, colorspace mapping tables, changing
//! the bit depth of pixel components, and integer convolution kernels.
pub mod alpha;
pub mod array_chunks;
pub mod change_components_type;
pub mod color;
pub mod convolution;
pub mod image_view;
pub mod pixels;
