//! Multiplying and dividing the color components of pixels by their alpha channel.
pub mod common;
pub mod u8x2;
pub mod u8x4;
