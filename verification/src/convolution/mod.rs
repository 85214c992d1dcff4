//! Convolution of images with fixed-point coefficients.
use vstd::prelude::*;

use crate::convolution::native::{
    fits_horizontally, fits_vertically, horiz_convolution, horizontally_convolved, vert_convolution,
    vertically_convolved,
};
use crate::convolution::optimisations::Normalizer16;
use crate::image_view::TypedImageView;
use crate::pixels::U8x4;

pub mod native;
pub mod native_u16;
pub mod optimisations;

verus! {

/// The input pixels that contribute to one output pixel: `size` pixels from
/// `start` on.
#[derive(Debug, Clone, Copy)]
pub struct Bound {
    pub start: u32,
    pub size: u32,
}

/// Errors of creating a custom filter.
#[derive(Debug, Clone, Copy, PartialEq, Eq, Structural)]
pub enum CreateFilterError {
    /// Value of 'support' argument must be finite and greater than 0.0
    InvalidSupport,
}

/// Convolution of `U8x4` images without SIMD instructions.
pub struct NativeU8x4;

impl NativeU8x4 {
    /// Horizontal convolution of `U8x4` images; see [`horiz_convolution`].
    pub fn horiz_convolution(
        &self,
        src_image: &TypedImageView<U8x4>,
        dst_image: &mut TypedImageView<U8x4>,
        offset: u32,
        normalizer: &Normalizer16,
    )
        requires
            offset <= src_image.spec_height(),
            fits_horizontally(normalizer, src_image.spec_width()),
        ensures
            horizontally_convolved(*src_image, *old(dst_image), *final(dst_image), offset as int, normalizer),
    {
        horiz_convolution(src_image, dst_image, offset, normalizer)
    }

    /// Vertical convolution of `U8x4` images; see [`vert_convolution`].
    pub fn vert_convolution(
        &self,
        src_image: &TypedImageView<U8x4>,
        dst_image: &mut TypedImageView<U8x4>,
        normalizer: &Normalizer16,
    )
        requires
            old(dst_image).spec_width() <= src_image.spec_width(),
            fits_vertically(normalizer, src_image.spec_height(), old(dst_image).spec_height()),
        ensures
            vertically_convolved(*src_image, *old(dst_image), *final(dst_image), normalizer),
    {
        vert_convolution(src_image, dst_image, normalizer)
    }
}

/// Convolution of `I32` images without SIMD instructions. Its coefficients
/// are floating-point numbers, so the convolution itself is not part of the
/// verified library.
pub struct NativeI32;

/// Convolution of `F32` images without SIMD instructions. Its pixels and
/// coefficients are floating-point numbers, so the convolution itself is not
/// part of the verified library.
pub struct NativeF32;

/// Convolution of `U8x4` images with AVX2 instructions. Its SIMD kernels are
/// not part of the verified library, which convolves `U8x4` images with
/// `NativeU8x4`.
pub struct Avx2U8x4;

/// Convolution of `U8x4` images with SSE4.1 instructions. Its SIMD kernels
/// are not part of the verified library, which convolves `U8x4` images with
/// `NativeU8x4`.
pub struct Sse4;

} // verus!
