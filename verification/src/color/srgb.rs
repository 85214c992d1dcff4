//! Converting images between sRGB and linear RGB colorspace.
use vstd::prelude::*;

use crate::color::PixelComponentMapper;
use crate::image_view::{ImageView, MappingError};

verus! {

/// Whether the pixel types of the two images allow a conversion between
/// sRGB and linear RGB: three or four components of `u8` or `u16`, the same
/// number of components in both images.
pub open spec fn is_rgb_combination(src: ImageView, dst: ImageView) -> bool {
    match (src, dst) {
        (ImageView::U8x3(_), ImageView::U8x3(_)) | (ImageView::U8x3(_), ImageView::U16x3(_))
        | (ImageView::U16x3(_), ImageView::U8x3(_)) | (ImageView::U16x3(_), ImageView::U16x3(_)) => true,
        (ImageView::U8x4(_), ImageView::U8x4(_)) | (ImageView::U8x4(_), ImageView::U16x4(_))
        | (ImageView::U16x4(_), ImageView::U8x4(_)) | (ImageView::U16x4(_), ImageView::U16x4(_)) => true,
        _ => false,
    }
}

fn is_rgb_image(image: &ImageView) -> (r: bool)
    ensures
        r == match *image {
            ImageView::U8x3(_) | ImageView::U16x3(_) | ImageView::U8x4(_) | ImageView::U16x4(_) => true,
            _ => false,
        },
{
    match image {
        ImageView::U8x3(_) | ImageView::U16x3(_) | ImageView::U8x4(_) | ImageView::U16x4(_) => true,
        _ => false,
    }
}

/// Converts an image from sRGB into linear RGB colorspace with the forward
/// tables of `srgb_mapper`, which map sRGB values into linear values.
pub fn srgb_into_rgb(srgb_mapper: &PixelComponentMapper, src_image: &ImageView, dst_image: &mut ImageView) -> (r: Result<(), MappingError>)
    ensures
        match r {
            Ok(()) => srgb_mapper.forward_mapping_tables.dyn_image_mapped(*src_image, *old(dst_image), *final(dst_image)),
            Err(_) => *final(dst_image) == *old(dst_image),
        },
        r == if src_image.spec_width() != old(dst_image).spec_width()
            || src_image.spec_height() != old(dst_image).spec_height() {
            Err(MappingError::DifferentDimensions)
        } else if !is_rgb_combination(*src_image, *old(dst_image)) {
            Err(MappingError::UnsupportedCombinationOfImageTypes)
        } else {
            Ok(())
        },
        src_image.spec_width() == old(dst_image).spec_width()
            && src_image.spec_height() == old(dst_image).spec_height()
            && ((((*src_image) is U8x3 || (*src_image) is U16x3) && ((*old(dst_image)) is U8x3 || (*old(dst_image)) is U16x3))
                || (((*src_image) is U8x4 || (*src_image) is U16x4) && ((*old(dst_image)) is U8x4 || (*old(dst_image)) is U16x4))) ==> r is Ok,
{
    if src_image.width() != dst_image.width() || src_image.height() != dst_image.height() {
        return Err(MappingError::DifferentDimensions);
    }
    if !is_rgb_image(src_image) || !is_rgb_image(dst_image) {
        return Err(MappingError::UnsupportedCombinationOfImageTypes);
    }
    srgb_mapper.forward_map(src_image, dst_image)
}

/// Converts an image from linear RGB into sRGB colorspace with the backward
/// tables of `srgb_mapper`, which map linear values into sRGB values.
pub fn rgb_into_srgb(srgb_mapper: &PixelComponentMapper, src_image: &ImageView, dst_image: &mut ImageView) -> (r: Result<(), MappingError>)
    ensures
        match r {
            Ok(()) => srgb_mapper.backward_mapping_tables.dyn_image_mapped(*src_image, *old(dst_image), *final(dst_image)),
            Err(_) => *final(dst_image) == *old(dst_image),
        },
        r == if src_image.spec_width() != old(dst_image).spec_width()
            || src_image.spec_height() != old(dst_image).spec_height() {
            Err(MappingError::DifferentDimensions)
        } else if !is_rgb_combination(*src_image, *old(dst_image)) {
            Err(MappingError::UnsupportedCombinationOfImageTypes)
        } else {
            Ok(())
        },
        src_image.spec_width() == old(dst_image).spec_width()
            && src_image.spec_height() == old(dst_image).spec_height()
            && ((((*src_image) is U8x3 || (*src_image) is U16x3) && ((*old(dst_image)) is U8x3 || (*old(dst_image)) is U16x3))
                || (((*src_image) is U8x4 || (*src_image) is U16x4) && ((*old(dst_image)) is U8x4 || (*old(dst_image)) is U16x4))) ==> r is Ok,
{
    if src_image.width() != dst_image.width() || src_image.height() != dst_image.height() {
        return Err(MappingError::DifferentDimensions);
    }
    if !is_rgb_image(src_image) || !is_rgb_image(dst_image) {
        return Err(MappingError::UnsupportedCombinationOfImageTypes);
    }
    srgb_mapper.backward_map(src_image, dst_image)
}

/// The sRGB conversions accept exactly the pairs of images whose pixels
/// both have three `u8` or `u16` components (RGB) or both have four (RGBA).
pub proof fn lemma_rgb_combinations(src: ImageView, dst: ImageView)
    ensures
        is_rgb_combination(src, dst) <==> ((src is U8x3 || src is U16x3) && (dst is U8x3 || dst is U16x3))
            || ((src is U8x4 || src is U16x4) && (dst is U8x4 || dst is U16x4)),
{
}

} // verus!
