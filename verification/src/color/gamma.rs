//! Changing the gamma of images.
use vstd::prelude::*;

use crate::color::{is_mappable_combination, PixelComponentMapper};
use crate::image_view::{ImageView, MappingError};

verus! {

/// Converts an image from gamma 2.2 into linear colorspace with the forward
/// tables of `gamma22_mapper`, which map gamma 2.2 values into linear values.
pub fn gamma22_into_linear(
    gamma22_mapper: &PixelComponentMapper,
    src_image: &ImageView,
    dst_image: &mut ImageView,
) -> (r: Result<(), MappingError>)
    ensures
        match r {
            Ok(()) => gamma22_mapper.forward_mapping_tables.dyn_image_mapped(*src_image, *old(dst_image), *final(dst_image)),
            Err(_) => *final(dst_image) == *old(dst_image),
        },
        r == if src_image.spec_width() != old(dst_image).spec_width()
            || src_image.spec_height() != old(dst_image).spec_height() {
            Err(MappingError::DifferentDimensions)
        } else if !is_mappable_combination(*src_image, *old(dst_image)) {
            Err(MappingError::UnsupportedCombinationOfImageTypes)
        } else {
            Ok(())
        },
        src_image.spec_width() == old(dst_image).spec_width()
            && src_image.spec_height() == old(dst_image).spec_height()
            && ((((*src_image) is U8 || (*src_image) is U16) && ((*old(dst_image)) is U8 || (*old(dst_image)) is U16))
                || (((*src_image) is U8x2 || (*src_image) is U16x2) && ((*old(dst_image)) is U8x2 || (*old(dst_image)) is U16x2))
                || (((*src_image) is U8x3 || (*src_image) is U16x3) && ((*old(dst_image)) is U8x3 || (*old(dst_image)) is U16x3))
                || (((*src_image) is U8x4 || (*src_image) is U16x4) && ((*old(dst_image)) is U8x4 || (*old(dst_image)) is U16x4))) ==> r is Ok,
{
    gamma22_mapper.forward_map(src_image, dst_image)
}

/// Converts an image from linear colorspace into gamma 2.2 with the backward
/// tables of `gamma22_mapper`, which map linear values into gamma 2.2 values.
pub fn linear_into_gamma22(
    gamma22_mapper: &PixelComponentMapper,
    src_image: &ImageView,
    dst_image: &mut ImageView,
) -> (r: Result<(), MappingError>)
    ensures
        match r {
            Ok(()) => gamma22_mapper.backward_mapping_tables.dyn_image_mapped(*src_image, *old(dst_image), *final(dst_image)),
            Err(_) => *final(dst_image) == *old(dst_image),
        },
        r == if src_image.spec_width() != old(dst_image).spec_width()
            || src_image.spec_height() != old(dst_image).spec_height() {
            Err(MappingError::DifferentDimensions)
        } else if !is_mappable_combination(*src_image, *old(dst_image)) {
            Err(MappingError::UnsupportedCombinationOfImageTypes)
        } else {
            Ok(())
        },
        src_image.spec_width() == old(dst_image).spec_width()
            && src_image.spec_height() == old(dst_image).spec_height()
            && ((((*src_image) is U8 || (*src_image) is U16) && ((*old(dst_image)) is U8 || (*old(dst_image)) is U16))
                || (((*src_image) is U8x2 || (*src_image) is U16x2) && ((*old(dst_image)) is U8x2 || (*old(dst_image)) is U16x2))
                || (((*src_image) is U8x3 || (*src_image) is U16x3) && ((*old(dst_image)) is U8x3 || (*old(dst_image)) is U16x3))
                || (((*src_image) is U8x4 || (*src_image) is U16x4) && ((*old(dst_image)) is U8x4 || (*old(dst_image)) is U16x4))) ==> r is Ok,
{
    gamma22_mapper.backward_map(src_image, dst_image)
}

} // verus!
