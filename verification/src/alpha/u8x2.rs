//! Multiplying and dividing `U8x2` pixels (luma and alpha) by their alpha channel.
use vstd::prelude::*;

use crate::alpha::common::{
    div_and_clip, lemma_div_and_clip_extremes, lemma_div_and_clip_formula, lemma_mul_div_255_formula,
    lemma_recip_alpha_formula, lemma_mul_div_255_bounded, lemma_mul_div_255_extremes,
    mul_div_255, recip_alpha, spec_div_and_clip, spec_mul_div_255, spec_recip_alpha,
};
use crate::image_view::{copy_row, TypedImageView};
use crate::pixels::{Pixel, U8x2};

verus! {

broadcast use TypedImageView::lemma_shape;

/// `dst` is `src` with its luma component multiplied by its alpha.
pub open spec fn alpha_multiplied(src: U8x2, dst: U8x2) -> bool {
    &&& dst.0[0] == spec_mul_div_255(src.0[0], src.0[1])
    &&& dst.0[1] == src.0[1]
}

/// `dst` is `src` with its luma component divided by its alpha.
pub open spec fn alpha_divided(src: U8x2, dst: U8x2) -> bool {
    &&& dst.0[0] == spec_div_and_clip(src.0[0], spec_recip_alpha(src.0[1]))
    &&& dst.0[1] == src.0[1]
}

/// Multiplies the luma component of a pixel by its alpha.
pub fn multiply_alpha_pixel(pixel: U8x2) -> (r: U8x2)
    ensures
        alpha_multiplied(pixel, r),
{
    let alpha = pixel.0[1];
    Pixel([
        mul_div_255(pixel.0[0], alpha),
        alpha,
    ])
}

/// Divides the luma component of a pixel by its alpha.
pub fn divide_alpha_pixel(pixel: U8x2) -> (r: U8x2)
    ensures
        alpha_divided(pixel, r),
{
    let alpha = pixel.0[1];
    let recip = recip_alpha(alpha);
    Pixel([
        div_and_clip(pixel.0[0], recip),
        alpha,
    ])
}

/// Writes into `dst_row` the pixels of `src_row` multiplied by alpha, as far
/// as the shorter of the two rows goes.
pub fn multiply_alpha_row(src_row: &[U8x2], dst_row: &mut [U8x2])
    ensures
        final(dst_row)@.len() == old(dst_row)@.len(),
        forall|x: int|
            0 <= x < old(dst_row)@.len() ==> if x < src_row@.len() {
                alpha_multiplied(src_row@[x], #[trigger] final(dst_row)@[x])
            } else {
                final(dst_row)@[x] == old(dst_row)@[x]
            },
{
    let n = if src_row.len() < dst_row.len() { src_row.len() } else { dst_row.len() };
    let mut x: usize = 0;
    while x < n
        invariant
            n <= src_row@.len(),
            n <= dst_row@.len(),
            x <= n,
            dst_row@.len() == old(dst_row)@.len(),
            forall|i: int| 0 <= i < x ==> alpha_multiplied(src_row@[i], #[trigger] dst_row@[i]),
            forall|i: int| x <= i < dst_row@.len() ==> #[trigger] dst_row@[i] == old(dst_row)@[i],
        decreases n - x,
    {
        dst_row[x] = multiply_alpha_pixel(src_row[x]);
        x += 1;
    }
}

/// Multiplies every pixel of a row by its alpha.
pub fn multiply_alpha_row_inplace(row: &mut [U8x2])
    ensures
        final(row)@.len() == old(row)@.len(),
        forall|x: int| 0 <= x < old(row)@.len() ==> alpha_multiplied(old(row)@[x], #[trigger] final(row)@[x]),
{
    let mut x: usize = 0;
    while x < row.len()
        invariant
            x <= row@.len(),
            row@.len() == old(row)@.len(),
            forall|i: int| 0 <= i < x ==> alpha_multiplied(old(row)@[i], #[trigger] row@[i]),
            forall|i: int| x <= i < row@.len() ==> #[trigger] row@[i] == old(row)@[i],
        decreases row@.len() - x,
    {
        let pixel = row[x];
        row[x] = multiply_alpha_pixel(pixel);
        x += 1;
    }
}

/// Writes into `dst_row` the pixels of `src_row` divided by alpha, as far
/// as the shorter of the two rows goes.
pub fn divide_alpha_row(src_row: &[U8x2], dst_row: &mut [U8x2])
    ensures
        final(dst_row)@.len() == old(dst_row)@.len(),
        forall|x: int|
            0 <= x < old(dst_row)@.len() ==> if x < src_row@.len() {
                alpha_divided(src_row@[x], #[trigger] final(dst_row)@[x])
            } else {
                final(dst_row)@[x] == old(dst_row)@[x]
            },
{
    let n = if src_row.len() < dst_row.len() { src_row.len() } else { dst_row.len() };
    let mut x: usize = 0;
    while x < n
        invariant
            n <= src_row@.len(),
            n <= dst_row@.len(),
            x <= n,
            dst_row@.len() == old(dst_row)@.len(),
            forall|i: int| 0 <= i < x ==> alpha_divided(src_row@[i], #[trigger] dst_row@[i]),
            forall|i: int| x <= i < dst_row@.len() ==> #[trigger] dst_row@[i] == old(dst_row)@[i],
        decreases n - x,
    {
        dst_row[x] = divide_alpha_pixel(src_row[x]);
        x += 1;
    }
}

/// Divides every pixel of a row by its alpha.
pub fn divide_alpha_row_inplace(row: &mut [U8x2])
    ensures
        final(row)@.len() == old(row)@.len(),
        forall|x: int| 0 <= x < old(row)@.len() ==> alpha_divided(old(row)@[x], #[trigger] final(row)@[x]),
{
    let mut x: usize = 0;
    while x < row.len()
        invariant
            x <= row@.len(),
            row@.len() == old(row)@.len(),
            forall|i: int| 0 <= i < x ==> alpha_divided(old(row)@[i], #[trigger] row@[i]),
            forall|i: int| x <= i < row@.len() ==> #[trigger] row@[i] == old(row)@[i],
        decreases row@.len() - x,
    {
        let pixel = row[x];
        row[x] = divide_alpha_pixel(pixel);
        x += 1;
    }
}

/// Writes into `dst_view` the pixels of `src_view` multiplied by alpha,
/// over the rows and columns that both images have.
pub fn multiply_alpha(src_view: &TypedImageView<U8x2>, dst_view: &mut TypedImageView<U8x2>)
    ensures
        final(dst_view).spec_width() == old(dst_view).spec_width(),
        final(dst_view).spec_height() == old(dst_view).spec_height(),
        forall|y: int, x: int|
            0 <= y < old(dst_view).spec_height() && 0 <= x < old(dst_view).spec_width() ==> if y
                < src_view.spec_height() && x < src_view.spec_width() {
                alpha_multiplied(src_view.spec_rows()[y][x], #[trigger] final(dst_view).spec_rows()[y][x])
            } else {
                final(dst_view).spec_rows()[y][x] == old(dst_view).spec_rows()[y][x]
            },
{
    let height = if src_view.height() < dst_view.height() {
        src_view.height()
    } else {
        dst_view.height()
    };
    let mut y: u32 = 0;
    while y < height
        invariant
            height <= src_view.spec_height(),
            height <= dst_view.spec_height(),
            y <= height,
            dst_view.spec_width() == old(dst_view).spec_width(),
            dst_view.spec_height() == old(dst_view).spec_height(),
            forall|j: int, x: int|
                0 <= j < y && 0 <= x < dst_view.spec_width() ==> if x < src_view.spec_width() {
                    alpha_multiplied(src_view.spec_rows()[j][x], #[trigger] dst_view.spec_rows()[j][x])
                } else {
                    dst_view.spec_rows()[j][x] == old(dst_view).spec_rows()[j][x]
                },
            forall|j: int| y <= j < dst_view.spec_height() ==> #[trigger] dst_view.spec_rows()[j] == old(dst_view).spec_rows()[j],
        decreases height - y,
    {
        let mut row = copy_row(dst_view.row(y as usize));
        multiply_alpha_row(src_view.row(y as usize).as_slice(), row.as_mut_slice());
        dst_view.set_row(y as usize, row);
        y += 1;
    }
}

/// Multiplies every pixel of an image by its alpha.
pub fn multiply_alpha_inplace(image_view: &mut TypedImageView<U8x2>)
    ensures
        final(image_view).spec_width() == old(image_view).spec_width(),
        final(image_view).spec_height() == old(image_view).spec_height(),
        forall|y: int, x: int|
            0 <= y < old(image_view).spec_height() && 0 <= x < old(image_view).spec_width()
                ==> alpha_multiplied(old(image_view).spec_rows()[y][x], #[trigger] final(image_view).spec_rows()[y][x]),
{
    let height = image_view.height();
    let mut y: u32 = 0;
    while y < height
        invariant
            height == image_view.spec_height(),
            y <= height,
            image_view.spec_width() == old(image_view).spec_width(),
            image_view.spec_height() == old(image_view).spec_height(),
            forall|j: int, x: int|
                0 <= j < y && 0 <= x < image_view.spec_width() ==> alpha_multiplied(
                    old(image_view).spec_rows()[j][x],
                    #[trigger] image_view.spec_rows()[j][x],
                ),
            forall|j: int| y <= j < image_view.spec_height() ==> #[trigger] image_view.spec_rows()[j] == old(image_view).spec_rows()[j],
        decreases height - y,
    {
        let mut row = copy_row(image_view.row(y as usize));
        multiply_alpha_row_inplace(row.as_mut_slice());
        image_view.set_row(y as usize, row);
        y += 1;
    }
}

/// Writes into `dst_view` the pixels of `src_view` divided by alpha,
/// over the rows and columns that both images have.
pub fn divide_alpha(src_view: &TypedImageView<U8x2>, dst_view: &mut TypedImageView<U8x2>)
    ensures
        final(dst_view).spec_width() == old(dst_view).spec_width(),
        final(dst_view).spec_height() == old(dst_view).spec_height(),
        forall|y: int, x: int|
            0 <= y < old(dst_view).spec_height() && 0 <= x < old(dst_view).spec_width() ==> if y
                < src_view.spec_height() && x < src_view.spec_width() {
                alpha_divided(src_view.spec_rows()[y][x], #[trigger] final(dst_view).spec_rows()[y][x])
            } else {
                final(dst_view).spec_rows()[y][x] == old(dst_view).spec_rows()[y][x]
            },
{
    let height = if src_view.height() < dst_view.height() {
        src_view.height()
    } else {
        dst_view.height()
    };
    let mut y: u32 = 0;
    while y < height
        invariant
            height <= src_view.spec_height(),
            height <= dst_view.spec_height(),
            y <= height,
            dst_view.spec_width() == old(dst_view).spec_width(),
            dst_view.spec_height() == old(dst_view).spec_height(),
            forall|j: int, x: int|
                0 <= j < y && 0 <= x < dst_view.spec_width() ==> if x < src_view.spec_width() {
                    alpha_divided(src_view.spec_rows()[j][x], #[trigger] dst_view.spec_rows()[j][x])
                } else {
                    dst_view.spec_rows()[j][x] == old(dst_view).spec_rows()[j][x]
                },
            forall|j: int| y <= j < dst_view.spec_height() ==> #[trigger] dst_view.spec_rows()[j] == old(dst_view).spec_rows()[j],
        decreases height - y,
    {
        let mut row = copy_row(dst_view.row(y as usize));
        divide_alpha_row(src_view.row(y as usize).as_slice(), row.as_mut_slice());
        dst_view.set_row(y as usize, row);
        y += 1;
    }
}

/// Divides every pixel of an image by its alpha.
pub fn divide_alpha_inplace(image_view: &mut TypedImageView<U8x2>)
    ensures
        final(image_view).spec_width() == old(image_view).spec_width(),
        final(image_view).spec_height() == old(image_view).spec_height(),
        forall|y: int, x: int|
            0 <= y < old(image_view).spec_height() && 0 <= x < old(image_view).spec_width()
                ==> alpha_divided(old(image_view).spec_rows()[y][x], #[trigger] final(image_view).spec_rows()[y][x]),
{
    let height = image_view.height();
    let mut y: u32 = 0;
    while y < height
        invariant
            height == image_view.spec_height(),
            y <= height,
            image_view.spec_width() == old(image_view).spec_width(),
            image_view.spec_height() == old(image_view).spec_height(),
            forall|j: int, x: int|
                0 <= j < y && 0 <= x < image_view.spec_width() ==> alpha_divided(
                    old(image_view).spec_rows()[j][x],
                    #[trigger] image_view.spec_rows()[j][x],
                ),
            forall|j: int| y <= j < image_view.spec_height() ==> #[trigger] image_view.spec_rows()[j] == old(image_view).spec_rows()[j],
        decreases height - y,
    {
        let mut row = copy_row(image_view.row(y as usize));
        divide_alpha_row_inplace(row.as_mut_slice());
        image_view.set_row(y as usize, row);
        y += 1;
    }
}

/// Multiplying by alpha keeps alpha, and the luma component of the
/// result is at most alpha.
pub proof fn lemma_multiplied_components_bounded(src: U8x2, dst: U8x2)
    requires
        alpha_multiplied(src, dst),
    ensures
        dst.0[1] == src.0[1],
        dst.0[0] <= dst.0[1],
{
    lemma_mul_div_255_bounded(src.0[0], src.0[1]);
}

/// An opaque pixel (alpha 255) is left unchanged by multiplying and by
/// dividing by alpha.
pub proof fn lemma_opaque_pixel_unchanged(src: U8x2, multiplied: U8x2, divided: U8x2)
    requires
        src.0[1] == 255,
        alpha_multiplied(src, multiplied),
        alpha_divided(src, divided),
    ensures
        multiplied == src,
        divided == src,
{
    lemma_mul_div_255_extremes(src.0[0]);
    lemma_div_and_clip_extremes(src.0[0]);
    assert(multiplied.0 =~= src.0);
    assert(divided.0 =~= src.0);
}

/// A fully transparent pixel (alpha 0) gets a luma component of 0 both by
/// multiplying and by dividing by alpha.
pub proof fn lemma_transparent_pixel_cleared(src: U8x2, multiplied: U8x2, divided: U8x2)
    requires
        src.0[1] == 0,
        alpha_multiplied(src, multiplied),
        alpha_divided(src, divided),
    ensures
        multiplied.0[0] == 0 && multiplied.0[1] == 0,
        divided.0[0] == 0 && divided.0[1] == 0,
{
    lemma_mul_div_255_extremes(src.0[0]);
    lemma_div_and_clip_extremes(src.0[0]);
}

/// Multiplying by alpha gives every luma component `c` the value
/// `(c * alpha + 127) / 255`, that is `c * alpha / 255` rounded to the
/// nearest integer, and keeps alpha, for every alpha.
pub proof fn lemma_multiplied_components(src: U8x2, dst: U8x2)
    requires
        alpha_multiplied(src, dst),
    ensures
        forall|c: int| 0 <= c < 1 ==> #[trigger] dst.0[c] as int == (src.0[c] as int * src.0[1] as int + 127) / 255,
        dst.0[1] == src.0[1],
{
    assert forall|c: int| 0 <= c < 1 implies #[trigger] dst.0[c] as int == (src.0[c] as int * src.0[1] as int + 127) / 255 by {
        lemma_mul_div_255_formula(src.0[c], src.0[1]);
    }
}

/// Dividing by a nonzero alpha gives every luma component `c` the value
/// `c * r / 256` capped at 255, where `r = (255 * 512 / alpha + 1) / 2` is
/// `255 * 256 / alpha` rounded; a zero alpha gives zero. Alpha is kept.
pub proof fn lemma_divided_components(src: U8x2, dst: U8x2)
    requires
        alpha_divided(src, dst),
    ensures
        forall|c: int| 0 <= c < 1 ==> #[trigger] dst.0[c] as int == if src.0[1] == 0 {
            0
        } else {
            let r = (255int * 512int / (src.0[1] as int) + 1) / 2;
            if src.0[c] as int * r / 256 > 255 {
                255
            } else {
                src.0[c] as int * r / 256
            }
        },
        dst.0[1] == src.0[1],
{
    lemma_recip_alpha_formula(src.0[1]);
    assert forall|c: int| 0 <= c < 1 implies #[trigger] dst.0[c] as int == if src.0[1] == 0 {
        0
    } else {
        let r = (255int * 512int / (src.0[1] as int) + 1) / 2;
        if src.0[c] as int * r / 256 > 255 {
            255
        } else {
            src.0[c] as int * r / 256
        }
    } by {
        lemma_div_and_clip_formula(src.0[c], spec_recip_alpha(src.0[1]));
    }
}

} // verus!
