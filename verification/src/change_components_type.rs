//! Changing the type of pixel components of images (`u8` into `u16` and back).
use vstd::prelude::*;

use crate::image_view::{copy_row, DifferentDimensionsError, ImageView, MappingError, TypedImageView};
use crate::pixels::{lemma_component_conversions, IntoPixelComponent, Pixel};

verus! {

broadcast use TypedImageView::lemma_shape;

/// Every component of `dst` is the converted component of `src`.
pub open spec fn components_converted<S: IntoPixelComponent<D>, D, const N: usize>(
    src: Pixel<S, N>,
    dst: Pixel<D, N>,
) -> bool {
    forall|c: int| 0 <= c < N ==> #[trigger] dst.0[c] == src.0[c].converted()
}

/// `new_dst` has the dimensions of `old_dst` and holds the pixels of `src`
/// with converted components.
pub open spec fn image_components_converted<S: IntoPixelComponent<D>, D, const N: usize>(
    src: TypedImageView<Pixel<S, N>>,
    old_dst: TypedImageView<Pixel<D, N>>,
    new_dst: TypedImageView<Pixel<D, N>>,
) -> bool {
    &&& new_dst.spec_width() == old_dst.spec_width()
    &&& new_dst.spec_height() == old_dst.spec_height()
    &&& forall|y: int, x: int|
        0 <= y < src.spec_height() && 0 <= x < src.spec_width() ==> components_converted(
            src.spec_rows()[y][x],
            #[trigger] new_dst.spec_rows()[y][x],
        )
}

/// Converts every component of `pixel`, overwriting the components of `target`.
fn convert_pixel<S: IntoPixelComponent<D>, D: Copy, const N: usize>(pixel: Pixel<S, N>, target: Pixel<D, N>) -> (r: Pixel<D, N>)
    ensures
        components_converted(pixel, r),
{
    let mut out: [D; N] = target.0;
    let mut c: usize = 0;
    while c < N
        invariant
            c <= N,
            forall|k: int| 0 <= k < c ==> #[trigger] out[k] == pixel.0[k].converted(),
        decreases N - c,
    {
        let v = pixel.0[c];
        out[c] = v.into_component();
        c += 1;
    }
    Pixel(out)
}

/// Writes into `dst_image` the pixels of `src_image` with every component
/// converted into the component type of `dst_image`; fails when the
/// dimensions of the images differ.
pub fn change_type_of_pixel_components_typed<S: IntoPixelComponent<D>, D: Copy, const N: usize>(
    src_image: &TypedImageView<Pixel<S, N>>,
    dst_image: &mut TypedImageView<Pixel<D, N>>,
) -> (r: Result<(), DifferentDimensionsError>)
    ensures
        r is Ok <==> src_image.spec_width() == old(dst_image).spec_width()
            && src_image.spec_height() == old(dst_image).spec_height(),
        r is Ok ==> image_components_converted(*src_image, *old(dst_image), *final(dst_image)),
        r is Err ==> *final(dst_image) == *old(dst_image),
{
    if src_image.width() != dst_image.width() || src_image.height() != dst_image.height() {
        return Err(DifferentDimensionsError);
    }
    let height = src_image.height();
    let mut y: u32 = 0;
    while y < height
        invariant
            height == src_image.spec_height(),
            y <= height,
            dst_image.spec_width() == old(dst_image).spec_width(),
            dst_image.spec_height() == old(dst_image).spec_height(),
            src_image.spec_width() == dst_image.spec_width(),
            src_image.spec_height() == dst_image.spec_height(),
            forall|j: int, x: int|
                0 <= j < y && 0 <= x < src_image.spec_width() ==> components_converted(
                    src_image.spec_rows()[j][x],
                    #[trigger] dst_image.spec_rows()[j][x],
                ),
        decreases height - y,
    {
        let src_row = src_image.row(y as usize);
        let mut row = copy_row(dst_image.row(y as usize));
        let mut x: usize = 0;
        while x < row.len()
            invariant
                x <= row@.len(),
                row@.len() == src_row@.len(),
                forall|i: int| 0 <= i < x ==> components_converted(src_row@[i], #[trigger] row@[i]),
            decreases row@.len() - x,
        {
            let target = row[x];
            row[x] = convert_pixel(src_row[x], target);
            x += 1;
        }
        dst_image.set_row(y as usize, row);
        y += 1;
    }
    Ok(())
}

/// Changes the component type of a typed image; a difference of dimensions
/// is reported as `MappingError::DifferentDimensions`.
fn change_components_type<S: IntoPixelComponent<D>, D: Copy, const N: usize>(
    src_image: &TypedImageView<Pixel<S, N>>,
    dst_image: &mut TypedImageView<Pixel<D, N>>,
) -> (r: Result<(), MappingError>)
    ensures
        r == if src_image.spec_width() == old(dst_image).spec_width()
            && src_image.spec_height() == old(dst_image).spec_height() {
            Ok(())
        } else {
            Err(MappingError::DifferentDimensions)
        },
        r is Ok ==> image_components_converted(*src_image, *old(dst_image), *final(dst_image)),
        r is Err ==> *final(dst_image) == *old(dst_image),
{
    match change_type_of_pixel_components_typed(src_image, dst_image) {
        Ok(()) => Ok(()),
        Err(_) => Err(MappingError::DifferentDimensions),
    }
}

/// Whether the component type of `src` can be changed into that of `dst`:
/// both have `u8` or `u16` components and the same number of components per pixel.
pub open spec fn is_convertible_combination(src: ImageView, dst: ImageView) -> bool {
    match (src, dst) {
        (ImageView::U8(_), ImageView::U8(_)) => true,
        (ImageView::U8(_), ImageView::U16(_)) => true,
        (ImageView::U16(_), ImageView::U8(_)) => true,
        (ImageView::U16(_), ImageView::U16(_)) => true,
        (ImageView::U8x2(_), ImageView::U8x2(_)) => true,
        (ImageView::U8x2(_), ImageView::U16x2(_)) => true,
        (ImageView::U16x2(_), ImageView::U8x2(_)) => true,
        (ImageView::U16x2(_), ImageView::U16x2(_)) => true,
        (ImageView::U8x3(_), ImageView::U8x3(_)) => true,
        (ImageView::U8x3(_), ImageView::U16x3(_)) => true,
        (ImageView::U16x3(_), ImageView::U8x3(_)) => true,
        (ImageView::U16x3(_), ImageView::U16x3(_)) => true,
        (ImageView::U8x4(_), ImageView::U8x4(_)) => true,
        (ImageView::U8x4(_), ImageView::U16x4(_)) => true,
        (ImageView::U16x4(_), ImageView::U8x4(_)) => true,
        (ImageView::U16x4(_), ImageView::U16x4(_)) => true,
        _ => false,
    }
}

/// `new_dst` is `old_dst` filled with the pixels of `src` with converted components.
pub open spec fn dyn_components_converted(src: ImageView, old_dst: ImageView, new_dst: ImageView) -> bool {
    match (src, old_dst, new_dst) {
        (ImageView::U8(s), ImageView::U8(o), ImageView::U8(n)) => image_components_converted(s, o, n),
        (ImageView::U8(s), ImageView::U16(o), ImageView::U16(n)) => image_components_converted(s, o, n),
        (ImageView::U16(s), ImageView::U8(o), ImageView::U8(n)) => image_components_converted(s, o, n),
        (ImageView::U16(s), ImageView::U16(o), ImageView::U16(n)) => image_components_converted(s, o, n),
        (ImageView::U8x2(s), ImageView::U8x2(o), ImageView::U8x2(n)) => image_components_converted(s, o, n),
        (ImageView::U8x2(s), ImageView::U16x2(o), ImageView::U16x2(n)) => image_components_converted(s, o, n),
        (ImageView::U16x2(s), ImageView::U8x2(o), ImageView::U8x2(n)) => image_components_converted(s, o, n),
        (ImageView::U16x2(s), ImageView::U16x2(o), ImageView::U16x2(n)) => image_components_converted(s, o, n),
        (ImageView::U8x3(s), ImageView::U8x3(o), ImageView::U8x3(n)) => image_components_converted(s, o, n),
        (ImageView::U8x3(s), ImageView::U16x3(o), ImageView::U16x3(n)) => image_components_converted(s, o, n),
        (ImageView::U16x3(s), ImageView::U8x3(o), ImageView::U8x3(n)) => image_components_converted(s, o, n),
        (ImageView::U16x3(s), ImageView::U16x3(o), ImageView::U16x3(n)) => image_components_converted(s, o, n),
        (ImageView::U8x4(s), ImageView::U8x4(o), ImageView::U8x4(n)) => image_components_converted(s, o, n),
        (ImageView::U8x4(s), ImageView::U16x4(o), ImageView::U16x4(n)) => image_components_converted(s, o, n),
        (ImageView::U16x4(s), ImageView::U8x4(o), ImageView::U8x4(n)) => image_components_converted(s, o, n),
        (ImageView::U16x4(s), ImageView::U16x4(o), ImageView::U16x4(n)) => image_components_converted(s, o, n),
        _ => false,
    }
}

/// Writes into `dst_image` the pixels of `src_image` with every component
/// converted into the component type of `dst_image`. Fails when the pixel
/// types cannot be combined, then when the dimensions differ.
pub fn change_type_of_pixel_components(src_image: &ImageView, dst_image: &mut ImageView) -> (r: Result<(), MappingError>)
    ensures
        r == if !is_convertible_combination(*src_image, *old(dst_image)) {
            Err(MappingError::UnsupportedCombinationOfImageTypes)
        } else if src_image.spec_width() != old(dst_image).spec_width()
            || src_image.spec_height() != old(dst_image).spec_height() {
            Err(MappingError::DifferentDimensions)
        } else {
            Ok(())
        },
        r is Ok ==> dyn_components_converted(*src_image, *old(dst_image), *final(dst_image)),
        r is Err ==> *final(dst_image) == *old(dst_image),
        src_image.spec_width() == old(dst_image).spec_width()
            && src_image.spec_height() == old(dst_image).spec_height()
            && ((((*src_image) is U8 || (*src_image) is U16) && ((*old(dst_image)) is U8 || (*old(dst_image)) is U16))
                || (((*src_image) is U8x2 || (*src_image) is U16x2) && ((*old(dst_image)) is U8x2 || (*old(dst_image)) is U16x2))
                || (((*src_image) is U8x3 || (*src_image) is U16x3) && ((*old(dst_image)) is U8x3 || (*old(dst_image)) is U16x3))
                || (((*src_image) is U8x4 || (*src_image) is U16x4) && ((*old(dst_image)) is U8x4 || (*old(dst_image)) is U16x4))) ==> r is Ok,
{
    match src_image {
        ImageView::U8(s) => match dst_image {
            ImageView::U8(d) => change_components_type(s, d),
            ImageView::U16(d) => change_components_type(s, d),
            _ => Err(MappingError::UnsupportedCombinationOfImageTypes),
        },
        ImageView::U8x2(s) => match dst_image {
            ImageView::U8x2(d) => change_components_type(s, d),
            ImageView::U16x2(d) => change_components_type(s, d),
            _ => Err(MappingError::UnsupportedCombinationOfImageTypes),
        },
        ImageView::U8x3(s) => match dst_image {
            ImageView::U8x3(d) => change_components_type(s, d),
            ImageView::U16x3(d) => change_components_type(s, d),
            _ => Err(MappingError::UnsupportedCombinationOfImageTypes),
        },
        ImageView::U8x4(s) => match dst_image {
            ImageView::U8x4(d) => change_components_type(s, d),
            ImageView::U16x4(d) => change_components_type(s, d),
            _ => Err(MappingError::UnsupportedCombinationOfImageTypes),
        },
        ImageView::U16(s) => match dst_image {
            ImageView::U8(d) => change_components_type(s, d),
            ImageView::U16(d) => change_components_type(s, d),
            _ => Err(MappingError::UnsupportedCombinationOfImageTypes),
        },
        ImageView::U16x2(s) => match dst_image {
            ImageView::U8x2(d) => change_components_type(s, d),
            ImageView::U16x2(d) => change_components_type(s, d),
            _ => Err(MappingError::UnsupportedCombinationOfImageTypes),
        },
        ImageView::U16x3(s) => match dst_image {
            ImageView::U8x3(d) => change_components_type(s, d),
            ImageView::U16x3(d) => change_components_type(s, d),
            _ => Err(MappingError::UnsupportedCombinationOfImageTypes),
        },
        ImageView::U16x4(s) => match dst_image {
            ImageView::U8x4(d) => change_components_type(s, d),
            ImageView::U16x4(d) => change_components_type(s, d),
            _ => Err(MappingError::UnsupportedCombinationOfImageTypes),
        },
        _ => Err(MappingError::UnsupportedCombinationOfImageTypes),
    }
}

/// An 8-bit component converted into 16 bits and back is unchanged.
pub proof fn lemma_u8_u16_u8_roundtrip(v: u8)
    ensures
        IntoPixelComponent::<u8>::converted(IntoPixelComponent::<u16>::converted(v)) == v,
{
    assert((v as int * 257) / 256 == v as int) by (nonlinear_arith)
        requires
            0 <= v <= 255,
    ;
    assert(v as int * 257 <= 65535) by (nonlinear_arith)
        requires
            0 <= v <= 255,
    ;
}

/// Changing an image with `u8` components into `u16` components and then
/// back into `u8` components gives the original pixels.
pub proof fn lemma_change_type_roundtrip<const N: usize>(
    src: TypedImageView<Pixel<u8, N>>,
    old_wide: TypedImageView<Pixel<u16, N>>,
    wide: TypedImageView<Pixel<u16, N>>,
    old_back: TypedImageView<Pixel<u8, N>>,
    back: TypedImageView<Pixel<u8, N>>,
)
    requires
        src.spec_width() == old_wide.spec_width(),
        src.spec_height() == old_wide.spec_height(),
        wide.spec_width() == old_back.spec_width(),
        wide.spec_height() == old_back.spec_height(),
        image_components_converted(src, old_wide, wide),
        image_components_converted(wide, old_back, back),
    ensures
        back.spec_width() == src.spec_width(),
        back.spec_height() == src.spec_height(),
        forall|y: int, x: int|
            0 <= y < src.spec_height() && 0 <= x < src.spec_width() ==> #[trigger] back.spec_rows()[y][x] == src.spec_rows()[y][x],
{
    assert forall|y: int, x: int|
        0 <= y < src.spec_height() && 0 <= x < src.spec_width() implies #[trigger] back.spec_rows()[y][x] == src.spec_rows()[y][x] by {
        let a = src.spec_rows()[y][x];
        let b = wide.spec_rows()[y][x];
        let c = back.spec_rows()[y][x];
        assert forall|k: int| 0 <= k < N implies c.0[k] == a.0[k] by {
            lemma_u8_u16_u8_roundtrip(a.0[k]);
            assert(b.0[k] == IntoPixelComponent::<u16>::converted(a.0[k]));
            assert(c.0[k] == IntoPixelComponent::<u8>::converted(b.0[k]));
        }
        assert(c.0 =~= a.0);
    }
}

/// The component type can be changed exactly between images whose pixels
/// have `u8` or `u16` components and the same number of components.
pub proof fn lemma_convertible_combinations(src: ImageView, dst: ImageView)
    ensures
        is_convertible_combination(src, dst) <==> ((src is U8 || src is U16) && (dst is U8 || dst is U16))
            || ((src is U8x2 || src is U16x2) && (dst is U8x2 || dst is U16x2))
            || ((src is U8x3 || src is U16x3) && (dst is U8x3 || dst is U16x3))
            || ((src is U8x4 || src is U16x4) && (dst is U8x4 || dst is U16x4)),
{
}

/// A conversion keeps the pixel type and the dimensions of the destination
/// image, and every component inside the source image becomes the converted
/// source component: `v * 257` from `u8` into `u16`, `v / 256` from `u16`
/// into `u8`, `v` into the same type.
pub proof fn lemma_conversion_result(src: ImageView, old_dst: ImageView, new_dst: ImageView)
    requires
        dyn_components_converted(src, old_dst, new_dst),
    ensures
        old_dst.spec_pixel_type() == new_dst.spec_pixel_type(),
        new_dst.spec_width() == old_dst.spec_width(),
        new_dst.spec_height() == old_dst.spec_height(),
        src matches ImageView::U8(s) ==> new_dst matches ImageView::U16(n) ==> forall|y: int, x: int, c: int|
            0 <= y < s.spec_height() && 0 <= x < s.spec_width() && 0 <= c < 1
                ==> #[trigger] n.spec_rows()[y][x].0[c] as int == s.spec_rows()[y][x].0[c] as int * 257,
        src matches ImageView::U16(s) ==> new_dst matches ImageView::U8(n) ==> forall|y: int, x: int, c: int|
            0 <= y < s.spec_height() && 0 <= x < s.spec_width() && 0 <= c < 1
                ==> #[trigger] n.spec_rows()[y][x].0[c] as int == s.spec_rows()[y][x].0[c] as int / 256,
        src matches ImageView::U8(s) ==> new_dst matches ImageView::U8(n) ==> forall|y: int, x: int, c: int|
            0 <= y < s.spec_height() && 0 <= x < s.spec_width() && 0 <= c < 1
                ==> #[trigger] n.spec_rows()[y][x].0[c] as int == s.spec_rows()[y][x].0[c] as int,
        src matches ImageView::U16(s) ==> new_dst matches ImageView::U16(n) ==> forall|y: int, x: int, c: int|
            0 <= y < s.spec_height() && 0 <= x < s.spec_width() && 0 <= c < 1
                ==> #[trigger] n.spec_rows()[y][x].0[c] as int == s.spec_rows()[y][x].0[c] as int,
        src matches ImageView::U8x2(s) ==> new_dst matches ImageView::U16x2(n) ==> forall|y: int, x: int, c: int|
            0 <= y < s.spec_height() && 0 <= x < s.spec_width() && 0 <= c < 2
                ==> #[trigger] n.spec_rows()[y][x].0[c] as int == s.spec_rows()[y][x].0[c] as int * 257,
        src matches ImageView::U16x2(s) ==> new_dst matches ImageView::U8x2(n) ==> forall|y: int, x: int, c: int|
            0 <= y < s.spec_height() && 0 <= x < s.spec_width() && 0 <= c < 2
                ==> #[trigger] n.spec_rows()[y][x].0[c] as int == s.spec_rows()[y][x].0[c] as int / 256,
        src matches ImageView::U8x2(s) ==> new_dst matches ImageView::U8x2(n) ==> forall|y: int, x: int, c: int|
            0 <= y < s.spec_height() && 0 <= x < s.spec_width() && 0 <= c < 2
                ==> #[trigger] n.spec_rows()[y][x].0[c] as int == s.spec_rows()[y][x].0[c] as int,
        src matches ImageView::U16x2(s) ==> new_dst matches ImageView::U16x2(n) ==> forall|y: int, x: int, c: int|
            0 <= y < s.spec_height() && 0 <= x < s.spec_width() && 0 <= c < 2
                ==> #[trigger] n.spec_rows()[y][x].0[c] as int == s.spec_rows()[y][x].0[c] as int,
        src matches ImageView::U8x3(s) ==> new_dst matches ImageView::U16x3(n) ==> forall|y: int, x: int, c: int|
            0 <= y < s.spec_height() && 0 <= x < s.spec_width() && 0 <= c < 3
                ==> #[trigger] n.spec_rows()[y][x].0[c] as int == s.spec_rows()[y][x].0[c] as int * 257,
        src matches ImageView::U16x3(s) ==> new_dst matches ImageView::U8x3(n) ==> forall|y: int, x: int, c: int|
            0 <= y < s.spec_height() && 0 <= x < s.spec_width() && 0 <= c < 3
                ==> #[trigger] n.spec_rows()[y][x].0[c] as int == s.spec_rows()[y][x].0[c] as int / 256,
        src matches ImageView::U8x3(s) ==> new_dst matches ImageView::U8x3(n) ==> forall|y: int, x: int, c: int|
            0 <= y < s.spec_height() && 0 <= x < s.spec_width() && 0 <= c < 3
                ==> #[trigger] n.spec_rows()[y][x].0[c] as int == s.spec_rows()[y][x].0[c] as int,
        src matches ImageView::U16x3(s) ==> new_dst matches ImageView::U16x3(n) ==> forall|y: int, x: int, c: int|
            0 <= y < s.spec_height() && 0 <= x < s.spec_width() && 0 <= c < 3
                ==> #[trigger] n.spec_rows()[y][x].0[c] as int == s.spec_rows()[y][x].0[c] as int,
        src matches ImageView::U8x4(s) ==> new_dst matches ImageView::U16x4(n) ==> forall|y: int, x: int, c: int|
            0 <= y < s.spec_height() && 0 <= x < s.spec_width() && 0 <= c < 4
                ==> #[trigger] n.spec_rows()[y][x].0[c] as int == s.spec_rows()[y][x].0[c] as int * 257,
        src matches ImageView::U16x4(s) ==> new_dst matches ImageView::U8x4(n) ==> forall|y: int, x: int, c: int|
            0 <= y < s.spec_height() && 0 <= x < s.spec_width() && 0 <= c < 4
                ==> #[trigger] n.spec_rows()[y][x].0[c] as int == s.spec_rows()[y][x].0[c] as int / 256,
        src matches ImageView::U8x4(s) ==> new_dst matches ImageView::U8x4(n) ==> forall|y: int, x: int, c: int|
            0 <= y < s.spec_height() && 0 <= x < s.spec_width() && 0 <= c < 4
                ==> #[trigger] n.spec_rows()[y][x].0[c] as int == s.spec_rows()[y][x].0[c] as int,
        src matches ImageView::U16x4(s) ==> new_dst matches ImageView::U16x4(n) ==> forall|y: int, x: int, c: int|
            0 <= y < s.spec_height() && 0 <= x < s.spec_width() && 0 <= c < 4
                ==> #[trigger] n.spec_rows()[y][x].0[c] as int == s.spec_rows()[y][x].0[c] as int,
{
    match (src, new_dst) {
        (ImageView::U8(s), ImageView::U16(n)) => {
            assert forall|y: int, x: int, c: int|
                0 <= y < s.spec_height() && 0 <= x < s.spec_width() && 0 <= c < 1
                    implies #[trigger] n.spec_rows()[y][x].0[c] as int == s.spec_rows()[y][x].0[c] as int * 257 by {
                assert(components_converted(s.spec_rows()[y][x], n.spec_rows()[y][x]));
                lemma_component_conversions(s.spec_rows()[y][x].0[c], 0);
            }
        },
        (ImageView::U16(s), ImageView::U8(n)) => {
            assert forall|y: int, x: int, c: int|
                0 <= y < s.spec_height() && 0 <= x < s.spec_width() && 0 <= c < 1
                    implies #[trigger] n.spec_rows()[y][x].0[c] as int == s.spec_rows()[y][x].0[c] as int / 256 by {
                assert(components_converted(s.spec_rows()[y][x], n.spec_rows()[y][x]));
                lemma_component_conversions(0, s.spec_rows()[y][x].0[c]);
            }
        },
        (ImageView::U8(s), ImageView::U8(n)) => {
            assert forall|y: int, x: int, c: int|
                0 <= y < s.spec_height() && 0 <= x < s.spec_width() && 0 <= c < 1
                    implies #[trigger] n.spec_rows()[y][x].0[c] as int == s.spec_rows()[y][x].0[c] as int by {
                assert(components_converted(s.spec_rows()[y][x], n.spec_rows()[y][x]));
                lemma_component_conversions(s.spec_rows()[y][x].0[c], 0);
            }
        },
        (ImageView::U16(s), ImageView::U16(n)) => {
            assert forall|y: int, x: int, c: int|
                0 <= y < s.spec_height() && 0 <= x < s.spec_width() && 0 <= c < 1
                    implies #[trigger] n.spec_rows()[y][x].0[c] as int == s.spec_rows()[y][x].0[c] as int by {
                assert(components_converted(s.spec_rows()[y][x], n.spec_rows()[y][x]));
                lemma_component_conversions(0, s.spec_rows()[y][x].0[c]);
            }
        },
        (ImageView::U8x2(s), ImageView::U16x2(n)) => {
            assert forall|y: int, x: int, c: int|
                0 <= y < s.spec_height() && 0 <= x < s.spec_width() && 0 <= c < 2
                    implies #[trigger] n.spec_rows()[y][x].0[c] as int == s.spec_rows()[y][x].0[c] as int * 257 by {
                assert(components_converted(s.spec_rows()[y][x], n.spec_rows()[y][x]));
                lemma_component_conversions(s.spec_rows()[y][x].0[c], 0);
            }
        },
        (ImageView::U16x2(s), ImageView::U8x2(n)) => {
            assert forall|y: int, x: int, c: int|
                0 <= y < s.spec_height() && 0 <= x < s.spec_width() && 0 <= c < 2
                    implies #[trigger] n.spec_rows()[y][x].0[c] as int == s.spec_rows()[y][x].0[c] as int / 256 by {
                assert(components_converted(s.spec_rows()[y][x], n.spec_rows()[y][x]));
                lemma_component_conversions(0, s.spec_rows()[y][x].0[c]);
            }
        },
        (ImageView::U8x2(s), ImageView::U8x2(n)) => {
            assert forall|y: int, x: int, c: int|
                0 <= y < s.spec_height() && 0 <= x < s.spec_width() && 0 <= c < 2
                    implies #[trigger] n.spec_rows()[y][x].0[c] as int == s.spec_rows()[y][x].0[c] as int by {
                assert(components_converted(s.spec_rows()[y][x], n.spec_rows()[y][x]));
                lemma_component_conversions(s.spec_rows()[y][x].0[c], 0);
            }
        },
        (ImageView::U16x2(s), ImageView::U16x2(n)) => {
            assert forall|y: int, x: int, c: int|
                0 <= y < s.spec_height() && 0 <= x < s.spec_width() && 0 <= c < 2
                    implies #[trigger] n.spec_rows()[y][x].0[c] as int == s.spec_rows()[y][x].0[c] as int by {
                assert(components_converted(s.spec_rows()[y][x], n.spec_rows()[y][x]));
                lemma_component_conversions(0, s.spec_rows()[y][x].0[c]);
            }
        },
        (ImageView::U8x3(s), ImageView::U16x3(n)) => {
            assert forall|y: int, x: int, c: int|
                0 <= y < s.spec_height() && 0 <= x < s.spec_width() && 0 <= c < 3
                    implies #[trigger] n.spec_rows()[y][x].0[c] as int == s.spec_rows()[y][x].0[c] as int * 257 by {
                assert(components_converted(s.spec_rows()[y][x], n.spec_rows()[y][x]));
                lemma_component_conversions(s.spec_rows()[y][x].0[c], 0);
            }
        },
        (ImageView::U16x3(s), ImageView::U8x3(n)) => {
            assert forall|y: int, x: int, c: int|
                0 <= y < s.spec_height() && 0 <= x < s.spec_width() && 0 <= c < 3
                    implies #[trigger] n.spec_rows()[y][x].0[c] as int == s.spec_rows()[y][x].0[c] as int / 256 by {
                assert(components_converted(s.spec_rows()[y][x], n.spec_rows()[y][x]));
                lemma_component_conversions(0, s.spec_rows()[y][x].0[c]);
            }
        },
        (ImageView::U8x3(s), ImageView::U8x3(n)) => {
            assert forall|y: int, x: int, c: int|
                0 <= y < s.spec_height() && 0 <= x < s.spec_width() && 0 <= c < 3
                    implies #[trigger] n.spec_rows()[y][x].0[c] as int == s.spec_rows()[y][x].0[c] as int by {
                assert(components_converted(s.spec_rows()[y][x], n.spec_rows()[y][x]));
                lemma_component_conversions(s.spec_rows()[y][x].0[c], 0);
            }
        },
        (ImageView::U16x3(s), ImageView::U16x3(n)) => {
            assert forall|y: int, x: int, c: int|
                0 <= y < s.spec_height() && 0 <= x < s.spec_width() && 0 <= c < 3
                    implies #[trigger] n.spec_rows()[y][x].0[c] as int == s.spec_rows()[y][x].0[c] as int by {
                assert(components_converted(s.spec_rows()[y][x], n.spec_rows()[y][x]));
                lemma_component_conversions(0, s.spec_rows()[y][x].0[c]);
            }
        },
        (ImageView::U8x4(s), ImageView::U16x4(n)) => {
            assert forall|y: int, x: int, c: int|
                0 <= y < s.spec_height() && 0 <= x < s.spec_width() && 0 <= c < 4
                    implies #[trigger] n.spec_rows()[y][x].0[c] as int == s.spec_rows()[y][x].0[c] as int * 257 by {
                assert(components_converted(s.spec_rows()[y][x], n.spec_rows()[y][x]));
                lemma_component_conversions(s.spec_rows()[y][x].0[c], 0);
            }
        },
        (ImageView::U16x4(s), ImageView::U8x4(n)) => {
            assert forall|y: int, x: int, c: int|
                0 <= y < s.spec_height() && 0 <= x < s.spec_width() && 0 <= c < 4
                    implies #[trigger] n.spec_rows()[y][x].0[c] as int == s.spec_rows()[y][x].0[c] as int / 256 by {
                assert(components_converted(s.spec_rows()[y][x], n.spec_rows()[y][x]));
                lemma_component_conversions(0, s.spec_rows()[y][x].0[c]);
            }
        },
        (ImageView::U8x4(s), ImageView::U8x4(n)) => {
            assert forall|y: int, x: int, c: int|
                0 <= y < s.spec_height() && 0 <= x < s.spec_width() && 0 <= c < 4
                    implies #[trigger] n.spec_rows()[y][x].0[c] as int == s.spec_rows()[y][x].0[c] as int by {
                assert(components_converted(s.spec_rows()[y][x], n.spec_rows()[y][x]));
                lemma_component_conversions(s.spec_rows()[y][x].0[c], 0);
            }
        },
        (ImageView::U16x4(s), ImageView::U16x4(n)) => {
            assert forall|y: int, x: int, c: int|
                0 <= y < s.spec_height() && 0 <= x < s.spec_width() && 0 <= c < 4
                    implies #[trigger] n.spec_rows()[y][x].0[c] as int == s.spec_rows()[y][x].0[c] as int by {
                assert(components_converted(s.spec_rows()[y][x], n.spec_rows()[y][x]));
                lemma_component_conversions(0, s.spec_rows()[y][x].0[c]);
            }
        },
        _ => {},
    }
}

} // verus!
