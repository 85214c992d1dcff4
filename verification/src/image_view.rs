//! Images: typed views whose pixels are stored row by row, and an
//! image view that carries its pixel type at run time.
use vstd::prelude::*;

use crate::pixels::{
    PixelType, F32, F32x2, F32x3, F32x4, I32, U16, U16x2, U16x3, U16x4, U8, U8x2, U8x3, U8x4,
};

verus! {

/// The rows of an image as sequences of pixels.
pub open spec fn rows_view<P>(rows: Seq<Vec<P>>) -> Seq<Seq<P>> {
    rows.map_values(|r: Vec<P>| r@)
}

/// An image with pixels of type `P`, stored as `height` rows of `width` pixels.
pub struct TypedImageView<P> {
    width: u32,
    height: u32,
    rows: Vec<Vec<P>>,
}

impl<P> TypedImageView<P> {
    #[verifier::type_invariant]
    spec fn inv(self) -> bool {
        &&& self.rows@.len() == self.height
        &&& forall|y: int| 0 <= y < self.rows@.len() ==> (#[trigger] self.rows@[y])@.len() == self.width
    }

    /// Width of the image in pixels.
    pub closed spec fn spec_width(&self) -> nat {
        self.width as nat
    }

    /// Height of the image in pixels.
    pub closed spec fn spec_height(&self) -> nat {
        self.height as nat
    }

    /// Rows of pixels of the image.
    pub closed spec fn spec_rows(&self) -> Seq<Seq<P>> {
        Seq::new(self.height as nat, |y: int| Seq::new(self.width as nat, |x: int| self.rows@[y]@[x]))
    }

    /// Every image has `height` rows of `width` pixels.
    pub broadcast proof fn lemma_shape(img: &TypedImageView<P>)
        ensures
            #[trigger] img.spec_rows().len() == img.spec_height(),
            img.spec_height() <= u32::MAX,
            img.spec_width() <= u32::MAX,
            forall|y: int| 0 <= y < img.spec_height() ==> (#[trigger] img.spec_rows()[y]).len() == img.spec_width(),
    {
    }

    proof fn lemma_rows_view(&self)
        requires
            self.inv(),
        ensures
            self.spec_rows() == rows_view(self.rows@),
    {
        assert(self.spec_rows() =~~= rows_view(self.rows@));
    }

    /// Creates an image from its rows; `None` when some row does not hold
    /// `width` pixels or the number of rows is not `height`.
    pub fn from_rows(width: u32, height: u32, rows: Vec<Vec<P>>) -> (r: Option<Self>)
        ensures
            r is Some <==> (rows@.len() == height && forall|y: int| 0 <= y < rows@.len() ==> (#[trigger] rows@[y])@.len() == width),
            r matches Some(img) ==> img.spec_width() == width && img.spec_height() == height
                && img.spec_rows() == rows_view(rows@),
    {
        if rows.len() != height as usize {
            return None;
        }
        let mut y: usize = 0;
        while y < rows.len()
            invariant
                y <= rows@.len(),
                forall|j: int| 0 <= j < y ==> (#[trigger] rows@[j])@.len() == width,
            decreases rows@.len() - y,
        {
            if rows[y].len() != width as usize {
                return None;
            }
            y += 1;
        }
        let img = TypedImageView { width, height, rows };
        proof {
            use_type_invariant(&img);
            img.lemma_rows_view();
        }
        Some(img)
    }

    /// Width of the image in pixels.
    pub fn width(&self) -> (r: u32)
        ensures
            r == self.spec_width(),
    {
        self.width
    }

    /// Height of the image in pixels.
    pub fn height(&self) -> (r: u32)
        ensures
            r == self.spec_height(),
    {
        self.height
    }

    /// The row with index `y`.
    pub fn row(&self, y: usize) -> (r: &Vec<P>)
        requires
            y < self.spec_height(),
        ensures
            r@ == self.spec_rows()[y as int],
            r@.len() == self.spec_width(),
    {
        proof {
            use_type_invariant(self);
            self.lemma_rows_view();
        }
        &self.rows[y]
    }

    /// Consumes the image and returns its rows.
    pub fn into_rows(self) -> (r: Vec<Vec<P>>)
        ensures
            rows_view(r@) == self.spec_rows(),
    {
        proof {
            use_type_invariant(&self);
            self.lemma_rows_view();
        }
        self.rows
    }
}

impl<P: Copy> TypedImageView<P> {
    /// Creates an image of the given size whose pixels all equal `pixel`.
    pub fn filled(width: u32, height: u32, pixel: P) -> (r: Self)
        ensures
            r.spec_width() == width,
            r.spec_height() == height,
            forall|y: int, x: int|
                0 <= y < height && 0 <= x < width ==> #[trigger] r.spec_rows()[y][x] == pixel,
    {
        let mut rows: Vec<Vec<P>> = Vec::new();
        let mut y: u32 = 0;
        while y < height
            invariant
                y <= height,
                rows@.len() == y,
                forall|j: int| 0 <= j < y ==> (#[trigger] rows@[j])@.len() == width,
                forall|j: int, x: int| 0 <= j < y && 0 <= x < width ==> #[trigger] rows@[j]@[x] == pixel,
            decreases height - y,
        {
            let mut row: Vec<P> = Vec::new();
            let mut x: u32 = 0;
            while x < width
                invariant
                    x <= width,
                    row@.len() == x,
                    forall|i: int| 0 <= i < x ==> #[trigger] row@[i] == pixel,
                decreases width - x,
            {
                row.push(pixel);
                x += 1;
            }
            rows.push(row);
            y += 1;
        }
        let img = TypedImageView { width, height, rows };
        proof {
            use_type_invariant(&img);
            img.lemma_rows_view();
        }
        img
    }

    /// Replaces the row with index `y` by `row`, which holds `width` pixels.
    pub fn set_row(&mut self, y: usize, row: Vec<P>)
        requires
            y < old(self).spec_height(),
            row@.len() == old(self).spec_width(),
        ensures
            final(self).spec_width() == old(self).spec_width(),
            final(self).spec_height() == old(self).spec_height(),
            final(self).spec_rows() == old(self).spec_rows().update(y as int, row@),
    {
        proof {
            use_type_invariant(&*self);
            self.lemma_rows_view();
        }
        let ghost old_rows = self.rows@;
        let ghost new_row = row@;
        let mut taken = TypedImageView { width: 0, height: 0, rows: Vec::new() };
        std::mem::swap(&mut taken, self);
        let TypedImageView { width, height, mut rows } = taken;
        rows[y] = row;
        *self = TypedImageView { width, height, rows };
        assert(rows_view(self.rows@) =~= rows_view(old_rows).update(y as int, new_row));
        proof {
            use_type_invariant(&*self);
            self.lemma_rows_view();
        }
    }
}

/// A copy of a row of pixels.
pub fn copy_row<P: Copy>(row: &Vec<P>) -> (r: Vec<P>)
    ensures
        r@ == row@,
{
    let mut res: Vec<P> = Vec::new();
    let mut x: usize = 0;
    while x < row.len()
        invariant
            x <= row@.len(),
            res@ == row@.subrange(0, x as int),
        decreases row@.len() - x,
    {
        res.push(row[x]);
        x += 1;
        assert(res@ =~= row@.subrange(0, x as int));
    }
    assert(res@ =~= row@);
    res
}

/// An image view whose pixel type is known at run time.
pub enum ImageView {
    U8(TypedImageView<U8>),
    U8x2(TypedImageView<U8x2>),
    U8x3(TypedImageView<U8x3>),
    U8x4(TypedImageView<U8x4>),
    U16(TypedImageView<U16>),
    U16x2(TypedImageView<U16x2>),
    U16x3(TypedImageView<U16x3>),
    U16x4(TypedImageView<U16x4>),
    I32(TypedImageView<I32>),
    F32(TypedImageView<F32>),
    F32x2(TypedImageView<F32x2>),
    F32x3(TypedImageView<F32x3>),
    F32x4(TypedImageView<F32x4>),
}

impl ImageView {
    /// Pixel type of the image.
    pub open spec fn spec_pixel_type(&self) -> PixelType {
        match self {
            ImageView::U8(_) => PixelType::U8,
            ImageView::U8x2(_) => PixelType::U8x2,
            ImageView::U8x3(_) => PixelType::U8x3,
            ImageView::U8x4(_) => PixelType::U8x4,
            ImageView::U16(_) => PixelType::U16,
            ImageView::U16x2(_) => PixelType::U16x2,
            ImageView::U16x3(_) => PixelType::U16x3,
            ImageView::U16x4(_) => PixelType::U16x4,
            ImageView::I32(_) => PixelType::I32,
            ImageView::F32(_) => PixelType::F32,
            ImageView::F32x2(_) => PixelType::F32x2,
            ImageView::F32x3(_) => PixelType::F32x3,
            ImageView::F32x4(_) => PixelType::F32x4,
        }
    }

    /// Width of the image in pixels.
    pub open spec fn spec_width(&self) -> nat {
        match self {
            ImageView::U8(i) => i.spec_width(),
            ImageView::U8x2(i) => i.spec_width(),
            ImageView::U8x3(i) => i.spec_width(),
            ImageView::U8x4(i) => i.spec_width(),
            ImageView::U16(i) => i.spec_width(),
            ImageView::U16x2(i) => i.spec_width(),
            ImageView::U16x3(i) => i.spec_width(),
            ImageView::U16x4(i) => i.spec_width(),
            ImageView::I32(i) => i.spec_width(),
            ImageView::F32(i) => i.spec_width(),
            ImageView::F32x2(i) => i.spec_width(),
            ImageView::F32x3(i) => i.spec_width(),
            ImageView::F32x4(i) => i.spec_width(),
        }
    }

    /// Height of the image in pixels.
    pub open spec fn spec_height(&self) -> nat {
        match self {
            ImageView::U8(i) => i.spec_height(),
            ImageView::U8x2(i) => i.spec_height(),
            ImageView::U8x3(i) => i.spec_height(),
            ImageView::U8x4(i) => i.spec_height(),
            ImageView::U16(i) => i.spec_height(),
            ImageView::U16x2(i) => i.spec_height(),
            ImageView::U16x3(i) => i.spec_height(),
            ImageView::U16x4(i) => i.spec_height(),
            ImageView::I32(i) => i.spec_height(),
            ImageView::F32(i) => i.spec_height(),
            ImageView::F32x2(i) => i.spec_height(),
            ImageView::F32x3(i) => i.spec_height(),
            ImageView::F32x4(i) => i.spec_height(),
        }
    }

    /// Pixel type of the image.
    pub fn pixel_type(&self) -> (r: PixelType)
        ensures
            r == self.spec_pixel_type(),
    {
        match self {
            ImageView::U8(_) => PixelType::U8,
            ImageView::U8x2(_) => PixelType::U8x2,
            ImageView::U8x3(_) => PixelType::U8x3,
            ImageView::U8x4(_) => PixelType::U8x4,
            ImageView::U16(_) => PixelType::U16,
            ImageView::U16x2(_) => PixelType::U16x2,
            ImageView::U16x3(_) => PixelType::U16x3,
            ImageView::U16x4(_) => PixelType::U16x4,
            ImageView::I32(_) => PixelType::I32,
            ImageView::F32(_) => PixelType::F32,
            ImageView::F32x2(_) => PixelType::F32x2,
            ImageView::F32x3(_) => PixelType::F32x3,
            ImageView::F32x4(_) => PixelType::F32x4,
        }
    }

    /// Width of the image in pixels.
    pub fn width(&self) -> (r: u32)
        ensures
            r == self.spec_width(),
    {
        match self {
            ImageView::U8(i) => i.width(),
            ImageView::U8x2(i) => i.width(),
            ImageView::U8x3(i) => i.width(),
            ImageView::U8x4(i) => i.width(),
            ImageView::U16(i) => i.width(),
            ImageView::U16x2(i) => i.width(),
            ImageView::U16x3(i) => i.width(),
            ImageView::U16x4(i) => i.width(),
            ImageView::I32(i) => i.width(),
            ImageView::F32(i) => i.width(),
            ImageView::F32x2(i) => i.width(),
            ImageView::F32x3(i) => i.width(),
            ImageView::F32x4(i) => i.width(),
        }
    }

    /// Height of the image in pixels.
    pub fn height(&self) -> (r: u32)
        ensures
            r == self.spec_height(),
    {
        match self {
            ImageView::U8(i) => i.height(),
            ImageView::U8x2(i) => i.height(),
            ImageView::U8x3(i) => i.height(),
            ImageView::U8x4(i) => i.height(),
            ImageView::U16(i) => i.height(),
            ImageView::U16x2(i) => i.height(),
            ImageView::U16x3(i) => i.height(),
            ImageView::U16x4(i) => i.height(),
            ImageView::I32(i) => i.height(),
            ImageView::F32(i) => i.height(),
            ImageView::F32x2(i) => i.height(),
            ImageView::F32x3(i) => i.height(),
            ImageView::F32x4(i) => i.height(),
        }
    }
}

/// The two images have the same dimensions and the same pixels.
pub open spec fn same_typed_image<P>(a: TypedImageView<P>, b: TypedImageView<P>) -> bool {
    &&& a.spec_width() == b.spec_width()
    &&& a.spec_height() == b.spec_height()
    &&& a.spec_rows() == b.spec_rows()
}

/// The two images have the same pixel type, dimensions and pixels.
pub open spec fn same_image(a: ImageView, b: ImageView) -> bool {
    match (a, b) {
        (ImageView::U8(x), ImageView::U8(y)) => same_typed_image(x, y),
        (ImageView::U8x2(x), ImageView::U8x2(y)) => same_typed_image(x, y),
        (ImageView::U8x3(x), ImageView::U8x3(y)) => same_typed_image(x, y),
        (ImageView::U8x4(x), ImageView::U8x4(y)) => same_typed_image(x, y),
        (ImageView::U16(x), ImageView::U16(y)) => same_typed_image(x, y),
        (ImageView::U16x2(x), ImageView::U16x2(y)) => same_typed_image(x, y),
        (ImageView::U16x3(x), ImageView::U16x3(y)) => same_typed_image(x, y),
        (ImageView::U16x4(x), ImageView::U16x4(y)) => same_typed_image(x, y),
        (ImageView::I32(x), ImageView::I32(y)) => same_typed_image(x, y),
        (ImageView::F32(x), ImageView::F32(y)) => same_typed_image(x, y),
        (ImageView::F32x2(x), ImageView::F32x2(y)) => same_typed_image(x, y),
        (ImageView::F32x3(x), ImageView::F32x3(y)) => same_typed_image(x, y),
        (ImageView::F32x4(x), ImageView::F32x4(y)) => same_typed_image(x, y),
        _ => false,
    }
}

/// Errors of mapping the pixels of an image into another image.
#[derive(Clone, Copy, Debug, PartialEq, Eq, Structural)]
pub enum MappingError {
    /// The pixel types of the source and destination images cannot be combined.
    UnsupportedCombinationOfImageTypes,
    /// The source and destination images have different dimensions.
    DifferentDimensions,
}

/// The source and destination images have different dimensions.
#[derive(Clone, Copy, Debug, PartialEq, Eq, Structural)]
pub struct DifferentDimensionsError;

} // verus!
