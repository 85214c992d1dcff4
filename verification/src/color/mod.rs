//! Mapping the values of pixel components through tables, for working with
//! colorspaces and gamma.
use core::marker::PhantomData;
use vstd::prelude::*;

use crate::image_view::{copy_row, same_image, same_typed_image, ImageView, MappingError, TypedImageView};
use crate::pixels::{is_alpha_component, is_alpha_position, IntoPixelComponent, Pixel, PixelComponent};

pub mod gamma;
pub mod srgb;

verus! {

broadcast use TypedImageView::lemma_shape;

/// A table that maps every value of a component of type `In` into a
/// component of type `Out`.
pub struct MappingTable<In: PixelComponent, Out: Copy> {
    table: Vec<Out>,
    source: PhantomData<In>,
}

impl<In: PixelComponent, Out: Copy> MappingTable<In, Out> {
    #[verifier::type_invariant]
    spec fn inv(self) -> bool {
        self.table@.len() == In::max_value() + 1
    }

    /// The mapped value of every input value.
    pub closed spec fn spec_table(&self) -> Seq<Out> {
        Seq::new(In::max_value() + 1, |i: int| self.table@[i])
    }

    /// A table holds one value for each value of the input type.
    pub broadcast proof fn lemma_table_len(t: &Self)
        ensures
            #[trigger] t.spec_table().len() == In::max_value() + 1,
    {
    }

    /// Creates a table from the mapped values of `0, 1, ..., In::max_value()`;
    /// `None` when `table` does not hold exactly one value for each input value.
    pub fn from_table(table: Vec<Out>) -> (r: Option<Self>)
        ensures
            r is Some <==> table@.len() == In::max_value() + 1,
            r matches Some(t) ==> t.spec_table() == table@,
    {
        if table.len() != In::count_of_values() {
            return None;
        }
        let t = MappingTable { table, source: PhantomData };
        assert(t.spec_table() =~= t.table@);
        Some(t)
    }

    /// The mapped value of `v`.
    pub fn lookup(&self, v: In) -> (r: Out)
        ensures
            r == self.spec_table()[v.value() as int],
    {
        proof {
            use_type_invariant(self);
            v.lemma_value_bound();
        }
        self.table[v.to_index()]
    }

    /// Maps each component of `src_buffer` into the component of `dst_buffer`
    /// at the same position, as far as the shorter buffer goes.
    pub fn map(&self, src_buffer: &[In], dst_buffer: &mut [Out])
        ensures
            final(dst_buffer)@.len() == old(dst_buffer)@.len(),
            forall|i: int|
                0 <= i < old(dst_buffer)@.len() ==> #[trigger] final(dst_buffer)@[i] == if i < src_buffer@.len() {
                    self.spec_table()[src_buffer@[i].value() as int]
                } else {
                    old(dst_buffer)@[i]
                },
    {
        let n = if src_buffer.len() < dst_buffer.len() { src_buffer.len() } else { dst_buffer.len() };
        let mut i: usize = 0;
        while i < n
            invariant
                n <= src_buffer@.len(),
                n <= dst_buffer@.len(),
                i <= n,
                dst_buffer@.len() == old(dst_buffer)@.len(),
                forall|j: int| 0 <= j < i ==> #[trigger] dst_buffer@[j] == self.spec_table()[src_buffer@[j].value() as int],
                forall|j: int| i <= j < dst_buffer@.len() ==> #[trigger] dst_buffer@[j] == old(dst_buffer)@[j],
            decreases n - i,
        {
            dst_buffer[i] = self.lookup(src_buffer[i]);
            i += 1;
        }
    }
}

impl<In: IntoPixelComponent<Out>, Out: Copy> MappingTable<In, Out> {
    /// The mapped value of a component; an alpha channel is only converted
    /// into the output type.
    pub open spec fn spec_map_component(&self, v: In, is_alpha: bool) -> Out {
        if is_alpha {
            v.converted()
        } else {
            self.spec_table()[v.value() as int]
        }
    }

    /// `dst` is the pixel `src` with every component mapped, except an alpha
    /// channel, which is converted.
    pub open spec fn pixel_mapped<const N: usize>(&self, src: Pixel<In, N>, dst: Pixel<Out, N>) -> bool {
        forall|c: int|
            0 <= c < N ==> #[trigger] dst.0[c] == self.spec_map_component(
                src.0[c],
                is_alpha_position(c, N as int),
            )
    }

    /// `new_dst` is `old_dst` with the pixels that `src` also has replaced by
    /// the mapped pixels of `src`.
    pub open spec fn image_mapped<const N: usize>(
        &self,
        src: TypedImageView<Pixel<In, N>>,
        old_dst: TypedImageView<Pixel<Out, N>>,
        new_dst: TypedImageView<Pixel<Out, N>>,
    ) -> bool {
        &&& new_dst.spec_width() == old_dst.spec_width()
        &&& new_dst.spec_height() == old_dst.spec_height()
        &&& forall|y: int, x: int|
            0 <= y < old_dst.spec_height() && 0 <= x < old_dst.spec_width() ==> if y < src.spec_height()
                && x < src.spec_width() {
                self.pixel_mapped(src.spec_rows()[y][x], #[trigger] new_dst.spec_rows()[y][x])
            } else {
                new_dst.spec_rows()[y][x] == old_dst.spec_rows()[y][x]
            }
    }

    /// Maps the components of `src_buffer` into `dst_buffer`, as far as the
    /// shorter buffer goes; every component whose position `i` has
    /// `(i + 1) % gap_step == 0` is only converted into the output type.
    pub fn map_with_gaps(&self, src_buffer: &[In], dst_buffer: &mut [Out], gap_step: usize)
        requires
            gap_step > 0,
        ensures
            final(dst_buffer)@.len() == old(dst_buffer)@.len(),
            forall|i: int|
                0 <= i < old(dst_buffer)@.len() ==> #[trigger] final(dst_buffer)@[i] == if i < src_buffer@.len() {
                    self.spec_map_component(src_buffer@[i], (i + 1) % (gap_step as int) == 0)
                } else {
                    old(dst_buffer)@[i]
                },
    {
        let n = if src_buffer.len() < dst_buffer.len() { src_buffer.len() } else { dst_buffer.len() };
        let mut i: usize = 0;
        while i < n
            invariant
                gap_step > 0,
                n <= src_buffer@.len(),
                n <= dst_buffer@.len(),
                i <= n,
                dst_buffer@.len() == old(dst_buffer)@.len(),
                forall|j: int|
                    0 <= j < i ==> #[trigger] dst_buffer@[j] == self.spec_map_component(
                        src_buffer@[j],
                        (j + 1) % (gap_step as int) == 0,
                    ),
                forall|j: int| i <= j < dst_buffer@.len() ==> #[trigger] dst_buffer@[j] == old(dst_buffer)@[j],
            decreases n - i,
        {
            let src = src_buffer[i];
            if (i + 1) % gap_step != 0 {
                dst_buffer[i] = self.lookup(src);
            } else {
                dst_buffer[i] = src.into_component();
            }
            i += 1;
        }
    }

    /// Maps every component of a pixel, except an alpha channel, which is converted.
    pub fn map_pixel<const N: usize>(&self, pixel: Pixel<In, N>) -> (r: Pixel<Out, N>)
        ensures
            self.pixel_mapped(pixel, r),
    {
        proof {
            use_type_invariant(self);
        }
        let filler = self.table[0];
        let mut out: [Out; N] = [filler; N];
        let mut c: usize = 0;
        while c < N
            invariant
                c <= N,
                forall|k: int|
                    0 <= k < c ==> #[trigger] out[k] == self.spec_map_component(
                        pixel.0[k],
                        is_alpha_position(k, N as int),
                    ),
            decreases N - c,
        {
            let v = pixel.0[c];
            if is_alpha_component(c, N) {
                out[c] = v.into_component();
            } else {
                out[c] = self.lookup(v);
            }
            c += 1;
        }
        Pixel(out)
    }

    /// Writes the mapped pixels of `src_row` into `dst_row`, as far as the
    /// shorter row goes.
    fn map_row<const N: usize>(&self, src_row: &[Pixel<In, N>], dst_row: &mut [Pixel<Out, N>])
        ensures
            final(dst_row)@.len() == old(dst_row)@.len(),
            forall|x: int|
                0 <= x < old(dst_row)@.len() ==> if x < src_row@.len() {
                    self.pixel_mapped(src_row@[x], #[trigger] final(dst_row)@[x])
                } else {
                    final(dst_row)@[x] == old(dst_row)@[x]
                },
    {
        let n = if src_row.len() < dst_row.len() { src_row.len() } else { dst_row.len() };
        let mut x: usize = 0;
        while x < n
            invariant
                n <= src_row@.len(),
                n <= dst_row@.len(),
                x <= n,
                dst_row@.len() == old(dst_row)@.len(),
                forall|i: int| 0 <= i < x ==> self.pixel_mapped(src_row@[i], #[trigger] dst_row@[i]),
                forall|i: int| x <= i < dst_row@.len() ==> #[trigger] dst_row@[i] == old(dst_row)@[i],
            decreases n - x,
        {
            dst_row[x] = self.map_pixel(src_row[x]);
            x += 1;
        }
    }

    /// Writes into `dst_view` the mapped pixels of `src_view`, over the rows
    /// and columns that both images have. Alpha channels of pixels with two
    /// or four components are not mapped, only converted.
    pub fn map_image_typed<const N: usize>(
        &self,
        src_view: &TypedImageView<Pixel<In, N>>,
        dst_view: &mut TypedImageView<Pixel<Out, N>>,
    )
        ensures
            self.image_mapped(*src_view, *old(dst_view), *final(dst_view)),
    {
        let height = if src_view.height() < dst_view.height() {
            src_view.height()
        } else {
            dst_view.height()
        };
        let mut y: u32 = 0;
        while y < height
            invariant
                height <= src_view.spec_height(),
                height <= dst_view.spec_height(),
                y <= height,
                dst_view.spec_width() == old(dst_view).spec_width(),
                dst_view.spec_height() == old(dst_view).spec_height(),
                forall|j: int, x: int|
                    0 <= j < y && 0 <= x < dst_view.spec_width() ==> if x < src_view.spec_width() {
                        self.pixel_mapped(src_view.spec_rows()[j][x], #[trigger] dst_view.spec_rows()[j][x])
                    } else {
                        dst_view.spec_rows()[j][x] == old(dst_view).spec_rows()[j][x]
                    },
                forall|j: int| y <= j < dst_view.spec_height() ==> #[trigger] dst_view.spec_rows()[j] == old(dst_view).spec_rows()[j],
            decreases height - y,
        {
            let mut row = copy_row(dst_view.row(y as usize));
            self.map_row(src_view.row(y as usize).as_slice(), row.as_mut_slice());
            dst_view.set_row(y as usize, row);
            y += 1;
        }
    }
}


impl<C: IntoPixelComponent<C>> MappingTable<C, C> {
    /// `dst` is the pixel `src` with every component mapped, except an alpha
    /// channel, which stays as it is.
    pub open spec fn pixel_mapped_inplace<const N: usize>(&self, src: Pixel<C, N>, dst: Pixel<C, N>) -> bool {
        forall|c: int|
            0 <= c < N ==> #[trigger] dst.0[c] == if is_alpha_position(c, N as int) {
                src.0[c]
            } else {
                self.spec_table()[src.0[c].value() as int]
            }
    }

    /// Maps every component of `buffer` in place.
    pub fn map_inplace(&self, buffer: &mut [C])
        ensures
            final(buffer)@.len() == old(buffer)@.len(),
            forall|i: int|
                0 <= i < old(buffer)@.len() ==> #[trigger] final(buffer)@[i] == self.spec_table()[old(buffer)@[i].value() as int],
    {
        let mut i: usize = 0;
        while i < buffer.len()
            invariant
                i <= buffer@.len(),
                buffer@.len() == old(buffer)@.len(),
                forall|j: int| 0 <= j < i ==> #[trigger] buffer@[j] == self.spec_table()[old(buffer)@[j].value() as int],
                forall|j: int| i <= j < buffer@.len() ==> #[trigger] buffer@[j] == old(buffer)@[j],
            decreases buffer@.len() - i,
        {
            let v = buffer[i];
            buffer[i] = self.lookup(v);
            i += 1;
        }
    }

    /// Maps in place every component of `buffer` whose position `i` has
    /// `(i + 1) % gap_step != 0`; the other components stay as they are.
    pub fn map_with_gaps_inplace(&self, buffer: &mut [C], gap_step: usize)
        requires
            gap_step > 0,
        ensures
            final(buffer)@.len() == old(buffer)@.len(),
            forall|i: int|
                0 <= i < old(buffer)@.len() ==> #[trigger] final(buffer)@[i] == if (i + 1) % (gap_step as int) != 0 {
                    self.spec_table()[old(buffer)@[i].value() as int]
                } else {
                    old(buffer)@[i]
                },
    {
        let mut i: usize = 0;
        while i < buffer.len()
            invariant
                gap_step > 0,
                i <= buffer@.len(),
                buffer@.len() == old(buffer)@.len(),
                forall|j: int|
                    0 <= j < i ==> #[trigger] buffer@[j] == if (j + 1) % (gap_step as int) != 0 {
                        self.spec_table()[old(buffer)@[j].value() as int]
                    } else {
                        old(buffer)@[j]
                    },
                forall|j: int| i <= j < buffer@.len() ==> #[trigger] buffer@[j] == old(buffer)@[j],
            decreases buffer@.len() - i,
        {
            if (i + 1) % gap_step != 0 {
                let v = buffer[i];
                buffer[i] = self.lookup(v);
            }
            i += 1;
        }
    }

    /// Maps every component of a pixel except an alpha channel.
    pub fn map_pixel_inplace<const N: usize>(&self, pixel: Pixel<C, N>) -> (r: Pixel<C, N>)
        ensures
            self.pixel_mapped_inplace(pixel, r),
    {
        let mut out: [C; N] = pixel.0;
        let mut c: usize = 0;
        while c < N
            invariant
                c <= N,
                forall|k: int|
                    0 <= k < c ==> #[trigger] out[k] == if is_alpha_position(k, N as int) {
                        pixel.0[k]
                    } else {
                        self.spec_table()[pixel.0[k].value() as int]
                    },
                forall|k: int| c <= k < N ==> #[trigger] out[k] == pixel.0[k],
            decreases N - c,
        {
            if !is_alpha_component(c, N) {
                let v = out[c];
                out[c] = self.lookup(v);
            }
            c += 1;
        }
        Pixel(out)
    }

    /// `new` is `old` with every pixel mapped, except alpha channels.
    pub open spec fn image_mapped_inplace<const N: usize>(
        &self,
        old: TypedImageView<Pixel<C, N>>,
        new: TypedImageView<Pixel<C, N>>,
    ) -> bool {
        &&& new.spec_width() == old.spec_width()
        &&& new.spec_height() == old.spec_height()
        &&& forall|y: int, x: int|
            0 <= y < old.spec_height() && 0 <= x < old.spec_width() ==> self.pixel_mapped_inplace(
                old.spec_rows()[y][x],
                #[trigger] new.spec_rows()[y][x],
            )
    }

    /// Maps every pixel of an image in place. Alpha channels of pixels with
    /// two or four components are not mapped.
    pub fn map_image_inplace_typed<const N: usize>(&self, image_view: &mut TypedImageView<Pixel<C, N>>)
        ensures
            self.image_mapped_inplace(*old(image_view), *final(image_view)),
    {
        let height = image_view.height();
        let mut y: u32 = 0;
        while y < height
            invariant
                height == image_view.spec_height(),
                y <= height,
                image_view.spec_width() == old(image_view).spec_width(),
                image_view.spec_height() == old(image_view).spec_height(),
                forall|j: int, x: int|
                    0 <= j < y && 0 <= x < image_view.spec_width() ==> self.pixel_mapped_inplace(
                        old(image_view).spec_rows()[j][x],
                        #[trigger] image_view.spec_rows()[j][x],
                    ),
                forall|j: int| y <= j < image_view.spec_height() ==> #[trigger] image_view.spec_rows()[j] == old(image_view).spec_rows()[j],
            decreases height - y,
        {
            let mut row = copy_row(image_view.row(y as usize));
            let mut x: usize = 0;
            while x < row.len()
                invariant
                    x <= row@.len(),
                    row@.len() == image_view.spec_width(),
                    forall|i: int| 0 <= i < x ==> self.pixel_mapped_inplace(
                        image_view.spec_rows()[y as int][i],
                        #[trigger] row@[i],
                    ),
                    forall|i: int| x <= i < row@.len() ==> #[trigger] row@[i] == image_view.spec_rows()[y as int][i],
                decreases row@.len() - x,
            {
                let p = row[x];
                row[x] = self.map_pixel_inplace(p);
                x += 1;
            }
            image_view.set_row(y as usize, row);
            y += 1;
        }
    }
}

impl MappingTable<u8, u8> {
    /// `new_dst` is `old_dst` mapped from `src`, for images of the pixel types
    /// this table maps.
    pub open spec fn dyn_image_mapped(&self, src: ImageView, old_dst: ImageView, new_dst: ImageView) -> bool {
        match (src, old_dst, new_dst) {
            (ImageView::U8(s), ImageView::U8(o), ImageView::U8(n)) => self.image_mapped(s, o, n),
            (ImageView::U8x2(s), ImageView::U8x2(o), ImageView::U8x2(n)) => self.image_mapped(s, o, n),
            (ImageView::U8x3(s), ImageView::U8x3(o), ImageView::U8x3(n)) => self.image_mapped(s, o, n),
            (ImageView::U8x4(s), ImageView::U8x4(o), ImageView::U8x4(n)) => self.image_mapped(s, o, n),
            _ => false,
        }
    }

    /// Maps the pixels of `src_image` into `dst_image`; fails unless both
    /// images have `u8` components and the same number of components per pixel.
    pub fn map_image(&self, src_image: &ImageView, dst_image: &mut ImageView) -> (r: Result<(), MappingError>)
        ensures
            match r {
                Ok(()) => self.dyn_image_mapped(*src_image, *old(dst_image), *final(dst_image)),
                Err(e) => e == MappingError::UnsupportedCombinationOfImageTypes && *final(dst_image) == *old(dst_image),
            },
            r == if match (*src_image, *old(dst_image)) {
                    (ImageView::U8(_), ImageView::U8(_)) => true,
                    (ImageView::U8x2(_), ImageView::U8x2(_)) => true,
                    (ImageView::U8x3(_), ImageView::U8x3(_)) => true,
                    (ImageView::U8x4(_), ImageView::U8x4(_)) => true,
                    _ => false,
                } {
                Ok(())
            } else {
                Err(MappingError::UnsupportedCombinationOfImageTypes)
            },
    {
        match src_image {
            ImageView::U8(s) => match dst_image {
                ImageView::U8(d) => {
                    self.map_image_typed(s, d);
                    Ok(())
                },
                _ => Err(MappingError::UnsupportedCombinationOfImageTypes),
            },
            ImageView::U8x2(s) => match dst_image {
                ImageView::U8x2(d) => {
                    self.map_image_typed(s, d);
                    Ok(())
                },
                _ => Err(MappingError::UnsupportedCombinationOfImageTypes),
            },
            ImageView::U8x3(s) => match dst_image {
                ImageView::U8x3(d) => {
                    self.map_image_typed(s, d);
                    Ok(())
                },
                _ => Err(MappingError::UnsupportedCombinationOfImageTypes),
            },
            ImageView::U8x4(s) => match dst_image {
                ImageView::U8x4(d) => {
                    self.map_image_typed(s, d);
                    Ok(())
                },
                _ => Err(MappingError::UnsupportedCombinationOfImageTypes),
            },
            _ => Err(MappingError::UnsupportedCombinationOfImageTypes),
        }
    }
}

impl MappingTable<u8, u16> {
    /// `new_dst` is `old_dst` mapped from `src`, for images of the pixel types
    /// this table maps.
    pub open spec fn dyn_image_mapped(&self, src: ImageView, old_dst: ImageView, new_dst: ImageView) -> bool {
        match (src, old_dst, new_dst) {
            (ImageView::U8(s), ImageView::U16(o), ImageView::U16(n)) => self.image_mapped(s, o, n),
            (ImageView::U8x2(s), ImageView::U16x2(o), ImageView::U16x2(n)) => self.image_mapped(s, o, n),
            (ImageView::U8x3(s), ImageView::U16x3(o), ImageView::U16x3(n)) => self.image_mapped(s, o, n),
            (ImageView::U8x4(s), ImageView::U16x4(o), ImageView::U16x4(n)) => self.image_mapped(s, o, n),
            _ => false,
        }
    }

    /// Maps the pixels of `src_image` into `dst_image`; fails unless the
    /// source has `u8` and the destination `u16` components and the same number of components per pixel.
    pub fn map_image(&self, src_image: &ImageView, dst_image: &mut ImageView) -> (r: Result<(), MappingError>)
        ensures
            match r {
                Ok(()) => self.dyn_image_mapped(*src_image, *old(dst_image), *final(dst_image)),
                Err(e) => e == MappingError::UnsupportedCombinationOfImageTypes && *final(dst_image) == *old(dst_image),
            },
            r == if match (*src_image, *old(dst_image)) {
                    (ImageView::U8(_), ImageView::U16(_)) => true,
                    (ImageView::U8x2(_), ImageView::U16x2(_)) => true,
                    (ImageView::U8x3(_), ImageView::U16x3(_)) => true,
                    (ImageView::U8x4(_), ImageView::U16x4(_)) => true,
                    _ => false,
                } {
                Ok(())
            } else {
                Err(MappingError::UnsupportedCombinationOfImageTypes)
            },
    {
        match src_image {
            ImageView::U8(s) => match dst_image {
                ImageView::U16(d) => {
                    self.map_image_typed(s, d);
                    Ok(())
                },
                _ => Err(MappingError::UnsupportedCombinationOfImageTypes),
            },
            ImageView::U8x2(s) => match dst_image {
                ImageView::U16x2(d) => {
                    self.map_image_typed(s, d);
                    Ok(())
                },
                _ => Err(MappingError::UnsupportedCombinationOfImageTypes),
            },
            ImageView::U8x3(s) => match dst_image {
                ImageView::U16x3(d) => {
                    self.map_image_typed(s, d);
                    Ok(())
                },
                _ => Err(MappingError::UnsupportedCombinationOfImageTypes),
            },
            ImageView::U8x4(s) => match dst_image {
                ImageView::U16x4(d) => {
                    self.map_image_typed(s, d);
                    Ok(())
                },
                _ => Err(MappingError::UnsupportedCombinationOfImageTypes),
            },
            _ => Err(MappingError::UnsupportedCombinationOfImageTypes),
        }
    }
}

impl MappingTable<u16, u8> {
    /// `new_dst` is `old_dst` mapped from `src`, for images of the pixel types
    /// this table maps.
    pub open spec fn dyn_image_mapped(&self, src: ImageView, old_dst: ImageView, new_dst: ImageView) -> bool {
        match (src, old_dst, new_dst) {
            (ImageView::U16(s), ImageView::U8(o), ImageView::U8(n)) => self.image_mapped(s, o, n),
            (ImageView::U16x2(s), ImageView::U8x2(o), ImageView::U8x2(n)) => self.image_mapped(s, o, n),
            (ImageView::U16x3(s), ImageView::U8x3(o), ImageView::U8x3(n)) => self.image_mapped(s, o, n),
            (ImageView::U16x4(s), ImageView::U8x4(o), ImageView::U8x4(n)) => self.image_mapped(s, o, n),
            _ => false,
        }
    }

    /// Maps the pixels of `src_image` into `dst_image`; fails unless the
    /// source has `u16` and the destination `u8` components and the same number of components per pixel.
    pub fn map_image(&self, src_image: &ImageView, dst_image: &mut ImageView) -> (r: Result<(), MappingError>)
        ensures
            match r {
                Ok(()) => self.dyn_image_mapped(*src_image, *old(dst_image), *final(dst_image)),
                Err(e) => e == MappingError::UnsupportedCombinationOfImageTypes && *final(dst_image) == *old(dst_image),
            },
            r == if match (*src_image, *old(dst_image)) {
                    (ImageView::U16(_), ImageView::U8(_)) => true,
                    (ImageView::U16x2(_), ImageView::U8x2(_)) => true,
                    (ImageView::U16x3(_), ImageView::U8x3(_)) => true,
                    (ImageView::U16x4(_), ImageView::U8x4(_)) => true,
                    _ => false,
                } {
                Ok(())
            } else {
                Err(MappingError::UnsupportedCombinationOfImageTypes)
            },
    {
        match src_image {
            ImageView::U16(s) => match dst_image {
                ImageView::U8(d) => {
                    self.map_image_typed(s, d);
                    Ok(())
                },
                _ => Err(MappingError::UnsupportedCombinationOfImageTypes),
            },
            ImageView::U16x2(s) => match dst_image {
                ImageView::U8x2(d) => {
                    self.map_image_typed(s, d);
                    Ok(())
                },
                _ => Err(MappingError::UnsupportedCombinationOfImageTypes),
            },
            ImageView::U16x3(s) => match dst_image {
                ImageView::U8x3(d) => {
                    self.map_image_typed(s, d);
                    Ok(())
                },
                _ => Err(MappingError::UnsupportedCombinationOfImageTypes),
            },
            ImageView::U16x4(s) => match dst_image {
                ImageView::U8x4(d) => {
                    self.map_image_typed(s, d);
                    Ok(())
                },
                _ => Err(MappingError::UnsupportedCombinationOfImageTypes),
            },
            _ => Err(MappingError::UnsupportedCombinationOfImageTypes),
        }
    }
}

impl MappingTable<u16, u16> {
    /// `new_dst` is `old_dst` mapped from `src`, for images of the pixel types
    /// this table maps.
    pub open spec fn dyn_image_mapped(&self, src: ImageView, old_dst: ImageView, new_dst: ImageView) -> bool {
        match (src, old_dst, new_dst) {
            (ImageView::U16(s), ImageView::U16(o), ImageView::U16(n)) => self.image_mapped(s, o, n),
            (ImageView::U16x2(s), ImageView::U16x2(o), ImageView::U16x2(n)) => self.image_mapped(s, o, n),
            (ImageView::U16x3(s), ImageView::U16x3(o), ImageView::U16x3(n)) => self.image_mapped(s, o, n),
            (ImageView::U16x4(s), ImageView::U16x4(o), ImageView::U16x4(n)) => self.image_mapped(s, o, n),
            _ => false,
        }
    }

    /// Maps the pixels of `src_image` into `dst_image`; fails unless both
    /// images have `u16` components and the same number of components per pixel.
    pub fn map_image(&self, src_image: &ImageView, dst_image: &mut ImageView) -> (r: Result<(), MappingError>)
        ensures
            match r {
                Ok(()) => self.dyn_image_mapped(*src_image, *old(dst_image), *final(dst_image)),
                Err(e) => e == MappingError::UnsupportedCombinationOfImageTypes && *final(dst_image) == *old(dst_image),
            },
            r == if match (*src_image, *old(dst_image)) {
                    (ImageView::U16(_), ImageView::U16(_)) => true,
                    (ImageView::U16x2(_), ImageView::U16x2(_)) => true,
                    (ImageView::U16x3(_), ImageView::U16x3(_)) => true,
                    (ImageView::U16x4(_), ImageView::U16x4(_)) => true,
                    _ => false,
                } {
                Ok(())
            } else {
                Err(MappingError::UnsupportedCombinationOfImageTypes)
            },
    {
        match src_image {
            ImageView::U16(s) => match dst_image {
                ImageView::U16(d) => {
                    self.map_image_typed(s, d);
                    Ok(())
                },
                _ => Err(MappingError::UnsupportedCombinationOfImageTypes),
            },
            ImageView::U16x2(s) => match dst_image {
                ImageView::U16x2(d) => {
                    self.map_image_typed(s, d);
                    Ok(())
                },
                _ => Err(MappingError::UnsupportedCombinationOfImageTypes),
            },
            ImageView::U16x3(s) => match dst_image {
                ImageView::U16x3(d) => {
                    self.map_image_typed(s, d);
                    Ok(())
                },
                _ => Err(MappingError::UnsupportedCombinationOfImageTypes),
            },
            ImageView::U16x4(s) => match dst_image {
                ImageView::U16x4(d) => {
                    self.map_image_typed(s, d);
                    Ok(())
                },
                _ => Err(MappingError::UnsupportedCombinationOfImageTypes),
            },
            _ => Err(MappingError::UnsupportedCombinationOfImageTypes),
        }
    }
}


impl MappingTable<u8, u8> {
    /// `new` is `old` mapped in place, for images of the pixel types this table maps.
    pub open spec fn dyn_image_mapped_inplace(&self, old: ImageView, new: ImageView) -> bool {
        match (old, new) {
            (ImageView::U8(o), ImageView::U8(n)) => self.image_mapped_inplace(o, n),
            (ImageView::U8x2(o), ImageView::U8x2(n)) => self.image_mapped_inplace(o, n),
            (ImageView::U8x3(o), ImageView::U8x3(n)) => self.image_mapped_inplace(o, n),
            (ImageView::U8x4(o), ImageView::U8x4(n)) => self.image_mapped_inplace(o, n),
            _ => false,
        }
    }

    /// Maps the pixels of an image in place; fails unless the image has
    /// `u8` components.
    pub fn map_image_inplace(&self, image: &mut ImageView) -> (r: Result<(), MappingError>)
        ensures
            match r {
                Ok(()) => self.dyn_image_mapped_inplace(*old(image), *final(image)),
                Err(e) => e == MappingError::UnsupportedCombinationOfImageTypes && *final(image) == *old(image),
            },
            r == if match *old(image) {
                    ImageView::U8(_) => true,
                    ImageView::U8x2(_) => true,
                    ImageView::U8x3(_) => true,
                    ImageView::U8x4(_) => true,
                    _ => false,
                } {
                Ok(())
            } else {
                Err(MappingError::UnsupportedCombinationOfImageTypes)
            },
    {
        match image {
            ImageView::U8(img) => {
                self.map_image_inplace_typed(img);
                Ok(())
            },
            ImageView::U8x2(img) => {
                self.map_image_inplace_typed(img);
                Ok(())
            },
            ImageView::U8x3(img) => {
                self.map_image_inplace_typed(img);
                Ok(())
            },
            ImageView::U8x4(img) => {
                self.map_image_inplace_typed(img);
                Ok(())
            },
            _ => Err(MappingError::UnsupportedCombinationOfImageTypes),
        }
    }
}

impl MappingTable<u16, u16> {
    /// `new` is `old` mapped in place, for images of the pixel types this table maps.
    pub open spec fn dyn_image_mapped_inplace(&self, old: ImageView, new: ImageView) -> bool {
        match (old, new) {
            (ImageView::U16(o), ImageView::U16(n)) => self.image_mapped_inplace(o, n),
            (ImageView::U16x2(o), ImageView::U16x2(n)) => self.image_mapped_inplace(o, n),
            (ImageView::U16x3(o), ImageView::U16x3(n)) => self.image_mapped_inplace(o, n),
            (ImageView::U16x4(o), ImageView::U16x4(n)) => self.image_mapped_inplace(o, n),
            _ => false,
        }
    }

    /// Maps the pixels of an image in place; fails unless the image has
    /// `u16` components.
    pub fn map_image_inplace(&self, image: &mut ImageView) -> (r: Result<(), MappingError>)
        ensures
            match r {
                Ok(()) => self.dyn_image_mapped_inplace(*old(image), *final(image)),
                Err(e) => e == MappingError::UnsupportedCombinationOfImageTypes && *final(image) == *old(image),
            },
            r == if match *old(image) {
                    ImageView::U16(_) => true,
                    ImageView::U16x2(_) => true,
                    ImageView::U16x3(_) => true,
                    ImageView::U16x4(_) => true,
                    _ => false,
                } {
                Ok(())
            } else {
                Err(MappingError::UnsupportedCombinationOfImageTypes)
            },
    {
        match image {
            ImageView::U16(img) => {
                self.map_image_inplace_typed(img);
                Ok(())
            },
            ImageView::U16x2(img) => {
                self.map_image_inplace_typed(img);
                Ok(())
            },
            ImageView::U16x3(img) => {
                self.map_image_inplace_typed(img);
                Ok(())
            },
            ImageView::U16x4(img) => {
                self.map_image_inplace_typed(img);
                Ok(())
            },
            _ => Err(MappingError::UnsupportedCombinationOfImageTypes),
        }
    }
}

/// The four tables that map the components of images in one direction:
/// from `u8` or `u16` components into `u8` or `u16` components.
pub struct MappingTablesGroup {
    pub u8_u8: MappingTable<u8, u8>,
    pub u8_u16: MappingTable<u8, u16>,
    pub u16_u8: MappingTable<u16, u8>,
    pub u16_u16: MappingTable<u16, u16>,
}

/// Whether the components of the source and destination images can be
/// mapped: both have `u8` or `u16` components and the same number of
/// components per pixel.
pub open spec fn is_mappable_combination(src: ImageView, dst: ImageView) -> bool {
    match (src, dst) {
        (ImageView::U8(_), ImageView::U8(_)) | (ImageView::U8(_), ImageView::U16(_))
        | (ImageView::U16(_), ImageView::U8(_)) | (ImageView::U16(_), ImageView::U16(_)) => true,
        (ImageView::U8x2(_), ImageView::U8x2(_)) | (ImageView::U8x2(_), ImageView::U16x2(_))
        | (ImageView::U16x2(_), ImageView::U8x2(_)) | (ImageView::U16x2(_), ImageView::U16x2(_)) => true,
        (ImageView::U8x3(_), ImageView::U8x3(_)) | (ImageView::U8x3(_), ImageView::U16x3(_))
        | (ImageView::U16x3(_), ImageView::U8x3(_)) | (ImageView::U16x3(_), ImageView::U16x3(_)) => true,
        (ImageView::U8x4(_), ImageView::U8x4(_)) | (ImageView::U8x4(_), ImageView::U16x4(_))
        | (ImageView::U16x4(_), ImageView::U8x4(_)) | (ImageView::U16x4(_), ImageView::U16x4(_)) => true,
        _ => false,
    }
}

/// Whether an image has `u8` or `u16` components, so that it can be mapped in place.
pub open spec fn is_mappable_inplace(image: ImageView) -> bool {
    match image {
        ImageView::U8(_) | ImageView::U8x2(_) | ImageView::U8x3(_) | ImageView::U8x4(_) => true,
        ImageView::U16(_) | ImageView::U16x2(_) | ImageView::U16x3(_) | ImageView::U16x4(_) => true,
        _ => false,
    }
}

impl MappingTablesGroup {
    /// `new_dst` is `old_dst` mapped from `src` by the table of this group
    /// that matches the component types of the two images.
    pub open spec fn dyn_image_mapped(&self, src: ImageView, old_dst: ImageView, new_dst: ImageView) -> bool {
        ||| self.u8_u8.dyn_image_mapped(src, old_dst, new_dst)
        ||| self.u8_u16.dyn_image_mapped(src, old_dst, new_dst)
        ||| self.u16_u8.dyn_image_mapped(src, old_dst, new_dst)
        ||| self.u16_u16.dyn_image_mapped(src, old_dst, new_dst)
    }

    /// `new` is `old` mapped in place by the table of this group that matches
    /// the component type of the image.
    pub open spec fn dyn_image_mapped_inplace(&self, old: ImageView, new: ImageView) -> bool {
        ||| self.u8_u8.dyn_image_mapped_inplace(old, new)
        ||| self.u16_u16.dyn_image_mapped_inplace(old, new)
    }

    /// Maps `src_image` into `dst_image` with the table that matches their
    /// component types. Fails when the dimensions differ, then when the pixel
    /// types cannot be combined.
    pub fn map(&self, src_image: &ImageView, dst_image: &mut ImageView) -> (r: Result<(), MappingError>)
        ensures
            match r {
                Ok(()) => self.dyn_image_mapped(*src_image, *old(dst_image), *final(dst_image)),
                Err(_) => *final(dst_image) == *old(dst_image),
            },
            r == if src_image.spec_width() != old(dst_image).spec_width()
                || src_image.spec_height() != old(dst_image).spec_height() {
                Err(MappingError::DifferentDimensions)
            } else if !is_mappable_combination(*src_image, *old(dst_image)) {
                Err(MappingError::UnsupportedCombinationOfImageTypes)
            } else {
                Ok(())
            },
            src_image.spec_width() == old(dst_image).spec_width()
                && src_image.spec_height() == old(dst_image).spec_height()
                && ((((*src_image) is U8 || (*src_image) is U16) && ((*old(dst_image)) is U8 || (*old(dst_image)) is U16))
                    || (((*src_image) is U8x2 || (*src_image) is U16x2) && ((*old(dst_image)) is U8x2 || (*old(dst_image)) is U16x2))
                    || (((*src_image) is U8x3 || (*src_image) is U16x3) && ((*old(dst_image)) is U8x3 || (*old(dst_image)) is U16x3))
                    || (((*src_image) is U8x4 || (*src_image) is U16x4) && ((*old(dst_image)) is U8x4 || (*old(dst_image)) is U16x4))) ==> r is Ok,
    {
        if src_image.width() != dst_image.width() || src_image.height() != dst_image.height() {
            return Err(MappingError::DifferentDimensions);
        }
        let src_u8 = match src_image {
            ImageView::U8(_) | ImageView::U8x2(_) | ImageView::U8x3(_) | ImageView::U8x4(_) => true,
            _ => false,
        };
        let dst_u8 = match dst_image {
            ImageView::U8(_) | ImageView::U8x2(_) | ImageView::U8x3(_) | ImageView::U8x4(_) => true,
            _ => false,
        };
        if src_u8 {
            if dst_u8 {
                self.u8_u8.map_image(src_image, dst_image)
            } else {
                self.u8_u16.map_image(src_image, dst_image)
            }
        } else {
            if dst_u8 {
                self.u16_u8.map_image(src_image, dst_image)
            } else {
                self.u16_u16.map_image(src_image, dst_image)
            }
        }
    }

    /// Maps an image in place with the table that matches its component type.
    pub fn map_inplace(&self, image: &mut ImageView) -> (r: Result<(), MappingError>)
        ensures
            match r {
                Ok(()) => self.dyn_image_mapped_inplace(*old(image), *final(image)),
                Err(_) => *final(image) == *old(image),
            },
            r == if is_mappable_inplace(*old(image)) {
                Ok(())
            } else {
                Err(MappingError::UnsupportedCombinationOfImageTypes)
            },
            ((*old(image)) is U8 || (*old(image)) is U8x2 || (*old(image)) is U8x3 || (*old(image)) is U8x4 || (*old(image)) is U16 || (*old(image)) is U16x2 || (*old(image)) is U16x3 || (*old(image)) is U16x4) ==> r is Ok,
    {
        let is_u8 = match image {
            ImageView::U8(_) | ImageView::U8x2(_) | ImageView::U8x3(_) | ImageView::U8x4(_) => true,
            _ => false,
        };
        if is_u8 {
            self.u8_u8.map_image_inplace(image)
        } else {
            self.u16_u16.map_image_inplace(image)
        }
    }
}

/// Mapper of pixel's components.
///
/// This structure holds tables for mapping values of pixel's components in
/// forward and backward directions. Source and destination images may have
/// different bit depth of one pixel component, but the count of components
/// must be equal. The alpha channel of `U8x2`, `U8x4`, `U16x2` and `U16x4`
/// pixels is not mapped with tables; it is only converted into the
/// destination component type.
pub struct PixelComponentMapper {
    pub forward_mapping_tables: MappingTablesGroup,
    pub backward_mapping_tables: MappingTablesGroup,
}

impl PixelComponentMapper {
    /// Creates a mapper from its forward and backward tables.
    pub fn from_tables(forward_mapping_tables: MappingTablesGroup, backward_mapping_tables: MappingTablesGroup) -> (r: Self)
        ensures
            r.forward_mapping_tables == forward_mapping_tables,
            r.backward_mapping_tables == backward_mapping_tables,
    {
        PixelComponentMapper { forward_mapping_tables, backward_mapping_tables }
    }

    /// Maps the components of `src_image` in the forward direction into the
    /// corresponding components of `dst_image`.
    pub fn forward_map(&self, src_image: &ImageView, dst_image: &mut ImageView) -> (r: Result<(), MappingError>)
        ensures
            match r {
                Ok(()) => self.forward_mapping_tables.dyn_image_mapped(*src_image, *old(dst_image), *final(dst_image)),
                Err(_) => *final(dst_image) == *old(dst_image),
            },
            r == if src_image.spec_width() != old(dst_image).spec_width()
                || src_image.spec_height() != old(dst_image).spec_height() {
                Err(MappingError::DifferentDimensions)
            } else if !is_mappable_combination(*src_image, *old(dst_image)) {
                Err(MappingError::UnsupportedCombinationOfImageTypes)
            } else {
                Ok(())
            },
            src_image.spec_width() == old(dst_image).spec_width()
                && src_image.spec_height() == old(dst_image).spec_height()
                && ((((*src_image) is U8 || (*src_image) is U16) && ((*old(dst_image)) is U8 || (*old(dst_image)) is U16))
                    || (((*src_image) is U8x2 || (*src_image) is U16x2) && ((*old(dst_image)) is U8x2 || (*old(dst_image)) is U16x2))
                    || (((*src_image) is U8x3 || (*src_image) is U16x3) && ((*old(dst_image)) is U8x3 || (*old(dst_image)) is U16x3))
                    || (((*src_image) is U8x4 || (*src_image) is U16x4) && ((*old(dst_image)) is U8x4 || (*old(dst_image)) is U16x4))) ==> r is Ok,
    {
        self.forward_mapping_tables.map(src_image, dst_image)
    }

    /// Maps the components of an image in place in the forward direction.
    pub fn forward_map_inplace(&self, image: &mut ImageView) -> (r: Result<(), MappingError>)
        ensures
            match r {
                Ok(()) => self.forward_mapping_tables.dyn_image_mapped_inplace(*old(image), *final(image)),
                Err(_) => *final(image) == *old(image),
            },
            r == if is_mappable_inplace(*old(image)) {
                Ok(())
            } else {
                Err(MappingError::UnsupportedCombinationOfImageTypes)
            },
            ((*old(image)) is U8 || (*old(image)) is U8x2 || (*old(image)) is U8x3 || (*old(image)) is U8x4 || (*old(image)) is U16 || (*old(image)) is U16x2 || (*old(image)) is U16x3 || (*old(image)) is U16x4) ==> r is Ok,
    {
        self.forward_mapping_tables.map_inplace(image)
    }

    /// Maps the components of `src_image` in the backward direction into the
    /// corresponding components of `dst_image`.
    pub fn backward_map(&self, src_image: &ImageView, dst_image: &mut ImageView) -> (r: Result<(), MappingError>)
        ensures
            match r {
                Ok(()) => self.backward_mapping_tables.dyn_image_mapped(*src_image, *old(dst_image), *final(dst_image)),
                Err(_) => *final(dst_image) == *old(dst_image),
            },
            r == if src_image.spec_width() != old(dst_image).spec_width()
                || src_image.spec_height() != old(dst_image).spec_height() {
                Err(MappingError::DifferentDimensions)
            } else if !is_mappable_combination(*src_image, *old(dst_image)) {
                Err(MappingError::UnsupportedCombinationOfImageTypes)
            } else {
                Ok(())
            },
            src_image.spec_width() == old(dst_image).spec_width()
                && src_image.spec_height() == old(dst_image).spec_height()
                && ((((*src_image) is U8 || (*src_image) is U16) && ((*old(dst_image)) is U8 || (*old(dst_image)) is U16))
                    || (((*src_image) is U8x2 || (*src_image) is U16x2) && ((*old(dst_image)) is U8x2 || (*old(dst_image)) is U16x2))
                    || (((*src_image) is U8x3 || (*src_image) is U16x3) && ((*old(dst_image)) is U8x3 || (*old(dst_image)) is U16x3))
                    || (((*src_image) is U8x4 || (*src_image) is U16x4) && ((*old(dst_image)) is U8x4 || (*old(dst_image)) is U16x4))) ==> r is Ok,
    {
        self.backward_mapping_tables.map(src_image, dst_image)
    }

    /// Maps the components of an image in place in the backward direction.
    pub fn backward_map_inplace(&self, image: &mut ImageView) -> (r: Result<(), MappingError>)
        ensures
            match r {
                Ok(()) => self.backward_mapping_tables.dyn_image_mapped_inplace(*old(image), *final(image)),
                Err(_) => *final(image) == *old(image),
            },
            r == if is_mappable_inplace(*old(image)) {
                Ok(())
            } else {
                Err(MappingError::UnsupportedCombinationOfImageTypes)
            },
            ((*old(image)) is U8 || (*old(image)) is U8x2 || (*old(image)) is U8x3 || (*old(image)) is U8x4 || (*old(image)) is U16 || (*old(image)) is U16x2 || (*old(image)) is U16x3 || (*old(image)) is U16x4) ==> r is Ok,
    {
        self.backward_mapping_tables.map_inplace(image)
    }
}


proof fn lemma_inplace_matches<C: IntoPixelComponent<C>, const N: usize>(
    table: MappingTable<C, C>,
    src: TypedImageView<Pixel<C, N>>,
    old_dst: TypedImageView<Pixel<C, N>>,
    mapped: TypedImageView<Pixel<C, N>>,
    mapped_inplace: TypedImageView<Pixel<C, N>>,
)
    requires
        forall|v: C| #[trigger] v.converted() == v,
        src.spec_width() == old_dst.spec_width(),
        src.spec_height() == old_dst.spec_height(),
        table.image_mapped(src, old_dst, mapped),
        table.image_mapped_inplace(src, mapped_inplace),
    ensures
        mapped.spec_width() == mapped_inplace.spec_width(),
        mapped.spec_height() == mapped_inplace.spec_height(),
        forall|y: int, x: int|
            0 <= y < src.spec_height() && 0 <= x < src.spec_width() ==> #[trigger] mapped.spec_rows()[y][x]
                == mapped_inplace.spec_rows()[y][x],
        same_typed_image(mapped, mapped_inplace),
{
    assert forall|y: int, x: int|
        0 <= y < src.spec_height() && 0 <= x < src.spec_width() implies #[trigger] mapped.spec_rows()[y][x]
            == mapped_inplace.spec_rows()[y][x] by {
        let a = mapped.spec_rows()[y][x];
        let b = mapped_inplace.spec_rows()[y][x];
        let p = src.spec_rows()[y][x];
        assert(table.pixel_mapped(p, a));
        assert(table.pixel_mapped_inplace(p, b));
        assert forall|c: int| 0 <= c < N implies a.0[c] == b.0[c] by {
            assert(a.0[c] == table.spec_map_component(p.0[c], is_alpha_position(c, N as int)));
            assert(p.0[c].converted() == p.0[c]);
        }
        assert(a.0 =~= b.0);
    }
    assert(mapped.spec_rows() =~~= mapped_inplace.spec_rows());
}

/// Mapping an image with `u8` components in place gives the same pixels as
/// mapping it into another image of the same type and dimensions.
pub proof fn lemma_u8_inplace_matches_out_of_place<const N: usize>(
    table: MappingTable<u8, u8>,
    src: TypedImageView<Pixel<u8, N>>,
    old_dst: TypedImageView<Pixel<u8, N>>,
    mapped: TypedImageView<Pixel<u8, N>>,
    mapped_inplace: TypedImageView<Pixel<u8, N>>,
)
    requires
        src.spec_width() == old_dst.spec_width(),
        src.spec_height() == old_dst.spec_height(),
        table.image_mapped(src, old_dst, mapped),
        table.image_mapped_inplace(src, mapped_inplace),
    ensures
        mapped.spec_width() == mapped_inplace.spec_width(),
        mapped.spec_height() == mapped_inplace.spec_height(),
        forall|y: int, x: int|
            0 <= y < src.spec_height() && 0 <= x < src.spec_width() ==> #[trigger] mapped.spec_rows()[y][x]
                == mapped_inplace.spec_rows()[y][x],
        same_typed_image(mapped, mapped_inplace),
{
    lemma_inplace_matches(table, src, old_dst, mapped, mapped_inplace);
}

/// Mapping an image with `u16` components in place gives the same pixels as
/// mapping it into another image of the same type and dimensions.
pub proof fn lemma_u16_inplace_matches_out_of_place<const N: usize>(
    table: MappingTable<u16, u16>,
    src: TypedImageView<Pixel<u16, N>>,
    old_dst: TypedImageView<Pixel<u16, N>>,
    mapped: TypedImageView<Pixel<u16, N>>,
    mapped_inplace: TypedImageView<Pixel<u16, N>>,
)
    requires
        src.spec_width() == old_dst.spec_width(),
        src.spec_height() == old_dst.spec_height(),
        table.image_mapped(src, old_dst, mapped),
        table.image_mapped_inplace(src, mapped_inplace),
    ensures
        mapped.spec_width() == mapped_inplace.spec_width(),
        mapped.spec_height() == mapped_inplace.spec_height(),
        forall|y: int, x: int|
            0 <= y < src.spec_height() && 0 <= x < src.spec_width() ==> #[trigger] mapped.spec_rows()[y][x]
                == mapped_inplace.spec_rows()[y][x],
        same_typed_image(mapped, mapped_inplace),
{
    lemma_inplace_matches(table, src, old_dst, mapped, mapped_inplace);
}

/// The alpha channel of a mapped pixel is the converted alpha channel of
/// the source pixel, whatever the table holds.
pub proof fn lemma_alpha_not_mapped<In: IntoPixelComponent<Out>, Out: Copy, const N: usize>(
    table: MappingTable<In, Out>,
    src: Pixel<In, N>,
    dst: Pixel<Out, N>,
)
    requires
        N == 2 || N == 4,
        table.pixel_mapped(src, dst),
    ensures
        dst.0[N - 1] == src.0[N - 1].converted(),
{
    assert(dst.0[N - 1] == table.spec_map_component(src.0[N - 1], is_alpha_position(N - 1, N as int)));
}


/// Mapping an image in place with a group of tables (such as the forward or
/// backward tables of a `PixelComponentMapper`) gives the same image as
/// mapping it into another image of the same pixel type and dimensions.
pub proof fn lemma_group_inplace_matches_out_of_place(
    group: MappingTablesGroup,
    image: ImageView,
    old_dst: ImageView,
    mapped: ImageView,
    mapped_inplace: ImageView,
)
    requires
        image.spec_pixel_type() == old_dst.spec_pixel_type(),
        image.spec_width() == old_dst.spec_width(),
        image.spec_height() == old_dst.spec_height(),
        group.dyn_image_mapped(image, old_dst, mapped),
        group.dyn_image_mapped_inplace(image, mapped_inplace),
    ensures
        same_image(mapped, mapped_inplace),
{
    match (image, old_dst, mapped, mapped_inplace) {
        (ImageView::U8(s), ImageView::U8(o), ImageView::U8(m), ImageView::U8(i)) => {
            lemma_u8_inplace_matches_out_of_place(group.u8_u8, s, o, m, i);
        },
        (ImageView::U8x2(s), ImageView::U8x2(o), ImageView::U8x2(m), ImageView::U8x2(i)) => {
            lemma_u8_inplace_matches_out_of_place(group.u8_u8, s, o, m, i);
        },
        (ImageView::U8x3(s), ImageView::U8x3(o), ImageView::U8x3(m), ImageView::U8x3(i)) => {
            lemma_u8_inplace_matches_out_of_place(group.u8_u8, s, o, m, i);
        },
        (ImageView::U8x4(s), ImageView::U8x4(o), ImageView::U8x4(m), ImageView::U8x4(i)) => {
            lemma_u8_inplace_matches_out_of_place(group.u8_u8, s, o, m, i);
        },
        (ImageView::U16(s), ImageView::U16(o), ImageView::U16(m), ImageView::U16(i)) => {
            lemma_u16_inplace_matches_out_of_place(group.u16_u16, s, o, m, i);
        },
        (ImageView::U16x2(s), ImageView::U16x2(o), ImageView::U16x2(m), ImageView::U16x2(i)) => {
            lemma_u16_inplace_matches_out_of_place(group.u16_u16, s, o, m, i);
        },
        (ImageView::U16x3(s), ImageView::U16x3(o), ImageView::U16x3(m), ImageView::U16x3(i)) => {
            lemma_u16_inplace_matches_out_of_place(group.u16_u16, s, o, m, i);
        },
        (ImageView::U16x4(s), ImageView::U16x4(o), ImageView::U16x4(m), ImageView::U16x4(i)) => {
            lemma_u16_inplace_matches_out_of_place(group.u16_u16, s, o, m, i);
        },
        _ => {},
    }
}

/// Images can be mapped into each other exactly when both have `u8` or
/// `u16` components and the same number of components per pixel.
pub proof fn lemma_mappable_combinations(src: ImageView, dst: ImageView)
    ensures
        is_mappable_combination(src, dst) <==> ((src is U8 || src is U16) && (dst is U8 || dst is U16))
            || ((src is U8x2 || src is U16x2) && (dst is U8x2 || dst is U16x2))
            || ((src is U8x3 || src is U16x3) && (dst is U8x3 || dst is U16x3))
            || ((src is U8x4 || src is U16x4) && (dst is U8x4 || dst is U16x4)),
{
}

/// An image can be mapped in place exactly when it has `u8` or `u16` components.
pub proof fn lemma_mappable_inplace(image: ImageView)
    ensures
        is_mappable_inplace(image) <==> image is U8 || image is U8x2 || image is U8x3 || image is U8x4 || image is U16 || image is U16x2 || image is U16x3 || image is U16x4,
{
}

/// A mapped pixel has every component that is not an alpha channel replaced
/// by the table's value for it, and its alpha channel (the last of two or
/// four components) only converted into the output type.
pub proof fn lemma_pixel_mapping<In: IntoPixelComponent<Out>, Out: Copy, const N: usize>(
    table: MappingTable<In, Out>,
    src: Pixel<In, N>,
    dst: Pixel<Out, N>,
)
    requires
        table.pixel_mapped(src, dst),
    ensures
        forall|c: int|
            0 <= c < N ==> #[trigger] dst.0[c] == if (N == 2 || N == 4) && c == N - 1 {
                src.0[c].converted()
            } else {
                table.spec_table()[src.0[c].value() as int]
            },
{
    assert forall|c: int| 0 <= c < N implies #[trigger] dst.0[c] == if (N == 2 || N == 4) && c == N - 1 {
        src.0[c].converted()
    } else {
        table.spec_table()[src.0[c].value() as int]
    } by {
        assert(dst.0[c] == table.spec_map_component(src.0[c], is_alpha_position(c, N as int)));
    }
}

/// Mapping an image with a group of tables uses the table that matches the
/// component types of the two images: the destination keeps its pixel type
/// and dimensions, the pixels that the source also has are the mapped source
/// pixels, and the others are unchanged.
pub proof fn lemma_group_mapping_result(group: MappingTablesGroup, src: ImageView, old_dst: ImageView, new_dst: ImageView)
    requires
        group.dyn_image_mapped(src, old_dst, new_dst),
    ensures
        src matches ImageView::U8(s) ==> old_dst matches ImageView::U8(o) ==> new_dst matches ImageView::U8(d)
            && d.spec_width() == o.spec_width() && d.spec_height() == o.spec_height()
            && forall|y: int, x: int|
            0 <= y < o.spec_height() && 0 <= x < o.spec_width() ==> if y < s.spec_height() && x < s.spec_width() {
                group.u8_u8.pixel_mapped(s.spec_rows()[y][x], #[trigger] d.spec_rows()[y][x])
            } else {
                d.spec_rows()[y][x] == o.spec_rows()[y][x]
            },
        src matches ImageView::U8(s) ==> old_dst matches ImageView::U16(o) ==> new_dst matches ImageView::U16(d)
            && d.spec_width() == o.spec_width() && d.spec_height() == o.spec_height()
            && forall|y: int, x: int|
            0 <= y < o.spec_height() && 0 <= x < o.spec_width() ==> if y < s.spec_height() && x < s.spec_width() {
                group.u8_u16.pixel_mapped(s.spec_rows()[y][x], #[trigger] d.spec_rows()[y][x])
            } else {
                d.spec_rows()[y][x] == o.spec_rows()[y][x]
            },
        src matches ImageView::U16(s) ==> old_dst matches ImageView::U8(o) ==> new_dst matches ImageView::U8(d)
            && d.spec_width() == o.spec_width() && d.spec_height() == o.spec_height()
            && forall|y: int, x: int|
            0 <= y < o.spec_height() && 0 <= x < o.spec_width() ==> if y < s.spec_height() && x < s.spec_width() {
                group.u16_u8.pixel_mapped(s.spec_rows()[y][x], #[trigger] d.spec_rows()[y][x])
            } else {
                d.spec_rows()[y][x] == o.spec_rows()[y][x]
            },
        src matches ImageView::U16(s) ==> old_dst matches ImageView::U16(o) ==> new_dst matches ImageView::U16(d)
            && d.spec_width() == o.spec_width() && d.spec_height() == o.spec_height()
            && forall|y: int, x: int|
            0 <= y < o.spec_height() && 0 <= x < o.spec_width() ==> if y < s.spec_height() && x < s.spec_width() {
                group.u16_u16.pixel_mapped(s.spec_rows()[y][x], #[trigger] d.spec_rows()[y][x])
            } else {
                d.spec_rows()[y][x] == o.spec_rows()[y][x]
            },
        src matches ImageView::U8x2(s) ==> old_dst matches ImageView::U8x2(o) ==> new_dst matches ImageView::U8x2(d)
            && d.spec_width() == o.spec_width() && d.spec_height() == o.spec_height()
            && forall|y: int, x: int|
            0 <= y < o.spec_height() && 0 <= x < o.spec_width() ==> if y < s.spec_height() && x < s.spec_width() {
                group.u8_u8.pixel_mapped(s.spec_rows()[y][x], #[trigger] d.spec_rows()[y][x])
            } else {
                d.spec_rows()[y][x] == o.spec_rows()[y][x]
            },
        src matches ImageView::U8x2(s) ==> old_dst matches ImageView::U16x2(o) ==> new_dst matches ImageView::U16x2(d)
            && d.spec_width() == o.spec_width() && d.spec_height() == o.spec_height()
            && forall|y: int, x: int|
            0 <= y < o.spec_height() && 0 <= x < o.spec_width() ==> if y < s.spec_height() && x < s.spec_width() {
                group.u8_u16.pixel_mapped(s.spec_rows()[y][x], #[trigger] d.spec_rows()[y][x])
            } else {
                d.spec_rows()[y][x] == o.spec_rows()[y][x]
            },
        src matches ImageView::U16x2(s) ==> old_dst matches ImageView::U8x2(o) ==> new_dst matches ImageView::U8x2(d)
            && d.spec_width() == o.spec_width() && d.spec_height() == o.spec_height()
            && forall|y: int, x: int|
            0 <= y < o.spec_height() && 0 <= x < o.spec_width() ==> if y < s.spec_height() && x < s.spec_width() {
                group.u16_u8.pixel_mapped(s.spec_rows()[y][x], #[trigger] d.spec_rows()[y][x])
            } else {
                d.spec_rows()[y][x] == o.spec_rows()[y][x]
            },
        src matches ImageView::U16x2(s) ==> old_dst matches ImageView::U16x2(o) ==> new_dst matches ImageView::U16x2(d)
            && d.spec_width() == o.spec_width() && d.spec_height() == o.spec_height()
            && forall|y: int, x: int|
            0 <= y < o.spec_height() && 0 <= x < o.spec_width() ==> if y < s.spec_height() && x < s.spec_width() {
                group.u16_u16.pixel_mapped(s.spec_rows()[y][x], #[trigger] d.spec_rows()[y][x])
            } else {
                d.spec_rows()[y][x] == o.spec_rows()[y][x]
            },
        src matches ImageView::U8x3(s) ==> old_dst matches ImageView::U8x3(o) ==> new_dst matches ImageView::U8x3(d)
            && d.spec_width() == o.spec_width() && d.spec_height() == o.spec_height()
            && forall|y: int, x: int|
            0 <= y < o.spec_height() && 0 <= x < o.spec_width() ==> if y < s.spec_height() && x < s.spec_width() {
                group.u8_u8.pixel_mapped(s.spec_rows()[y][x], #[trigger] d.spec_rows()[y][x])
            } else {
                d.spec_rows()[y][x] == o.spec_rows()[y][x]
            },
        src matches ImageView::U8x3(s) ==> old_dst matches ImageView::U16x3(o) ==> new_dst matches ImageView::U16x3(d)
            && d.spec_width() == o.spec_width() && d.spec_height() == o.spec_height()
            && forall|y: int, x: int|
            0 <= y < o.spec_height() && 0 <= x < o.spec_width() ==> if y < s.spec_height() && x < s.spec_width() {
                group.u8_u16.pixel_mapped(s.spec_rows()[y][x], #[trigger] d.spec_rows()[y][x])
            } else {
                d.spec_rows()[y][x] == o.spec_rows()[y][x]
            },
        src matches ImageView::U16x3(s) ==> old_dst matches ImageView::U8x3(o) ==> new_dst matches ImageView::U8x3(d)
            && d.spec_width() == o.spec_width() && d.spec_height() == o.spec_height()
            && forall|y: int, x: int|
            0 <= y < o.spec_height() && 0 <= x < o.spec_width() ==> if y < s.spec_height() && x < s.spec_width() {
                group.u16_u8.pixel_mapped(s.spec_rows()[y][x], #[trigger] d.spec_rows()[y][x])
            } else {
                d.spec_rows()[y][x] == o.spec_rows()[y][x]
            },
        src matches ImageView::U16x3(s) ==> old_dst matches ImageView::U16x3(o) ==> new_dst matches ImageView::U16x3(d)
            && d.spec_width() == o.spec_width() && d.spec_height() == o.spec_height()
            && forall|y: int, x: int|
            0 <= y < o.spec_height() && 0 <= x < o.spec_width() ==> if y < s.spec_height() && x < s.spec_width() {
                group.u16_u16.pixel_mapped(s.spec_rows()[y][x], #[trigger] d.spec_rows()[y][x])
            } else {
                d.spec_rows()[y][x] == o.spec_rows()[y][x]
            },
        src matches ImageView::U8x4(s) ==> old_dst matches ImageView::U8x4(o) ==> new_dst matches ImageView::U8x4(d)
            && d.spec_width() == o.spec_width() && d.spec_height() == o.spec_height()
            && forall|y: int, x: int|
            0 <= y < o.spec_height() && 0 <= x < o.spec_width() ==> if y < s.spec_height() && x < s.spec_width() {
                group.u8_u8.pixel_mapped(s.spec_rows()[y][x], #[trigger] d.spec_rows()[y][x])
            } else {
                d.spec_rows()[y][x] == o.spec_rows()[y][x]
            },
        src matches ImageView::U8x4(s) ==> old_dst matches ImageView::U16x4(o) ==> new_dst matches ImageView::U16x4(d)
            && d.spec_width() == o.spec_width() && d.spec_height() == o.spec_height()
            && forall|y: int, x: int|
            0 <= y < o.spec_height() && 0 <= x < o.spec_width() ==> if y < s.spec_height() && x < s.spec_width() {
                group.u8_u16.pixel_mapped(s.spec_rows()[y][x], #[trigger] d.spec_rows()[y][x])
            } else {
                d.spec_rows()[y][x] == o.spec_rows()[y][x]
            },
        src matches ImageView::U16x4(s) ==> old_dst matches ImageView::U8x4(o) ==> new_dst matches ImageView::U8x4(d)
            && d.spec_width() == o.spec_width() && d.spec_height() == o.spec_height()
            && forall|y: int, x: int|
            0 <= y < o.spec_height() && 0 <= x < o.spec_width() ==> if y < s.spec_height() && x < s.spec_width() {
                group.u16_u8.pixel_mapped(s.spec_rows()[y][x], #[trigger] d.spec_rows()[y][x])
            } else {
                d.spec_rows()[y][x] == o.spec_rows()[y][x]
            },
        src matches ImageView::U16x4(s) ==> old_dst matches ImageView::U16x4(o) ==> new_dst matches ImageView::U16x4(d)
            && d.spec_width() == o.spec_width() && d.spec_height() == o.spec_height()
            && forall|y: int, x: int|
            0 <= y < o.spec_height() && 0 <= x < o.spec_width() ==> if y < s.spec_height() && x < s.spec_width() {
                group.u16_u16.pixel_mapped(s.spec_rows()[y][x], #[trigger] d.spec_rows()[y][x])
            } else {
                d.spec_rows()[y][x] == o.spec_rows()[y][x]
            },
{
}

/// Mapping an image in place with a group of tables uses the table of its
/// component type: the image keeps its pixel type and dimensions, and every
/// pixel is mapped, its alpha channel kept.
pub proof fn lemma_group_inplace_mapping_result(group: MappingTablesGroup, old: ImageView, new: ImageView)
    requires
        group.dyn_image_mapped_inplace(old, new),
    ensures
        old matches ImageView::U8(o) ==> new matches ImageView::U8(d)
            && d.spec_width() == o.spec_width() && d.spec_height() == o.spec_height()
            && forall|y: int, x: int|
            0 <= y < o.spec_height() && 0 <= x < o.spec_width()
                ==> group.u8_u8.pixel_mapped_inplace(o.spec_rows()[y][x], #[trigger] d.spec_rows()[y][x]),
        old matches ImageView::U16(o) ==> new matches ImageView::U16(d)
            && d.spec_width() == o.spec_width() && d.spec_height() == o.spec_height()
            && forall|y: int, x: int|
            0 <= y < o.spec_height() && 0 <= x < o.spec_width()
                ==> group.u16_u16.pixel_mapped_inplace(o.spec_rows()[y][x], #[trigger] d.spec_rows()[y][x]),
        old matches ImageView::U8x2(o) ==> new matches ImageView::U8x2(d)
            && d.spec_width() == o.spec_width() && d.spec_height() == o.spec_height()
            && forall|y: int, x: int|
            0 <= y < o.spec_height() && 0 <= x < o.spec_width()
                ==> group.u8_u8.pixel_mapped_inplace(o.spec_rows()[y][x], #[trigger] d.spec_rows()[y][x]),
        old matches ImageView::U16x2(o) ==> new matches ImageView::U16x2(d)
            && d.spec_width() == o.spec_width() && d.spec_height() == o.spec_height()
            && forall|y: int, x: int|
            0 <= y < o.spec_height() && 0 <= x < o.spec_width()
                ==> group.u16_u16.pixel_mapped_inplace(o.spec_rows()[y][x], #[trigger] d.spec_rows()[y][x]),
        old matches ImageView::U8x3(o) ==> new matches ImageView::U8x3(d)
            && d.spec_width() == o.spec_width() && d.spec_height() == o.spec_height()
            && forall|y: int, x: int|
            0 <= y < o.spec_height() && 0 <= x < o.spec_width()
                ==> group.u8_u8.pixel_mapped_inplace(o.spec_rows()[y][x], #[trigger] d.spec_rows()[y][x]),
        old matches ImageView::U16x3(o) ==> new matches ImageView::U16x3(d)
            && d.spec_width() == o.spec_width() && d.spec_height() == o.spec_height()
            && forall|y: int, x: int|
            0 <= y < o.spec_height() && 0 <= x < o.spec_width()
                ==> group.u16_u16.pixel_mapped_inplace(o.spec_rows()[y][x], #[trigger] d.spec_rows()[y][x]),
        old matches ImageView::U8x4(o) ==> new matches ImageView::U8x4(d)
            && d.spec_width() == o.spec_width() && d.spec_height() == o.spec_height()
            && forall|y: int, x: int|
            0 <= y < o.spec_height() && 0 <= x < o.spec_width()
                ==> group.u8_u8.pixel_mapped_inplace(o.spec_rows()[y][x], #[trigger] d.spec_rows()[y][x]),
        old matches ImageView::U16x4(o) ==> new matches ImageView::U16x4(d)
            && d.spec_width() == o.spec_width() && d.spec_height() == o.spec_height()
            && forall|y: int, x: int|
            0 <= y < o.spec_height() && 0 <= x < o.spec_width()
                ==> group.u16_u16.pixel_mapped_inplace(o.spec_rows()[y][x], #[trigger] d.spec_rows()[y][x]),
{
}

/// A pixel mapped in place has every component that is not an alpha channel
/// replaced by the table's value for it, and its alpha channel (the last of
/// two or four components) kept.
pub proof fn lemma_pixel_mapping_inplace<C: IntoPixelComponent<C>, const N: usize>(
    table: MappingTable<C, C>,
    src: Pixel<C, N>,
    dst: Pixel<C, N>,
)
    requires
        table.pixel_mapped_inplace(src, dst),
    ensures
        forall|c: int|
            0 <= c < N ==> #[trigger] dst.0[c] == if (N == 2 || N == 4) && c == N - 1 {
                src.0[c]
            } else {
                table.spec_table()[src.0[c].value() as int]
            },
{
}

} // verus!
