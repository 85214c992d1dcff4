//! Convolution of images with `u8` components by 16-bit fixed-point coefficients.
use vstd::prelude::*;

use crate::convolution::optimisations::{
    spec_clip8, spec_scale, CoefficientsI16Chunk, Normalizer16, PRECISION_BITS,
};
use crate::image_view::{copy_row, TypedImageView};
use crate::pixels::Pixel;

verus! {

broadcast use TypedImageView::lemma_shape;

/// Sum of the absolute values of the first `n` coefficients.
pub open spec fn abs_partial(ks: Seq<i16>, n: int) -> int
    decreases n,
{
    if n <= 0 {
        0
    } else {
        abs_partial(ks, n - 1) + if ks[n - 1] < 0 {
            -(ks[n - 1] as int)
        } else {
            ks[n - 1] as int
        }
    }
}

/// Sum of the absolute values of the coefficients.
pub open spec fn abs_sum(ks: Seq<i16>) -> int {
    abs_partial(ks, ks.len() as int)
}

/// Sum of the first `n` products of a coefficient and component `c` of the
/// pixel at the same position.
pub open spec fn weighted_sum<const N: usize>(ks: Seq<i16>, pixels: Seq<Pixel<u8, N>>, c: int, n: int) -> int
    decreases n,
{
    if n <= 0 {
        0
    } else {
        weighted_sum(ks, pixels, c, n - 1) + ks[n - 1] as int * pixels[n - 1].0[c] as int
    }
}

/// The coefficients can be applied at this precision: the precision is at
/// least one bit and no sum of `2 ^ (precision - 1)` and products of the
/// coefficients with `u8` values overflows an `i32`.
pub open spec fn coefficients_fit(precision: u8, ks: Seq<i16>) -> bool {
    &&& 1 <= precision < PRECISION_BITS
    &&& spec_scale(precision) / 2 + 255 * abs_sum(ks) <= i32::MAX
}

/// Component `c` of the output pixel: half of the scale plus the weighted
/// sum of the input pixels, shifted right by the precision and clipped.
pub open spec fn convolved_component<const N: usize>(
    ks: Seq<i16>,
    pixels: Seq<Pixel<u8, N>>,
    c: int,
    precision: u8,
) -> u8 {
    let n = if ks.len() < pixels.len() {
        ks.len() as int
    } else {
        pixels.len() as int
    };
    spec_clip8((spec_scale(precision) / 2 + weighted_sum(ks, pixels, c, n)) as i32, precision)
}

/// `out` is the convolution of `pixels` with the coefficients `ks`.
pub open spec fn pixel_convolved<const N: usize>(
    ks: Seq<i16>,
    pixels: Seq<Pixel<u8, N>>,
    precision: u8,
    out: Pixel<u8, N>,
) -> bool {
    forall|c: int| 0 <= c < N ==> #[trigger] out.0[c] == convolved_component(ks, pixels, c, precision)
}

proof fn lemma_abs_partial_monotone(ks: Seq<i16>, m: int, n: int)
    requires
        0 <= m <= n,
    ensures
        0 <= abs_partial(ks, m) <= abs_partial(ks, n),
    decreases n,
{
    if m < n {
        lemma_abs_partial_monotone(ks, m, n - 1);
    } else if n > 0 {
        lemma_abs_partial_monotone(ks, n - 1, n - 1);
    }
}

proof fn lemma_product_bound(k: i16, v: u8)
    ensures
        -255 * (if k < 0 { -(k as int) } else { k as int }) <= k as int * v as int <= 255 * (if k < 0 {
            -(k as int)
        } else {
            k as int
        }),
{
    assert(-255 * (if k < 0 { -(k as int) } else { k as int }) <= k as int * v as int <= 255 * (if k
        < 0 {
        -(k as int)
    } else {
        k as int
    })) by (nonlinear_arith)
        requires
            0 <= v <= 255,
    ;
}

proof fn lemma_scale_facts(precision: u8)
    requires
        1 <= precision < PRECISION_BITS,
    ensures
        2 <= spec_scale(precision) <= 2097152,
        spec_scale(precision) == 2 * ((1i32 << ((precision - 1) as u8)) as int),
{
    let p = precision;
    let q = (precision - 1) as u8;
    assert(2 <= (1i64 << p) <= 2097152 && (1i64 << p) == 2 * ((1i32 << q) as i64)) by (bit_vector)
        requires
            1 <= p <= 21,
            q == p - 1,
    ;
}

/// `v >> precision` clamped to the range of `u8`.
fn clip8(v: i32, precision: u8) -> (r: u8)
    requires
        precision < 32,
    ensures
        r == spec_clip8(v, precision),
{
    let s = v >> precision;
    if s < 0 {
        0
    } else if s > 255 {
        255
    } else {
        s as u8
    }
}

/// Convolves component `c` of the pixels of `src_row` from `start` on with
/// the coefficients `ks`.
fn convolve_component<const N: usize>(
    ks: &[i16],
    src_row: &[Pixel<u8, N>],
    start: usize,
    c: usize,
    normalizer: &Normalizer16,
) -> (r: u8)
    requires
        start <= src_row@.len(),
        c < N,
        coefficients_fit(normalizer.spec_precision(), ks@),
    ensures
        r == convolved_component(ks@, src_row@.skip(start as int), c as int, normalizer.spec_precision()),
{
    let precision = normalizer.precision();
    let ghost pixels = src_row@.skip(start as int);
    let ghost scale = spec_scale(precision);
    proof {
        lemma_scale_facts(precision);
    }
    let available = src_row.len() - start;
    let n = if ks.len() < available { ks.len() } else { available };
    let initial: i32 = 1i32 << (precision - 1);
    let mut ss: i32 = initial;
    let mut j: usize = 0;
    while j < n
        invariant
            coefficients_fit(precision, ks@),
            precision == normalizer.spec_precision(),
            scale == spec_scale(precision),
            2 <= scale <= 2097152,
            scale == 2 * (initial as int),
            n <= ks@.len(),
            start + n <= src_row.len(),
            pixels == src_row@.skip(start as int),
            c < N,
            j <= n,
            ss as int == initial + weighted_sum(ks@, pixels, c as int, j as int),
            -255 * abs_partial(ks@, j as int) <= weighted_sum(ks@, pixels, c as int, j as int) <= 255
                * abs_partial(ks@, j as int),
        decreases n - j,
    {
        proof {
            lemma_product_bound(ks@[j as int], pixels[j as int].0[c as int]);
            lemma_abs_partial_monotone(ks@, j + 1, ks@.len() as int);
        }
        let v = src_row[start + j].0[c];
        ss = ss + ks[j] as i32 * v as i32;
        j += 1;
    }
    proof {
        lemma_abs_partial_monotone(ks@, n as int, ks@.len() as int);
        assert(pixels.len() == src_row@.len() - start);
        let total = spec_scale(precision) / 2 + weighted_sum(ks@, pixels, c as int, n as int);
        assert(ss as int == total);
        assert(total as i32 == ss);
    }
    clip8(ss, precision)
}

/// Convolves the pixels of `src_row` from `start` on with the coefficients
/// `ks`, overwriting the components of `target`.
fn convolve_pixel<const N: usize>(
    ks: &[i16],
    src_row: &[Pixel<u8, N>],
    start: usize,
    normalizer: &Normalizer16,
    target: Pixel<u8, N>,
) -> (r: Pixel<u8, N>)
    requires
        start <= src_row@.len(),
        coefficients_fit(normalizer.spec_precision(), ks@),
    ensures
        pixel_convolved(ks@, src_row@.skip(start as int), normalizer.spec_precision(), r),
{
    let mut out: [u8; N] = target.0;
    let mut c: usize = 0;
    while c < N
        invariant
            start <= src_row@.len(),
            coefficients_fit(normalizer.spec_precision(), ks@),
            c <= N,
            forall|k: int|
                0 <= k < c ==> #[trigger] out[k] == convolved_component(
                    ks@,
                    src_row@.skip(start as int),
                    k,
                    normalizer.spec_precision(),
                ),
        decreases N - c,
    {
        out[c] = convolve_component(ks, src_row, start, c, normalizer);
        c += 1;
    }
    Pixel(out)
}


/// Every chunk of the normalizer can be applied at its precision, and starts
/// within a row of `src_width` pixels.
pub open spec fn fits_horizontally(normalizer: &Normalizer16, src_width: nat) -> bool {
    forall|k: int|
        0 <= k < normalizer.spec_chunks().len() ==> coefficients_fit(
            normalizer.spec_precision(),
            (#[trigger] normalizer.spec_chunks()[k]).spec_values(),
        ) && normalizer.spec_chunks()[k].spec_start() <= src_width
}

/// `new_dst` is `old_dst` with pixel `x` of every row `y` that has a source
/// row `y + offset` and a chunk `x` replaced by the convolution of that
/// source row with chunk `x`.
pub open spec fn horizontally_convolved<const N: usize>(
    src: TypedImageView<Pixel<u8, N>>,
    old_dst: TypedImageView<Pixel<u8, N>>,
    new_dst: TypedImageView<Pixel<u8, N>>,
    offset: int,
    normalizer: &Normalizer16,
) -> bool {
    &&& new_dst.spec_width() == old_dst.spec_width()
    &&& new_dst.spec_height() == old_dst.spec_height()
    &&& forall|y: int, x: int|
        0 <= y < old_dst.spec_height() && 0 <= x < old_dst.spec_width() ==> if y + offset
            < src.spec_height() && x < normalizer.spec_chunks().len() {
            pixel_convolved(
                normalizer.spec_chunks()[x].spec_values(),
                src.spec_rows()[y + offset].skip(normalizer.spec_chunks()[x].spec_start() as int),
                normalizer.spec_precision(),
                #[trigger] new_dst.spec_rows()[y][x],
            )
        } else {
            new_dst.spec_rows()[y][x] == old_dst.spec_rows()[y][x]
        }
}

/// Horizontal convolution: pixel `x` of row `y` of `dst_view` becomes the
/// convolution of row `y + offset` of `src_view` with chunk `x` of the
/// normalizer, for the rows and chunks that exist.
pub fn horiz_convolution<const N: usize>(
    src_view: &TypedImageView<Pixel<u8, N>>,
    dst_view: &mut TypedImageView<Pixel<u8, N>>,
    offset: u32,
    normalizer: &Normalizer16,
)
    requires
        offset <= src_view.spec_height(),
        fits_horizontally(normalizer, src_view.spec_width()),
    ensures
        horizontally_convolved(*src_view, *old(dst_view), *final(dst_view), offset as int, normalizer),
{
    let coefficients_chunks = normalizer.chunks();
    let src_rows = src_view.height() - offset;
    let height = if src_rows < dst_view.height() { src_rows } else { dst_view.height() };
    let mut y: u32 = 0;
    while y < height
        invariant
            coefficients_chunks@ == normalizer.spec_chunks(),
            fits_horizontally(normalizer, src_view.spec_width()),
            offset <= src_view.spec_height(),
            height <= src_view.spec_height() - offset,
            height <= dst_view.spec_height(),
            y <= height,
            dst_view.spec_width() == old(dst_view).spec_width(),
            dst_view.spec_height() == old(dst_view).spec_height(),
            forall|j: int, x: int|
                0 <= j < y && 0 <= x < dst_view.spec_width() ==> if x < normalizer.spec_chunks().len() {
                    pixel_convolved(
                        normalizer.spec_chunks()[x].spec_values(),
                        src_view.spec_rows()[j + offset].skip(normalizer.spec_chunks()[x].spec_start() as int),
                        normalizer.spec_precision(),
                        #[trigger] dst_view.spec_rows()[j][x],
                    )
                } else {
                    dst_view.spec_rows()[j][x] == old(dst_view).spec_rows()[j][x]
                },
            forall|j: int| y <= j < dst_view.spec_height() ==> #[trigger] dst_view.spec_rows()[j] == old(dst_view).spec_rows()[j],
        decreases height - y,
    {
        proof {
            TypedImageView::lemma_shape(src_view);
        }
        let src_row = src_view.row((y + offset) as usize);
        let mut row = copy_row(dst_view.row(y as usize));
        let n = if coefficients_chunks.len() < row.len() { coefficients_chunks.len() } else { row.len() };
        let mut x: usize = 0;
        while x < n
            invariant
                coefficients_chunks@ == normalizer.spec_chunks(),
                fits_horizontally(normalizer, src_view.spec_width()),
                src_row@ == src_view.spec_rows()[y + offset],
                src_row@.len() == src_view.spec_width(),
                n <= coefficients_chunks@.len(),
                n <= row@.len(),
                row@.len() == dst_view.spec_width(),
                x <= n,
                forall|i: int|
                    0 <= i < x ==> pixel_convolved(
                        normalizer.spec_chunks()[i].spec_values(),
                        src_row@.skip(normalizer.spec_chunks()[i].spec_start() as int),
                        normalizer.spec_precision(),
                        #[trigger] row@[i],
                    ),
                forall|i: int| x <= i < row@.len() ==> #[trigger] row@[i] == dst_view.spec_rows()[y as int][i],
            decreases n - x,
        {
            let chunk: &CoefficientsI16Chunk = &coefficients_chunks[x];
            let target = row[x];
            row[x] = convolve_pixel(chunk.values(), src_row.as_slice(), chunk.start() as usize, normalizer, target);
            x += 1;
        }
        dst_view.set_row(y as usize, row);
        y += 1;
    }
}

/// The pixels of column `x` of the rows from `start` on.
pub open spec fn column<P>(rows: Seq<Seq<P>>, x: int, start: int) -> Seq<P> {
    Seq::new((rows.len() - start) as nat, |i: int| rows[start + i][x])
}

/// Every chunk of the normalizer used for a row of a destination image of
/// `dst_height` rows can be applied at its precision, and all its input rows
/// lie within a source image of `src_height` rows.
pub open spec fn fits_vertically(normalizer: &Normalizer16, src_height: nat, dst_height: nat) -> bool {
    forall|k: int|
        0 <= k < normalizer.spec_chunks().len() && k < dst_height ==> coefficients_fit(
            normalizer.spec_precision(),
            (#[trigger] normalizer.spec_chunks()[k]).spec_values(),
        ) && normalizer.spec_chunks()[k].spec_start() + normalizer.spec_chunks()[k].spec_values().len()
            <= src_height
}

/// `new_dst` is `old_dst` with pixel `x` of every row `y` that has a chunk
/// replaced by the convolution of column `x` of the source, from the first
/// row of chunk `y` on, with chunk `y`.
pub open spec fn vertically_convolved<const N: usize>(
    src: TypedImageView<Pixel<u8, N>>,
    old_dst: TypedImageView<Pixel<u8, N>>,
    new_dst: TypedImageView<Pixel<u8, N>>,
    normalizer: &Normalizer16,
) -> bool {
    &&& new_dst.spec_width() == old_dst.spec_width()
    &&& new_dst.spec_height() == old_dst.spec_height()
    &&& forall|y: int, x: int|
        0 <= y < old_dst.spec_height() && 0 <= x < old_dst.spec_width() ==> if y
            < normalizer.spec_chunks().len() {
            pixel_convolved(
                normalizer.spec_chunks()[y].spec_values(),
                column(src.spec_rows(), x, normalizer.spec_chunks()[y].spec_start() as int),
                normalizer.spec_precision(),
                #[trigger] new_dst.spec_rows()[y][x],
            )
        } else {
            new_dst.spec_rows()[y][x] == old_dst.spec_rows()[y][x]
        }
}

/// The pixels of column `x` of `src_view`, from row `start` on, as many as
/// there are coefficients.
pub(crate) fn column_pixels<P: Copy>(src_view: &TypedImageView<P>, x: usize, start: usize, count: usize) -> (r: Vec<P>)
    requires
        x < src_view.spec_width(),
        start + count <= src_view.spec_height(),
    ensures
        r@ == column(src_view.spec_rows(), x as int, start as int).take(count as int),
{
    let mut res: Vec<P> = Vec::new();
    let mut i: usize = 0;
    while i < count
        invariant
            x < src_view.spec_width(),
            start + count <= src_view.spec_height(),
            i <= count,
            res@ == column(src_view.spec_rows(), x as int, start as int).take(i as int),
        decreases count - i,
    {
        let p = src_view.row(start + i)[x];
        res.push(p);
        i += 1;
        assert(res@ =~= column(src_view.spec_rows(), x as int, start as int).take(i as int));
    }
    res
}

/// Convolution of the first `n` pixels equals convolution of all of them,
/// when there are exactly `n` coefficients.
proof fn lemma_weighted_sum_prefix<const N: usize>(ks: Seq<i16>, pixels: Seq<Pixel<u8, N>>, prefix: Seq<Pixel<u8, N>>, c: int, n: int)
    requires
        0 <= n <= prefix.len(),
        n <= pixels.len(),
        forall|i: int| 0 <= i < n ==> prefix[i] == pixels[i],
    ensures
        weighted_sum(ks, prefix, c, n) == weighted_sum(ks, pixels, c, n),
    decreases n,
{
    if n > 0 {
        lemma_weighted_sum_prefix(ks, pixels, prefix, c, n - 1);
    }
}

/// Vertical convolution: pixel `x` of row `y` of `dst_view` becomes the
/// convolution of column `x` of `src_view` with chunk `y` of the normalizer,
/// for the rows that have a chunk.
pub fn vert_convolution<const N: usize>(
    src_view: &TypedImageView<Pixel<u8, N>>,
    dst_view: &mut TypedImageView<Pixel<u8, N>>,
    normalizer: &Normalizer16,
)
    requires
        old(dst_view).spec_width() <= src_view.spec_width(),
        fits_vertically(normalizer, src_view.spec_height(), old(dst_view).spec_height()),
    ensures
        vertically_convolved(*src_view, *old(dst_view), *final(dst_view), normalizer),
{
    let coefficients_chunks = normalizer.chunks();
    let height = if coefficients_chunks.len() < dst_view.height() as usize {
        coefficients_chunks.len()
    } else {
        dst_view.height() as usize
    };
    let mut y: usize = 0;
    while y < height
        invariant
            coefficients_chunks@ == normalizer.spec_chunks(),
            dst_view.spec_width() <= src_view.spec_width(),
            fits_vertically(normalizer, src_view.spec_height(), dst_view.spec_height()),
            height <= coefficients_chunks@.len(),
            height <= dst_view.spec_height(),
            y <= height,
            dst_view.spec_width() == old(dst_view).spec_width(),
            dst_view.spec_height() == old(dst_view).spec_height(),
            forall|j: int, x: int|
                0 <= j < y && 0 <= x < dst_view.spec_width() ==> pixel_convolved(
                    normalizer.spec_chunks()[j].spec_values(),
                    column(src_view.spec_rows(), x, normalizer.spec_chunks()[j].spec_start() as int),
                    normalizer.spec_precision(),
                    #[trigger] dst_view.spec_rows()[j][x],
                ),
            forall|j: int| y <= j < dst_view.spec_height() ==> #[trigger] dst_view.spec_rows()[j] == old(dst_view).spec_rows()[j],
        decreases height - y,
    {
        let chunk: &CoefficientsI16Chunk = &coefficients_chunks[y];
        let ks = chunk.values();
        let start = chunk.start() as usize;
        let mut row = copy_row(dst_view.row(y));
        let mut x: usize = 0;
        while x < row.len()
            invariant
                coefficients_chunks@ == normalizer.spec_chunks(),
                y < height,
                height <= coefficients_chunks@.len(),
                height <= dst_view.spec_height(),
                fits_vertically(normalizer, src_view.spec_height(), dst_view.spec_height()),
                ks@ == normalizer.spec_chunks()[y as int].spec_values(),
                start == normalizer.spec_chunks()[y as int].spec_start(),
                row@.len() == dst_view.spec_width(),
                dst_view.spec_width() <= src_view.spec_width(),
                x <= row@.len(),
                forall|i: int|
                    0 <= i < x ==> pixel_convolved(
                        ks@,
                        column(src_view.spec_rows(), i, start as int),
                        normalizer.spec_precision(),
                        #[trigger] row@[i],
                    ),
            decreases row@.len() - x,
        {
            assert(coefficients_fit(normalizer.spec_precision(), ks@)
                && start + ks@.len() <= src_view.spec_height());
            let pixels = column_pixels(src_view, x, start, ks.len());
            let target = row[x];
            let p = convolve_pixel(ks, pixels.as_slice(), 0, normalizer, target);
            proof {
                let col = column(src_view.spec_rows(), x as int, start as int);
                assert(pixels@.skip(0) =~= pixels@);
                assert forall|c: int| 0 <= c < N implies #[trigger] p.0[c] == convolved_component(
                    ks@,
                    col,
                    c,
                    normalizer.spec_precision(),
                ) by {
                    lemma_weighted_sum_prefix(ks@, col, pixels@, c, ks@.len() as int);
                }
            }
            row[x] = p;
            x += 1;
        }
        dst_view.set_row(y, row);
        y += 1;
    }
}

/// Sum of the first `n` coefficients.
pub open spec fn coefficients_sum(ks: Seq<i16>, n: int) -> int
    decreases n,
{
    if n <= 0 {
        0
    } else {
        coefficients_sum(ks, n - 1) + ks[n - 1] as int
    }
}

proof fn lemma_weighted_sum_of_flat<const N: usize>(ks: Seq<i16>, pixels: Seq<Pixel<u8, N>>, c: int, v: u8, n: int)
    requires
        0 <= n <= pixels.len(),
        forall|i: int| 0 <= i < n ==> #[trigger] pixels[i].0[c] == v,
    ensures
        weighted_sum(ks, pixels, c, n) == v as int * coefficients_sum(ks, n),
    decreases n,
{
    if n > 0 {
        lemma_weighted_sum_of_flat(ks, pixels, c, v, n - 1);
        let k = ks[n - 1] as int;
        let prev = coefficients_sum(ks, n - 1);
        assert(v as int * prev + k * v as int == v as int * (prev + k)) by (nonlinear_arith);
    }
}

/// Coefficients that sum to exactly `2 ^ precision` keep a flat color: when
/// component `c` of all the input pixels under the coefficients has the same
/// value, the output component has that value too.
pub proof fn lemma_flat_color_preserved<const N: usize>(
    ks: Seq<i16>,
    pixels: Seq<Pixel<u8, N>>,
    c: int,
    v: u8,
    precision: u8,
)
    requires
        1 <= precision < PRECISION_BITS,
        0 <= c < N,
        ks.len() <= pixels.len(),
        coefficients_sum(ks, ks.len() as int) == spec_scale(precision),
        forall|i: int| 0 <= i < ks.len() ==> #[trigger] pixels[i].0[c] == v,
    ensures
        convolved_component(ks, pixels, c, precision) == v,
{
    let n = ks.len() as int;
    lemma_weighted_sum_of_flat(ks, pixels, c, v, n);
    let p = precision;
    let s = 1i64 << p;
    assert(2 <= s <= 2097152) by (bit_vector)
        requires
            1 <= p <= 21,
            s == 1i64 << p,
    ;
    assert(0 <= s / 2 + (v as i64) * s < 0x4000_0000) by (nonlinear_arith)
        requires
            2 <= s <= 2097152,
            0 <= v <= 255,
    ;
    let total: i64 = (s / 2 + (v as i64) * s) as i64;
    assert(((total as i32) >> p) == v as i32) by (bit_vector)
        requires
            1 <= p <= 21,
            s == 1i64 << p,
            total == s / 2 + (v as i64) * s,
    ;
    assert(total as int == spec_scale(precision) / 2 + v as int * spec_scale(precision)) by (nonlinear_arith)
        requires
            total == s / 2 + (v as i64) * s,
            2 <= s <= 2097152,
            0 <= v <= 255,
            spec_scale(precision) == s as int,
    ;
}

} // verus!
