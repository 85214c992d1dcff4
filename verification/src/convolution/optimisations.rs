//! Fixed-point coefficients of convolution and clipping of the results.
use vstd::prelude::*;

use crate::convolution::Bound;

verus! {

/// The value of the clip table at `index`: the index minus 640, clamped to
/// the range of `u8`.
pub open spec fn spec_clip_table_value(index: int) -> u8 {
    if index < 640 {
        0
    } else if index < 640 + 255 {
        (index - 640) as u8
    } else {
        255
    }
}

/// Builds the table that clips values from -640 to 639 into the range of `u8`:
/// the value at `i` is `i - 640` clamped to `[0, 255]`.
pub fn get_clip_table() -> (r: [u8; 1280])
    ensures
        forall|i: int| 0 <= i < 1280 ==> #[trigger] r[i] == spec_clip_table_value(i),
{
    let mut table = [0u8; 1280];
    let mut i: usize = 640;
    while i < 640 + 255
        invariant
            640 <= i <= 640 + 255,
            forall|j: int| 0 <= j < 640 ==> #[trigger] table[j] == 0,
            forall|j: int| 640 <= j < i ==> #[trigger] table[j] == spec_clip_table_value(j),
            forall|j: int| i <= j < 1280 ==> #[trigger] table[j] == 0,
        decreases 640 + 255 - i,
    {
        table[i] = (i - 640) as u8;
        i += 1;
    }
    while i < 1280
        invariant
            640 + 255 <= i <= 1280,
            forall|j: int| 0 <= j < i ==> #[trigger] table[j] == spec_clip_table_value(j),
        decreases 1280 - i,
    {
        table[i] = 255;
        i += 1;
    }
    table
}

/// The greatest precision of 16-bit coefficients: 8 bits of the result and
/// two extra bits for overflow leave 22 bits of an `i32`.
pub const PRECISION_BITS: u8 = 32 - 8 - 2;

/// The greatest precision of 32-bit coefficients: 16 bits of the result and
/// two extra bits for overflow leave 46 bits of an `i64`.
pub const PRECISION16_BITS: u8 = 64 - 16 - 2;

/// `2 ^ precision`, the fixed-point scale of coefficients.
pub open spec fn spec_scale(precision: u8) -> int {
    (1i64 << precision) as int
}

/// `v >> precision` clamped to the range of `u8`.
pub open spec fn spec_clip8(v: i32, precision: u8) -> u8 {
    let s = v >> precision;
    if s < 0 {
        0
    } else if s > 255 {
        255
    } else {
        s as u8
    }
}

/// `v >> precision` clamped to the range of `u16`.
pub open spec fn spec_clip16(v: i64, precision: u8) -> u16 {
    let s = v >> precision;
    if s < 0 {
        0
    } else if s > 65535 {
        65535
    } else {
        s as u16
    }
}

/// Coefficients in 16-bit fixed point for one output pixel, used from the
/// input pixel `start` on.
#[derive(Debug, Clone)]
pub struct CoefficientsI16Chunk {
    pub start: u32,
    values: Vec<i16>,
}

impl CoefficientsI16Chunk {
    /// The first input pixel of the chunk.
    pub closed spec fn spec_start(&self) -> u32 {
        self.start
    }

    /// The coefficients of the chunk.
    pub closed spec fn spec_values(&self) -> Seq<i16> {
        self.values@
    }

    /// The first input pixel of the chunk.
    pub fn start(&self) -> (r: u32)
        ensures
            r == self.spec_start(),
    {
        self.start
    }

    /// The coefficients of the chunk.
    pub fn values(&self) -> (r: &[i16])
        ensures
            r@ == self.spec_values(),
    {
        self.values.as_slice()
    }
}

/// Coefficients in 32-bit fixed point for one output pixel, used from the
/// input pixel `start` on.
#[derive(Debug, Clone)]
pub struct CoefficientsI32Chunk {
    pub start: u32,
    values: Vec<i32>,
}

impl CoefficientsI32Chunk {
    /// The first input pixel of the chunk.
    pub closed spec fn spec_start(&self) -> u32 {
        self.start
    }

    /// The coefficients of the chunk.
    pub closed spec fn spec_values(&self) -> Seq<i32> {
        self.values@
    }

    /// The first input pixel of the chunk.
    pub fn start(&self) -> (r: u32)
        ensures
            r == self.spec_start(),
    {
        self.start
    }

    /// The coefficients of the chunk.
    pub fn values(&self) -> (r: &[i32])
        ensures
            r@ == self.spec_values(),
    {
        self.values.as_slice()
    }
}

/// The chunks of coefficients for the output pixels: chunk `k` starts at
/// `bounds[k].start` and holds the first `min(bounds[k].size, window_size)`
/// values of the `k`-th window of `window_size` values.
pub open spec fn chunks_of<T>(values: Seq<T>, window_size: nat, bounds: Seq<Bound>) -> nat {
    if window_size == 0 {
        0
    } else {
        let windows = values.len() / window_size;
        if windows < bounds.len() {
            windows
        } else {
            bounds.len()
        }
    }
}

/// The values of chunk `k`.
pub open spec fn chunk_values<T>(values: Seq<T>, window_size: nat, bounds: Seq<Bound>, k: int) -> Seq<T> {
    let size = if bounds[k].size < window_size {
        bounds[k].size as int
    } else {
        window_size as int
    };
    values.subrange(k * window_size, k * window_size + size)
}

/// Normalized 16-bit coefficients of a convolution, with their precision.
pub struct Normalizer16 {
    precision: u8,
    chunks: Vec<CoefficientsI16Chunk>,
    clip_table: [u8; 1280],
}

impl Normalizer16 {
    #[verifier::type_invariant]
    spec fn inv(self) -> bool {
        &&& self.precision < PRECISION_BITS
        &&& forall|i: int| 0 <= i < 1280 ==> #[trigger] self.clip_table[i] == spec_clip_table_value(i)
    }

    /// Number of fractional bits of the coefficients.
    pub closed spec fn spec_precision(&self) -> u8 {
        self.precision
    }

    /// The chunks of coefficients, one per output pixel.
    pub closed spec fn spec_chunks(&self) -> Seq<CoefficientsI16Chunk> {
        self.chunks@
    }

    /// Creates the normalizer from coefficients already scaled by
    /// `2 ^ precision` and rounded, `window_size` of them per output pixel,
    /// and the bounds of the input pixels of each output pixel.
    pub fn from_scaled_coefficients(precision: u8, values: &Vec<i16>, window_size: usize, bounds: &Vec<Bound>) -> (r: Self)
        requires
            precision < PRECISION_BITS,
        ensures
            r.spec_precision() == precision,
            r.spec_chunks().len() == chunks_of(values@, window_size as nat, bounds@),
            forall|k: int|
                0 <= k < r.spec_chunks().len() ==> (#[trigger] r.spec_chunks()[k]).spec_start() == bounds@[k].start
                    && r.spec_chunks()[k].spec_values() == chunk_values(values@, window_size as nat, bounds@, k),
    {
        let chunks = build_chunks(values, window_size, bounds);
        Normalizer16 { precision, chunks, clip_table: get_clip_table() }
    }

    /// Number of fractional bits of the coefficients.
    pub fn precision(&self) -> (r: u8)
        ensures
            r == self.spec_precision(),
            r < PRECISION_BITS,
    {
        proof {
            use_type_invariant(self);
        }
        self.precision
    }

    /// The chunks of coefficients, one per output pixel.
    pub fn chunks(&self) -> (r: &[CoefficientsI16Chunk])
        ensures
            r@ == self.spec_chunks(),
    {
        self.chunks.as_slice()
    }

    /// Number of chunks of coefficients.
    pub fn chunks_len(&self) -> (r: usize)
        ensures
            r == self.spec_chunks().len(),
    {
        self.chunks.len()
    }

    /// `v >> precision` clamped to the range of `u8`, looked up in the clip
    /// table; `v >> precision` must lie in `[-640, 639]`.
    pub fn clip(&self, v: i32) -> (r: u8)
        requires
            -640 <= v >> self.spec_precision() < 640,
        ensures
            r == spec_clip8(v, self.spec_precision()),
    {
        proof {
            use_type_invariant(self);
        }
        let s = v >> self.precision;
        let index = (640 + s) as usize;
        self.clip_table[index]
    }
}

/// Normalized 32-bit coefficients of a convolution, with their precision.
pub struct Normalizer32 {
    precision: u8,
    chunks: Vec<CoefficientsI32Chunk>,
}

impl Normalizer32 {
    #[verifier::type_invariant]
    spec fn inv(self) -> bool {
        self.precision < PRECISION16_BITS
    }

    /// Number of fractional bits of the coefficients.
    pub closed spec fn spec_precision(&self) -> u8 {
        self.precision
    }

    /// The chunks of coefficients, one per output pixel.
    pub closed spec fn spec_chunks(&self) -> Seq<CoefficientsI32Chunk> {
        self.chunks@
    }

    /// Creates the normalizer from coefficients already scaled by
    /// `2 ^ precision` and rounded, `window_size` of them per output pixel,
    /// and the bounds of the input pixels of each output pixel.
    pub fn from_scaled_coefficients(precision: u8, values: &Vec<i32>, window_size: usize, bounds: &Vec<Bound>) -> (r: Self)
        requires
            precision < PRECISION16_BITS,
        ensures
            r.spec_precision() == precision,
            r.spec_chunks().len() == chunks_of(values@, window_size as nat, bounds@),
            forall|k: int|
                0 <= k < r.spec_chunks().len() ==> (#[trigger] r.spec_chunks()[k]).spec_start() == bounds@[k].start
                    && r.spec_chunks()[k].spec_values() == chunk_values(values@, window_size as nat, bounds@, k),
    {
        let chunks = build_chunks32(values, window_size, bounds);
        Normalizer32 { precision, chunks }
    }

    /// Number of fractional bits of the coefficients.
    pub fn precision(&self) -> (r: u8)
        ensures
            r == self.spec_precision(),
            r < PRECISION16_BITS,
    {
        proof {
            use_type_invariant(self);
        }
        self.precision
    }

    /// The chunks of coefficients, one per output pixel.
    pub fn chunks(&self) -> (r: &[CoefficientsI32Chunk])
        ensures
            r@ == self.spec_chunks(),
    {
        self.chunks.as_slice()
    }

    /// Number of chunks of coefficients.
    pub fn chunks_len(&self) -> (r: usize)
        ensures
            r == self.spec_chunks().len(),
    {
        self.chunks.len()
    }

    /// `v >> precision` clamped to the range of `u16`.
    pub fn clip(&self, v: i64) -> (r: u16)
        ensures
            r == spec_clip16(v, self.spec_precision()),
    {
        proof {
            use_type_invariant(self);
        }
        let s = v >> self.precision;
        let s = if s < u16::MAX as i64 { s } else { u16::MAX as i64 };
        let s = if s > 0 { s } else { 0 };
        s as u16
    }
}

/// Builds the chunks of 16-bit coefficients.
fn build_chunks(values: &Vec<i16>, window_size: usize, bounds: &Vec<Bound>) -> (r: Vec<CoefficientsI16Chunk>)
    ensures
        r@.len() == chunks_of(values@, window_size as nat, bounds@),
        forall|k: int|
            0 <= k < r@.len() ==> (#[trigger] r@[k]).spec_start() == bounds@[k].start
                && r@[k].spec_values() == chunk_values(values@, window_size as nat, bounds@, k),
{
    let mut chunks: Vec<CoefficientsI16Chunk> = Vec::new();
    if window_size == 0 {
        return chunks;
    }
    let ghost n = chunks_of(values@, window_size as nat, bounds@);
    let mut k: usize = 0;
    let mut offset: usize = 0;
    while k < bounds.len() && window_size <= values.len() - offset
        invariant
            window_size > 0,
            n == chunks_of(values@, window_size as nat, bounds@),
            k <= n,
            offset == k * window_size,
            offset <= values@.len(),
            chunks@.len() == k,
            forall|j: int|
                0 <= j < k ==> (#[trigger] chunks@[j]).spec_start() == bounds@[j].start
                    && chunks@[j].spec_values() == chunk_values(values@, window_size as nat, bounds@, j),
        decreases bounds@.len() - k,
    {
        proof {
            assert(k < n) by (nonlinear_arith)
                requires
                    offset == k * window_size,
                    offset + window_size <= values@.len(),
                    k < bounds@.len(),
                    window_size > 0,
                    n == if (values@.len() as int) / (window_size as int) < bounds@.len() {
                        (values@.len() as int) / (window_size as int)
                    } else {
                        bounds@.len() as int
                    },
            ;
        }
        let bound = bounds[k];
        let size = if (bound.size as usize) < window_size { bound.size as usize } else { window_size };
        let mut chunk_values_vec: Vec<i16> = Vec::new();
        let mut i: usize = 0;
        while i < size
            invariant
                size <= window_size,
                offset + window_size <= values.len(),
                i <= size,
                chunk_values_vec@ == values@.subrange(offset as int, offset + i),
            decreases size - i,
        {
            let idx: usize = offset + i;
            chunk_values_vec.push(values[idx]);
            i += 1;
            assert(chunk_values_vec@ =~= values@.subrange(offset as int, offset + i));
        }
        chunks.push(CoefficientsI16Chunk { start: bound.start, values: chunk_values_vec });
        proof {
            assert((k + 1) * window_size == k * window_size + window_size) by (nonlinear_arith);
        }
        k += 1;
        offset += window_size;
    }
    proof {
        assert(k == n) by (nonlinear_arith)
            requires
                offset == k * window_size,
                k <= n,
                !(k < bounds@.len() && offset + window_size <= values@.len()),
                window_size > 0,
                n == if (values@.len() as int) / (window_size as int) < bounds@.len() {
                    (values@.len() as int) / (window_size as int)
                } else {
                    bounds@.len() as int
                },
        ;
    }
    chunks
}

/// Builds the chunks of 32-bit coefficients.
fn build_chunks32(values: &Vec<i32>, window_size: usize, bounds: &Vec<Bound>) -> (r: Vec<CoefficientsI32Chunk>)
    ensures
        r@.len() == chunks_of(values@, window_size as nat, bounds@),
        forall|k: int|
            0 <= k < r@.len() ==> (#[trigger] r@[k]).spec_start() == bounds@[k].start
                && r@[k].spec_values() == chunk_values(values@, window_size as nat, bounds@, k),
{
    let mut chunks: Vec<CoefficientsI32Chunk> = Vec::new();
    if window_size == 0 {
        return chunks;
    }
    let ghost n = chunks_of(values@, window_size as nat, bounds@);
    let mut k: usize = 0;
    let mut offset: usize = 0;
    while k < bounds.len() && window_size <= values.len() - offset
        invariant
            window_size > 0,
            n == chunks_of(values@, window_size as nat, bounds@),
            k <= n,
            offset == k * window_size,
            offset <= values@.len(),
            chunks@.len() == k,
            forall|j: int|
                0 <= j < k ==> (#[trigger] chunks@[j]).spec_start() == bounds@[j].start
                    && chunks@[j].spec_values() == chunk_values(values@, window_size as nat, bounds@, j),
        decreases bounds@.len() - k,
    {
        proof {
            assert(k < n) by (nonlinear_arith)
                requires
                    offset == k * window_size,
                    offset + window_size <= values@.len(),
                    k < bounds@.len(),
                    window_size > 0,
                    n == if (values@.len() as int) / (window_size as int) < bounds@.len() {
                        (values@.len() as int) / (window_size as int)
                    } else {
                        bounds@.len() as int
                    },
            ;
        }
        let bound = bounds[k];
        let size = if (bound.size as usize) < window_size { bound.size as usize } else { window_size };
        let mut chunk_values_vec: Vec<i32> = Vec::new();
        let mut i: usize = 0;
        while i < size
            invariant
                size <= window_size,
                offset + window_size <= values.len(),
                i <= size,
                chunk_values_vec@ == values@.subrange(offset as int, offset + i),
            decreases size - i,
        {
            let idx: usize = offset + i;
            chunk_values_vec.push(values[idx]);
            i += 1;
            assert(chunk_values_vec@ =~= values@.subrange(offset as int, offset + i));
        }
        chunks.push(CoefficientsI32Chunk { start: bound.start, values: chunk_values_vec });
        proof {
            assert((k + 1) * window_size == k * window_size + window_size) by (nonlinear_arith);
        }
        k += 1;
        offset += window_size;
    }
    proof {
        assert(k == n) by (nonlinear_arith)
            requires
                offset == k * window_size,
                k <= n,
                !(k < bounds@.len() && offset + window_size <= values@.len()),
                window_size > 0,
                n == if (values@.len() as int) / (window_size as int) < bounds@.len() {
                    (values@.len() as int) / (window_size as int)
                } else {
                    bounds@.len() as int
                },
        ;
    }
    chunks
}

/// Clipping to 8 bits divides by `2 ^ precision`, rounding down, and clamps
/// the quotient to `[0, 255]`.
pub proof fn lemma_clip8_formula(v: i32, precision: u8)
    requires
        precision < PRECISION_BITS,
    ensures
        spec_clip8(v, precision) as int == ({
            let q = v as int / (1i64 << precision) as int;
            if q < 0 {
                0
            } else if q > 255 {
                255
            } else {
                q
            }
        }),
{
    let p = precision;
    let s = 1i64 << p;
    let q = v >> p;
    assert(1 <= s <= 0x20_0000 && (q as i64) * s <= v as i64 && (v as i64) < (q as i64) * s + s) by (bit_vector)
        requires
            p < 22,
            s == 1i64 << p,
            q == v >> p,
    ;
    let qi = q as int;
    let si = s as int;
    assert(v as int / si == qi) by (nonlinear_arith)
        requires
            si >= 1,
            qi * si <= v as int,
            (v as int) < qi * si + si,
    ;
}

/// Clipping to 16 bits divides by `2 ^ precision`, rounding down, and clamps
/// the quotient to `[0, 65535]`.
pub proof fn lemma_clip16_formula(v: i64, precision: u8)
    requires
        precision < PRECISION16_BITS,
    ensures
        spec_clip16(v, precision) as int == ({
            let q = v as int / (1i64 << precision) as int;
            if q < 0 {
                0
            } else if q > 65535 {
                65535
            } else {
                q
            }
        }),
{
    let p = precision;
    let s = 1i64 << p;
    let q = v >> p;
    let m = q << p;
    assert(1 <= s <= 0x2000_0000_0000 && m <= v && v - m < s) by (bit_vector)
        requires
            p < 46,
            s == 1i64 << p,
            q == v >> p,
            m == q << p,
    ;
    assert(m == q * s) by (bit_vector)
        requires
            p < 46,
            s == 1i64 << p,
            q == v >> p,
            m == q << p,
    ;
    let qi = q as int;
    let si = s as int;
    assert(v as int / si == qi) by (nonlinear_arith)
        requires
            si >= 1,
            qi * si <= v as int,
            (v as int) < qi * si + si,
    ;
}

} // verus!
