//! Arithmetic shared by the functions that multiply or divide by alpha.
use vstd::prelude::*;

verus! {

/// Number of fractional bits of the reciprocals of alpha.
pub const PRECISION: u32 = 8;

/// `a * b / 255`, rounded to the nearest integer (halves round up).
pub open spec fn spec_mul_div_255(a: u8, b: u8) -> u8 {
    ((a as int * b as int + 127) / 255) as u8
}

/// Multiplies two 8-bit values and divides the product by 255 with rounding.
pub fn mul_div_255(a: u8, b: u8) -> (r: u8)
    ensures
        r == spec_mul_div_255(a, b),
        r as int == (a as int * b as int + 127) / 255,
{
    assert(a as int * b as int <= 65025) by (nonlinear_arith)
        requires
            0 <= a <= 255,
            0 <= b <= 255,
    ;
    let prod: u32 = a as u32 * b as u32;
    let tmp: u32 = prod + 128;
    assert((tmp >> 8u32) <= 254 && (((tmp >> 8u32) + tmp) as u32) >> 8u32 == (prod + 127) / 255)
        by (bit_vector)
        requires
            tmp == prod + 128,
            prod <= 65025,
    ;
    (((tmp >> 8) + tmp) >> 8) as u8
}

/// Fixed-point reciprocal of alpha: `255 * 256 / alpha`, rounded; zero for a zero alpha.
pub open spec fn spec_recip_alpha(alpha: u8) -> u32 {
    if alpha == 0 {
        0
    } else {
        ((130560int / (alpha as int) + 1) / 2) as u32
    }
}

/// The reciprocal of an alpha value, as a fixed-point number with `PRECISION`
/// fractional bits.
pub fn recip_alpha(alpha: u8) -> (r: u32)
    ensures
        r == spec_recip_alpha(alpha),
        r <= 65280,
        alpha == 0 ==> r == 0,
        alpha != 0 ==> r as int == (255int * 512int / (alpha as int) + 1) / 2,
{
    if alpha == 0 {
        0
    } else {
        assert((1u32 << 9u32) == 512) by (bit_vector);
        let scaled_max: u32 = 255 * (1u32 << (PRECISION + 1));
        assert(scaled_max / (alpha as u32) <= 130560) by (nonlinear_arith)
            requires
                scaled_max == 130560,
                alpha >= 1,
        ;
        let q: u32 = scaled_max / alpha as u32;
        assert(((q + 1) as u32) >> 1u32 == (q + 1) / 2) by (bit_vector)
            requires
                q <= 130560,
        ;
        (q + 1) >> 1
    }
}

/// The table of reciprocals of all alpha values.
pub fn get_recip_alpha_array() -> (r: Vec<u32>)
    ensures
        r@.len() == 256,
        forall|i: int| 0 <= i < 256 ==> #[trigger] r@[i] == spec_recip_alpha(i as u8),
{
    let mut res: Vec<u32> = Vec::new();
    let mut i: u32 = 0;
    while i < 256
        invariant
            i <= 256,
            res@.len() == i,
            forall|j: int| 0 <= j < i ==> #[trigger] res@[j] == spec_recip_alpha(j as u8),
        decreases 256 - i,
    {
        res.push(recip_alpha(i as u8));
        i += 1;
    }
    res
}

/// A color component divided by alpha: `v * recip_alpha / 256`, at most 255.
pub open spec fn spec_div_and_clip(v: u8, recip_alpha: u32) -> u8 {
    let q = (v as int * recip_alpha as int) / 256;
    if q > 255 {
        255
    } else {
        q as u8
    }
}

/// Multiplies a component by the fixed-point reciprocal of alpha and clips
/// the result to 255.
pub fn div_and_clip(v: u8, recip_alpha: u32) -> (r: u8)
    requires
        recip_alpha <= 65280,
    ensures
        r == spec_div_and_clip(v, recip_alpha),
        r as int == if v as int * recip_alpha as int / 256 > 255 {
            255
        } else {
            v as int * recip_alpha as int / 256
        },
{
    assert(v as int * recip_alpha as int <= 255 * 65280) by (nonlinear_arith)
        requires
            0 <= v <= 255,
            0 <= recip_alpha <= 65280,
    ;
    let prod: u32 = v as u32 * recip_alpha;
    assert(prod >> 8u32 == prod / 256) by (bit_vector);
    let q = prod >> PRECISION;
    if q > 255 {
        255
    } else {
        q as u8
    }
}

/// `mul_div_255(a, b)` is the integer nearest to `a * b / 255`: it differs
/// from the exact quotient by at most one half.
pub proof fn lemma_mul_div_255_is_nearest(a: u8, b: u8)
    ensures
        -127 <= 255 * (spec_mul_div_255(a, b) as int) - a as int * b as int <= 128,
{
    let p = a as int * b as int;
    assert(0 <= p <= 65025) by (nonlinear_arith)
        requires
            0 <= a <= 255,
            0 <= b <= 255,
            p == a as int * b as int,
    ;
    let q = (p + 127) / 255;
    assert(255 * q <= p + 127 < 255 * q + 255) by (nonlinear_arith)
        requires
            q == (p + 127) / 255,
            p >= 0,
    ;
    assert(q <= 255);
}

/// A component multiplied by alpha never exceeds alpha.
pub proof fn lemma_mul_div_255_bounded(c: u8, alpha: u8)
    ensures
        spec_mul_div_255(c, alpha) <= alpha,
{
    let p = c as int * alpha as int;
    assert(p <= 255 * alpha as int) by (nonlinear_arith)
        requires
            0 <= c <= 255,
            0 <= alpha,
            p == c as int * alpha as int,
    ;
    assert((p + 127) / 255 <= alpha as int) by (nonlinear_arith)
        requires
            0 <= p <= 255 * alpha as int,
            0 <= alpha <= 255,
    ;
}

/// Multiplying by an alpha of 255 keeps a component; by an alpha of 0
/// gives 0.
pub proof fn lemma_mul_div_255_extremes(c: u8)
    ensures
        spec_mul_div_255(c, 255) == c,
        spec_mul_div_255(c, 0) == 0,
{
    assert((c as int * 255 + 127) / 255 == c as int) by (nonlinear_arith)
        requires
            0 <= c <= 255,
    ;
}

/// Dividing by an alpha of 255 keeps a component; by an alpha of 0 gives 0.
pub proof fn lemma_div_and_clip_extremes(c: u8)
    ensures
        spec_div_and_clip(c, spec_recip_alpha(255)) == c,
        spec_div_and_clip(c, spec_recip_alpha(0)) == 0,
{
    assert(spec_recip_alpha(255) == 256);
    assert((c as int * 256) / 256 == c as int) by (nonlinear_arith);
}

/// The reciprocal of alpha is `255 * 2 ^ (PRECISION + 1) / alpha`, plus one
/// and halved (that is, `255 * 256 / alpha` rounded to the nearest integer),
/// for every nonzero alpha, and zero for a zero alpha.
pub proof fn lemma_recip_alpha_formula(alpha: u8)
    ensures
        alpha == 0 ==> spec_recip_alpha(alpha) == 0,
        alpha != 0 ==> spec_recip_alpha(alpha) as int == (255int * 512int / (alpha as int) + 1) / 2,
        spec_recip_alpha(alpha) <= 65280,
{
    if alpha != 0 {
        assert(130560int / (alpha as int) <= 130560) by (nonlinear_arith)
            requires
                alpha as int >= 1,
        ;
    }
}

/// Dividing a component `v` by the reciprocal `r` gives `v * r / 256`,
/// capped at 255.
pub proof fn lemma_div_and_clip_formula(v: u8, r: u32)
    ensures
        spec_div_and_clip(v, r) as int == if v as int * r as int / 256 > 255 {
            255
        } else {
            v as int * r as int / 256
        },
{
}

/// Multiplying `a` by `b` and dividing by 255 gives `(a * b + 127) / 255`.
pub proof fn lemma_mul_div_255_formula(a: u8, b: u8)
    ensures
        spec_mul_div_255(a, b) as int == (a as int * b as int + 127) / 255,
{
    assert(0 <= (a as int * b as int + 127) / 255 <= 255) by (nonlinear_arith)
        requires
            0 <= a <= 255,
            0 <= b <= 255,
    ;
}

} // verus!
