//! Per-pixel channel arithmetic shared by every format conversion.

use vstd::prelude::*;
use vstd::arithmetic::power2::{pow2, lemma_pow2_unfold, lemma2_to64};

verus! {

/// Straight-alpha value of a premultiplied channel `c` under alpha `a`:
/// `c * 255 / a` rounded down and capped at 255, and 0 when `a` is 0.
pub open spec fn unpremultiplied(c: u8, a: u8) -> u8 {
    if a == 0 {
        0
    } else if (c as int) * 255 / (a as int) > 255 {
        255
    } else {
        ((c as int) * 255 / (a as int)) as u8
    }
}

/// Rec. 601 style integer luma: `(30 r + 59 g + 11 b) / 100`.
pub open spec fn luma_of(r: u8, g: u8, b: u8) -> u8 {
    ((30 * r + 59 * g + 11 * b) / 100) as u8
}

fn unpremultiply_channel(c: u8, a: u8) -> (r: u8)
    requires
        a != 0,
    ensures
        r == unpremultiplied(c, a),
{
    let v: u32 = (c as u32) * 255 / (a as u32);
    if v > 255 {
        255
    } else {
        v as u8
    }
}

/// Undo alpha premultiplication of a grey/alpha pair. A fully transparent
/// pixel becomes `(0, 0)`; otherwise alpha is kept.
pub fn unpremul_g8(g: u8, a: u8) -> (r: (u8, u8))
    ensures
        r == (unpremultiplied(g, a), a),
{
    if a == 0 {
        return (0, 0);
    }
    (unpremultiply_channel(g, a), a)
}

/// Undo alpha premultiplication of an RGBA pixel. A fully transparent
/// pixel becomes `(0, 0, 0, 0)`; otherwise alpha is kept.
pub fn unpremul_rgb8(r: u8, g: u8, b: u8, a: u8) -> (out: (u8, u8, u8, u8))
    ensures
        out == (unpremultiplied(r, a), unpremultiplied(g, a), unpremultiplied(b, a), a),
{
    if a == 0 {
        return (0, 0, 0, 0);
    }
    (unpremultiply_channel(r, a), unpremultiply_channel(g, a), unpremultiply_channel(b, a), a)
}

/// Grey level of an RGB triple.
pub fn luma(r: u8, g: u8, b: u8) -> (y: u8)
    ensures
        y == luma_of(r, g, b),
{
    let v: u32 = 30 * (r as u32) + 59 * (g as u32) + 11 * (b as u32);
    (v / 100) as u8
}

/// Sign bit of an IEEE 754 binary16 bit pattern.
pub open spec fn half_sign(bits: u16) -> int {
    bits as int / 0x8000
}

/// Biased exponent field of an IEEE 754 binary16 bit pattern.
pub open spec fn half_exponent(bits: u16) -> int {
    (bits as int / 0x400) % 0x20
}

/// Mantissa field of an IEEE 754 binary16 bit pattern.
pub open spec fn half_mantissa(bits: u16) -> int {
    bits as int % 0x400
}

/// Magnitude of a finite binary16 value, scaled by 2^24 so that every
/// such value is an integer (the smallest subnormal is 2^-24).
pub open spec fn half_magnitude_fixed24(bits: u16) -> int {
    let e = half_exponent(bits);
    let m = half_mantissa(bits);
    if e == 0 {
        m
    } else {
        (0x400 + m) * pow2((e - 1) as nat)
    }
}

/// The 8-bit channel a binary16 value `v` stands for: `v` clamped to
/// `[0, 1]`, scaled by 255 and rounded half up; NaN gives 0 and the
/// infinities saturate.
pub open spec fn half_to_byte(bits: u16) -> u8 {
    let e = half_exponent(bits);
    if e == 0x1f && half_mantissa(bits) != 0 {
        0
    } else if half_sign(bits) == 1 {
        0
    } else if e == 0x1f {
        255
    } else if half_magnitude_fixed24(bits) >= 0x100_0000 {
        255
    } else {
        ((half_magnitude_fixed24(bits) * 255 + 0x80_0000) / 0x100_0000) as u8
    }
}

/// Convert an IEEE 754 binary16 bit pattern to an 8-bit channel value in
/// `[0, 255]`.
///
/// Denormals and zero map to 0 after scaling; NaN maps to 0; infinity
/// saturates to 255 (positive) or 0 (negative).
pub fn half_to_u8(bits: u16) -> (r: u8)
    ensures
        r == half_to_byte(bits),
{
    let sign: u16 = bits / 0x8000;
    let exp: u16 = (bits / 0x400) % 0x20;
    let mant: u16 = bits % 0x400;
    if exp == 0x1f && mant != 0 {
        return 0;
    }
    if sign == 1 {
        return 0;
    }
    if exp == 0x1f || exp >= 15 {
        proof {
            if exp != 0x1f {
                lemma_magnitude_at_least_one(bits);
            }
        }
        return 255;
    }
    let mut n: u64 = if exp == 0 {
        mant as u64
    } else {
        0x400 + mant as u64
    };
    let mut k: u16 = 1;
    proof {
        lemma2_to64();
        assert(n == (0x400 + mant) * pow2(0) || exp == 0);
    }
    while k < exp
        invariant
            exp <= 14,
            exp >= 1 ==> 1 <= k <= exp,
            exp >= 1 ==> n == (0x400 + mant) * pow2((k - 1) as nat),
            exp == 0 ==> n == mant,
            exp == 0 ==> k == 1,
            n <= 0x800 * pow2((k - 1) as nat),
        decreases exp - k,
    {
        let ghost p = pow2((k - 1) as nat);
        proof {
            lemma_pow2_unfold(k as nat);
            lemma2_to64();
            lemma_pow2_monotone((k - 1) as nat, 12);
            assert(n * 2 <= 0x800 * (2 * p)) by (nonlinear_arith)
                requires
                    n <= 0x800 * p,
            ;
            assert(exp >= 1 ==> n * 2 == (0x400 + mant) * (2 * p)) by (nonlinear_arith)
                requires
                    exp >= 1 ==> n == (0x400 + mant) * p,
            ;
        }
        n = n * 2;
        k = k + 1;
    }
    proof {
        lemma2_to64();
        if exp >= 1 {
            lemma_pow2_monotone((exp - 1) as nat, 13);
            let p = pow2((exp - 1) as nat);
            assert((0x400 + mant) * p < 0x100_0000) by (nonlinear_arith)
                requires
                    p <= 0x2000,
                    mant < 0x400,
            ;
        }
    }
    assert(n == half_magnitude_fixed24(bits));
    assert(n < 0x100_0000);
    ((n * 255 + 0x80_0000) / 0x100_0000) as u8
}

proof fn lemma_pow2_monotone(a: nat, b: nat)
    requires
        a <= b,
    ensures
        pow2(a) <= pow2(b),
    decreases b - a,
{
    if a < b {
        lemma_pow2_monotone(a, (b - 1) as nat);
        lemma_pow2_unfold(b);
    }
}

proof fn lemma_magnitude_at_least_one(bits: u16)
    requires
        15 <= half_exponent(bits) < 0x1f,
    ensures
        half_magnitude_fixed24(bits) >= 0x100_0000,
{
    lemma2_to64();
    lemma_pow2_monotone(14, (half_exponent(bits) - 1) as nat);
    assert(pow2(14) == 0x4000);
    let p = pow2((half_exponent(bits) - 1) as nat);
    assert((0x400 + half_mantissa(bits)) * p >= 0x400 * 0x4000) by (nonlinear_arith)
        requires
            p >= 0x4000,
            half_mantissa(bits) >= 0,
    ;
}

/// Unpremultiplying an opaque pixel gives it back unchanged.
pub proof fn law_opaque_channels_are_unchanged(c: u8)
    ensures
        unpremultiplied(c, 255) == c,
{
    assert((c as int) * 255 / 255 == c as int) by (nonlinear_arith);
}

/// Unpremultiplying never darkens a channel: with alpha at most 255 the
/// straight value is at least the premultiplied one.
pub proof fn law_unpremultiplying_never_darkens(c: u8, a: u8)
    requires
        a > 0,
    ensures
        unpremultiplied(c, a) >= c,
{
    assert((c as int) * 255 / (a as int) >= c as int) by (nonlinear_arith)
        requires
            0 < a <= 255,
            0 <= c,
    ;
}

/// The special binary16 values: zero and subnormals map to 0, NaN to 0,
/// positive infinity to 255, and every negative value, negative infinity
/// included, to 0.
pub proof fn law_half_special_values(bits: u16)
    ensures
        half_exponent(bits) == 0 ==> half_to_byte(bits) == 0,
        half_exponent(bits) == 0x1f && half_mantissa(bits) != 0 ==> half_to_byte(bits) == 0,
        bits == 0x7c00 ==> half_to_byte(bits) == 255,
        half_sign(bits) == 1 ==> half_to_byte(bits) == 0,
{
    if half_exponent(bits) == 0 && half_sign(bits) == 0 {
        let m = half_mantissa(bits);
        assert(0 <= m < 0x400);
        assert(m * 255 + 0x80_0000 < 0x100_0000) by (nonlinear_arith)
            requires
                0 <= m < 0x400,
        ;
    }
}

} // verus!
