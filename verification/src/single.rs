//! Reading single-precision numbers into fixed point and writing them
//! back.
//!
//! A single-precision number is handled as its bit pattern: one sign bit,
//! eight bits of biased exponent and 23 bits of fraction. Every such number
//! whose magnitude is at least `2^-9` and below `2^31` is a [`Fixed`]
//! exactly, and every [`Fixed`] is written with a relative error below
//! `2^-23`.

use crate::fixed::{fixed, from_sign_magnitude, magnitude, raw_magnitude, Fixed, MAX_RAW};
use vstd::arithmetic::power2::{
    lemma2_to64, lemma2_to64_rest, lemma_pow2_adds, lemma_pow2_pos, lemma_pow2_strictly_increases,
    lemma_pow2_unfold, pow2,
};
use vstd::bits::{lemma_u64_shl_is_mul, lemma_u64_shr_is_div};
use vstd::prelude::*;

verus! {

/// Bias of the exponent field, plus the 23 fraction bits, less the 32
/// fractional bits of a [`Fixed`]: a normal number with exponent field `e`
/// and significand `m` has the raw value `m * 2^(e - 118)`.
pub const EXPONENT_OFFSET: u32 = 118;

/// The exponent field of a bit pattern.
pub open spec fn spec_exponent_field(bits: u32) -> int {
    (bits as int / 0x80_0000) % 0x100
}

/// The fraction field of a bit pattern.
pub open spec fn spec_fraction_field(bits: u32) -> int {
    bits as int % 0x80_0000
}

/// Magnitude of the raw value of the number with bit pattern `bits`,
/// rounded toward zero. Infinity is larger than every raw value; a
/// not-a-number counts as zero; a subnormal number rounds to zero.
pub open spec fn spec_single_magnitude(bits: u32) -> int {
    let e = spec_exponent_field(bits);
    let m = 0x80_0000 + spec_fraction_field(bits);
    if e == 0xff {
        if spec_fraction_field(bits) == 0 {
            MAX_RAW + 1
        } else {
            0
        }
    } else if e == 0 {
        0
    } else if e >= EXPONENT_OFFSET {
        m * pow2((e - EXPONENT_OFFSET) as nat)
    } else {
        m / (pow2((EXPONENT_OFFSET - e) as nat) as int)
    }
}

/// Raw value of the number with bit pattern `bits`, rounded toward zero
/// and not yet saturated.
pub open spec fn spec_single_raw(bits: u32) -> int {
    if bits >= 0x8000_0000 {
        -spec_single_magnitude(bits)
    } else {
        spec_single_magnitude(bits)
    }
}

/// The fixed-point number nearest to the single-precision number with bit
/// pattern `bits`, rounded toward zero and saturated; zero for a
/// not-a-number.
pub fn from_single_bits(bits: u32) -> (r: Fixed)
    ensures
        r == fixed(spec_single_raw(bits)),
{
    let negative = bits >= 0x8000_0000;
    let e: u32 = (bits / 0x80_0000) % 0x100;
    let f: u32 = bits % 0x80_0000;
    let m: u64 = 0x80_0000 + f as u64;
    if e == 0xff {
        if f == 0 {
            from_sign_magnitude(negative, 0x8000_0000_0000_0000)
        } else {
            Fixed::zero()
        }
    } else if e == 0 {
        Fixed::zero()
    } else if e >= EXPONENT_OFFSET {
        let k: u32 = e - EXPONENT_OFFSET;
        if k >= 40 {
            proof {
                lemma2_to64_rest();
                if k > 40 {
                    lemma_pow2_strictly_increases(40, k as nat);
                }
                assert(pow2(40) == 0x100_0000_0000);
                assert(m * pow2(k as nat) >= 0x80_0000 * 0x100_0000_0000) by (nonlinear_arith)
                    requires
                        m >= 0x80_0000,
                        pow2(k as nat) >= 0x100_0000_0000,
                ;
            }
            from_sign_magnitude(negative, 0x8000_0000_0000_0000)
        } else {
            proof {
                lemma2_to64_rest();
                if k < 39 {
                    lemma_pow2_strictly_increases(k as nat, 39);
                }
                assert(pow2(39) == 0x80_0000_0000);
                assert(m * pow2(k as nat) <= 0xff_ffff * 0x80_0000_0000) by (nonlinear_arith)
                    requires
                        m <= 0xff_ffff,
                        pow2(k as nat) <= 0x80_0000_0000,
                ;
                lemma_u64_shl_is_mul(m, k as u64);
            }
            let mag: u64 = m << (k as u64);
            from_sign_magnitude(negative, mag as u128)
        }
    } else {
        let k: u32 = EXPONENT_OFFSET - e;
        if k >= 24 {
            proof {
                lemma2_to64();
                if k > 24 {
                    lemma_pow2_strictly_increases(24, k as nat);
                }
                assert(pow2(24) == 0x100_0000);
                assert(m as int / (pow2(k as nat) as int) == 0) by (nonlinear_arith)
                    requires
                        0 <= m < pow2(k as nat),
                ;
            }
            Fixed::zero()
        } else {
            proof {
                lemma_u64_shr_is_div(m, k as u64);
            }
            let mag: u64 = m >> (k as u64);
            from_sign_magnitude(negative, mag as u128)
        }
    }
}

/// Position of the leading one bit of `x`, for `x >= 1`: the `p` with
/// `2^p <= x < 2^(p + 1)`.
pub open spec fn spec_leading_bit(x: int) -> nat
    decreases x,
{
    if x <= 1 {
        0
    } else {
        1 + spec_leading_bit(x / 2)
    }
}

/// The 24-bit significand of a positive magnitude: the magnitude shifted
/// so that its leading bit is bit 23, with lower bits cut off.
pub open spec fn spec_significand(mag: int) -> int {
    let p = spec_leading_bit(mag);
    if p >= 23 {
        mag / (pow2((p - 23) as nat) as int)
    } else {
        mag * pow2((23 - p) as nat)
    }
}

/// Bit pattern of the single-precision number nearest to `x` that is no
/// further from zero than `x`. Zero is written as positive zero.
pub open spec fn spec_to_single_bits(x: Fixed) -> int {
    let mag = magnitude(x@);
    if mag == 0 {
        0
    } else {
        let body = (spec_leading_bit(mag) + 95) * 0x80_0000 + (spec_significand(mag) - 0x80_0000);
        if x@ < 0 {
            0x8000_0000 + body
        } else {
            body
        }
    }
}

/// The leading bit of `x` is at the position `p` with
/// `2^p <= x < 2^(p + 1)`.
pub proof fn lemma_leading_bit(x: int)
    requires
        x >= 1,
    ensures
        pow2(spec_leading_bit(x)) <= x < pow2(spec_leading_bit(x) + 1),
    decreases x,
{
    lemma2_to64();
    if x > 1 {
        lemma_leading_bit(x / 2);
        lemma_pow2_unfold(spec_leading_bit(x));
        lemma_pow2_unfold(spec_leading_bit(x) + 1);
    }
}

/// A number between `2^p` and `2^(p + 1)` has its leading bit at `p`.
pub proof fn lemma_leading_bit_is(x: int, p: nat)
    requires
        pow2(p) <= x < pow2(p + 1),
    ensures
        spec_leading_bit(x) == p,
{
    lemma_pow2_pos(p);
    lemma_leading_bit(x);
    let q = spec_leading_bit(x);
    if q < p {
        if q + 1 < p {
            lemma_pow2_strictly_increases(q + 1, p);
        }
    } else if p < q {
        if p + 1 < q {
            lemma_pow2_strictly_increases(p + 1, q);
        }
    }
}

/// The significand of a positive magnitude has exactly 24 bits.
pub proof fn lemma_significand_range(mag: int)
    requires
        mag >= 1,
    ensures
        0x80_0000 <= spec_significand(mag) < 0x100_0000,
{
    let p = spec_leading_bit(mag);
    lemma_leading_bit(mag);
    lemma2_to64();
    if p >= 23 {
        let d = pow2((p - 23) as nat) as int;
        lemma_pow2_pos((p - 23) as nat);
        lemma_pow2_adds((p - 23) as nat, 23);
        lemma_pow2_adds((p - 23) as nat, 24);
        assert(0x80_0000 <= mag / d < 0x100_0000) by (nonlinear_arith)
            requires
                d > 0,
                d * 0x80_0000 <= mag < d * 0x100_0000,
        ;
    } else {
        lemma_pow2_adds(p, (23 - p) as nat);
        lemma_pow2_adds(p + 1, (23 - p) as nat);
        let d = pow2((23 - p) as nat) as int;
        lemma_pow2_pos((23 - p) as nat);
        assert(pow2(p) * d <= mag * d < pow2(p + 1) * d) by (nonlinear_arith)
            requires
                d > 0,
                pow2(p) <= mag < pow2(p + 1),
        ;
    }
}

/// Whether `bits` is the pattern of a normal single-precision number whose
/// magnitude is at least `2^-9` and below `2^31`.
pub open spec fn spec_exact_range(bits: u32) -> bool {
    EXPONENT_OFFSET <= spec_exponent_field(bits) < EXPONENT_OFFSET + 40
}

/// A single-precision number in the exact range is read without rounding
/// or saturation, and written back it is the same bit pattern.
pub proof fn lemma_single_round_trip(bits: u32)
    requires
        spec_exact_range(bits),
    ensures
        fixed(spec_single_raw(bits))@ == spec_single_raw(bits),
        spec_single_magnitude(bits) == (0x80_0000 + spec_fraction_field(bits)) * pow2(
            (spec_exponent_field(bits) - EXPONENT_OFFSET) as nat,
        ),
        spec_to_single_bits(fixed(spec_single_raw(bits))) == bits,
{
    let e = spec_exponent_field(bits);
    let m = 0x80_0000 + spec_fraction_field(bits);
    let k = (e - EXPONENT_OFFSET) as nat;
    let mag = m * pow2(k);
    lemma2_to64();
    lemma2_to64_rest();
    lemma_pow2_pos(k);
    if k < 39 {
        lemma_pow2_strictly_increases(k, 39);
    }
    assert(0x80_0000 * pow2(k) <= mag <= 0xff_ffff * 0x80_0000_0000) by (nonlinear_arith)
        requires
            0x80_0000 <= m <= 0xff_ffff,
            0 < pow2(k) <= 0x80_0000_0000,
            mag == m * pow2(k),
    ;
    lemma_pow2_adds(23, k);
    lemma_pow2_adds(24, k);
    assert(pow2(23 + k) <= mag < pow2(24 + k)) by (nonlinear_arith)
        requires
            0x80_0000 <= m < 0x100_0000,
            pow2(k) > 0,
            mag == m * pow2(k),
            pow2(23 + k) == 0x80_0000 * pow2(k),
            pow2(24 + k) == 0x100_0000 * pow2(k),
    ;
    lemma_leading_bit_is(mag, 23 + k);
    assert((23 + k - 23) as nat == k);
    assert(mag / (pow2(k) as int) == m) by (nonlinear_arith)
        requires
            mag == m * pow2(k),
            pow2(k) > 0,
    ;
    assert(spec_significand(mag) == m);
    let x = fixed(spec_single_raw(bits));
    assert(magnitude(x@) == mag);
}

/// A fixed-point number written as single precision and read again has
/// lost less than `2^-23` of its magnitude, has not moved away from zero,
/// and is unchanged if it has no more than 24 significant bits.
pub proof fn lemma_fixed_round_trip(x: Fixed, bits: u32)
    requires
        bits == spec_to_single_bits(x),
    ensures
        magnitude(fixed(spec_single_raw(bits))@) <= magnitude(x@),
        (magnitude(x@) - magnitude(fixed(spec_single_raw(bits))@)) * 0x80_0000 <= magnitude(x@),
        (x@ < 0) == (fixed(spec_single_raw(bits))@ < 0),
        magnitude(x@) < 0x100_0000 ==> fixed(spec_single_raw(bits)) == x,
{
    let mag = magnitude(x@);
    if mag != 0 {
        let p = spec_leading_bit(mag);
        let m = spec_significand(mag);
        lemma_leading_bit(mag);
        lemma_significand_range(mag);
        lemma2_to64();
        lemma2_to64_rest();
        if p >= 64 {
            if p > 64 {
                lemma_pow2_strictly_increases(64, p);
            }
        }
        let body = (p + 95) * 0x80_0000 + (m - 0x80_0000);
        assert(spec_exponent_field(bits) == p + 95);
        assert(spec_fraction_field(bits) == m - 0x80_0000);
        assert((bits >= 0x8000_0000) == (x@ < 0));
        if p >= 23 {
            let k = (p - 23) as nat;
            let d = pow2(k) as int;
            lemma_pow2_pos(k);
            assert((p + 95 - EXPONENT_OFFSET) as nat == k);
            assert(spec_single_magnitude(bits) == m * d);
            lemma_pow2_adds(k, 23);
            assert(m * d <= mag && mag - m * d < d && d * 0x80_0000 <= mag) by (nonlinear_arith)
                requires
                    m == mag / d,
                    d > 0,
                    mag >= 0,
                    d * 0x80_0000 <= mag,
            ;
            assert((mag - m * d) * 0x80_0000 <= mag) by (nonlinear_arith)
                requires
                    0 <= mag - m * d < d,
                    d * 0x80_0000 <= mag,
            ;
            if mag < 0x100_0000 {
                assert(p == 23) by {
                    if p > 23 {
                        if p > 24 {
                            lemma_pow2_strictly_increases(24, p);
                        }
                    }
                }
                assert(d == 1);
                assert(m * d == mag) by (nonlinear_arith)
                    requires
                        m == mag / d,
                        d == 1,
                ;
            }
        } else {
            let k = (23 - p) as nat;
            let d = pow2(k) as int;
            lemma_pow2_pos(k);
            assert((EXPONENT_OFFSET - (p + 95)) as nat == k);
            assert((mag * d) / d == mag) by (nonlinear_arith)
                requires
                    d > 0,
            ;
            assert(spec_single_magnitude(bits) == mag);
        }
    }
}

/// Writes `x` as the bit pattern of a single-precision number: the one
/// nearest to `x` among those no further from zero than `x`.
pub fn to_single_bits(x: Fixed) -> (bits: u32)
    ensures
        bits == spec_to_single_bits(x),
{
    if x.raw == 0 {
        return 0;
    }
    let mag: u64 = raw_magnitude(x.raw) as u64;
    proof {
        lemma_leading_bit(mag as int);
        lemma2_to64();
        if spec_leading_bit(mag as int) >= 64 {
            if spec_leading_bit(mag as int) > 64 {
                lemma_pow2_strictly_increases(64, spec_leading_bit(mag as int));
            }
        }
        lemma_significand_range(mag as int);
    }
    let mut p: u32 = 0;
    let mut t: u64 = mag;
    while t > 1
        invariant
            t >= 1,
            spec_leading_bit(mag as int) == p + spec_leading_bit(t as int),
            spec_leading_bit(mag as int) < 64,
        decreases t,
    {
        t = t / 2;
        p = p + 1;
    }
    let m: u64 = if p >= 23 {
        proof {
            lemma_u64_shr_is_div(mag, (p - 23) as u64);
        }
        mag >> ((p - 23) as u64)
    } else {
        proof {
            lemma2_to64();
            lemma_leading_bit(mag as int);
            lemma_pow2_adds(p as nat + 1, (23 - p) as nat);
            lemma_pow2_pos((23 - p) as nat);
            assert(mag * pow2((23 - p) as nat) < pow2(p as nat + 1) * pow2((23 - p) as nat))
                by (nonlinear_arith)
                requires
                    mag < pow2(p as nat + 1),
                    pow2((23 - p) as nat) > 0,
            ;
            lemma_u64_shl_is_mul(mag, (23 - p) as u64);
        }
        mag << ((23 - p) as u64)
    };
    let body: u32 = (p + 95) * 0x80_0000 + (m as u32 - 0x80_0000);
    if x.raw < 0 {
        0x8000_0000 + body
    } else {
        body
    }
}

} // verus!
