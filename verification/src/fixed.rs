//! Saturating signed fixed-point numbers with 32 fractional bits.
//!
//! A [`Fixed`] stands for the rational number `raw / 2^32`. Sums and
//! differences are exact; products and quotients are rounded toward zero.
//! A result that does not fit is replaced by the nearest representable
//! value, so every operation is total.

use vstd::prelude::*;

verus! {

/// Number of fractional bits of a [`Fixed`].
pub const FRAC_BITS: u32 = 32;

/// Raw value of the number one.
pub const ONE_RAW: i64 = 0x1_0000_0000;

/// Raw value of one half.
pub const HALF_RAW: i64 = 0x8000_0000;

/// Raw value of `2^-23`, below which an area counts as empty.
pub const EPSILON_RAW: i64 = 0x200;

/// Largest raw value.
pub const MAX_RAW: i64 = 0x7fff_ffff_ffff_ffff;

/// Smallest raw value.
pub const MIN_RAW: i64 = -0x8000_0000_0000_0000;

/// Absolute value of an integer.
pub open spec fn magnitude(x: int) -> int {
    if x < 0 {
        -x
    } else {
        x
    }
}

/// Quotient of `n` by `d`, rounded toward zero. Meaningful for `d != 0`.
pub open spec fn quot(n: int, d: int) -> int
    recommends
        d != 0,
{
    if (n < 0) == (d < 0) {
        magnitude(n) / magnitude(d)
    } else {
        -(magnitude(n) / magnitude(d))
    }
}

/// The representable raw value nearest to `x`.
pub open spec fn saturate(x: int) -> int {
    if x < MIN_RAW {
        MIN_RAW as int
    } else if x > MAX_RAW {
        MAX_RAW as int
    } else {
        x
    }
}

/// The number whose raw value is `x`, saturated.
pub open spec fn fixed(x: int) -> Fixed {
    Fixed { raw: saturate(x) as i64 }
}

/// A fixed-point number: `raw / 2^32`.
#[derive(Clone, Copy, Debug, PartialEq, Eq, Structural)]
pub struct Fixed {
    pub raw: i64,
}

impl View for Fixed {
    type V = int;

    open spec fn view(&self) -> int {
        self.raw as int
    }
}

/// Magnitude of a raw value, which always fits in 64 unsigned bits.
pub(crate) fn raw_magnitude(x: i64) -> (m: u128)
    ensures
        m == magnitude(x as int),
        m <= 0x8000_0000_0000_0000,
{
    if x >= 0 {
        x as u128
    } else {
        let wide: i128 = x as i128;
        (-wide) as u128
    }
}

/// The saturated number with the given sign and magnitude.
pub(crate) fn from_sign_magnitude(negative: bool, m: u128) -> (r: Fixed)
    ensures
        r == fixed(
            if negative {
                -(m as int)
            } else {
                m as int
            },
        ),
{
    if negative {
        if m >= 0x8000_0000_0000_0000 {
            Fixed { raw: MIN_RAW }
        } else {
            let narrow: i64 = m as i64;
            Fixed { raw: -narrow }
        }
    } else {
        if m > 0x7fff_ffff_ffff_ffff {
            Fixed { raw: MAX_RAW }
        } else {
            Fixed { raw: m as i64 }
        }
    }
}

/// The magnitude of a product is the product of the magnitudes, and the
/// product is negative exactly when the factors are non-zero with opposite
/// signs.
pub proof fn lemma_product_sign_magnitude(a: int, b: int)
    ensures
        magnitude(a * b) == magnitude(a) * magnitude(b),
        a * b < 0 <==> (a != 0 && b != 0 && ((a < 0) != (b < 0))),
        a * b == 0 <==> (a == 0 || b == 0),
{
    assert(magnitude(a * b) == magnitude(a) * magnitude(b)) by (nonlinear_arith)
        requires
            magnitude(a) == (if a < 0 {
                -a
            } else {
                a
            }),
            magnitude(b) == (if b < 0 {
                -b
            } else {
                b
            }),
            magnitude(a * b) == (if a * b < 0 {
                -(a * b)
            } else {
                a * b
            }),
    ;
    assert(a * b < 0 <==> (a != 0 && b != 0 && ((a < 0) != (b < 0)))) by (nonlinear_arith);
    assert(a * b == 0 <==> (a == 0 || b == 0)) by (nonlinear_arith);
}

/// The product of two non-negative numbers is non-negative and does not
/// exceed their exact product.
pub proof fn lemma_times_bounds(a: Fixed, b: Fixed)
    requires
        a@ >= 0,
        b@ >= 0,
    ensures
        0 <= a.spec_times(b)@,
        a.spec_times(b)@ * ONE_RAW <= a@ * b@,
{
    let p = a@ * b@;
    assert(p >= 0) by (nonlinear_arith)
        requires
            a@ >= 0,
            b@ >= 0,
            p == a@ * b@,
    ;
    let q = p / (ONE_RAW as int);
    assert(0 <= q && q * ONE_RAW <= p);
    let r = a.spec_times(b)@;
    assert(0 <= r <= q);
}

/// The quotient of a non-negative number by a positive one is non-negative,
/// and times the divisor it does not exceed the exact dividend.
pub proof fn lemma_over_bounds(n: Fixed, d: Fixed)
    requires
        n@ >= 0,
        d@ > 0,
    ensures
        0 <= n.spec_over(d)@,
        n.spec_over(d)@ * d@ <= n@ * ONE_RAW,
{
    let m = n@ * ONE_RAW;
    let q = m / d@;
    assert(0 <= q && q * d@ <= m) by (nonlinear_arith)
        requires
            q == m / d@,
            d@ > 0,
            m >= 0,
    ;
    let r = n.spec_over(d)@;
    assert(0 <= r <= q);
    assert(r * d@ <= q * d@) by (nonlinear_arith)
        requires
            0 <= r <= q,
            d@ > 0,
    ;
}

/// A product that is not saturated misses the exact product by less than
/// one raw unit, and is never further from zero than the exact product.
pub proof fn lemma_times_error(a: Fixed, b: Fixed)
    requires
        a.spec_times(b).spec_unsaturated(),
    ensures
        magnitude(a@ * b@ - a.spec_times(b)@ * ONE_RAW) < ONE_RAW,
        magnitude(a.spec_times(b)@ * ONE_RAW) <= magnitude(a@ * b@),
{
    let p = a@ * b@;
    let q = magnitude(p) / (ONE_RAW as int);
    assert(q * ONE_RAW <= magnitude(p) < q * ONE_RAW + ONE_RAW);
}

/// A quotient by a non-zero number that is not saturated, times the
/// divisor, misses the exact dividend by less than the magnitude of the
/// divisor, and is never further from zero than the exact dividend.
pub proof fn lemma_over_error(n: Fixed, d: Fixed)
    requires
        d@ != 0,
        n.spec_over(d).spec_unsaturated(),
    ensures
        magnitude(n@ * ONE_RAW - n.spec_over(d)@ * d@) < magnitude(d@),
        magnitude(n.spec_over(d)@ * d@) <= magnitude(n@ * ONE_RAW),
{
    let m = magnitude(n@ * ONE_RAW);
    let k = magnitude(d@);
    let q = m / k;
    assert(q * k <= m < q * k + k) by (nonlinear_arith)
        requires
            q == m / k,
            k > 0,
            m >= 0,
    ;
    let r = n.spec_over(d)@;
    assert(magnitude(r) == q);
    lemma_product_sign_magnitude(r, d@);
    assert(magnitude(r * d@) == q * k);
    if n@ * ONE_RAW != 0 && r != 0 {
        assert((r * d@ < 0) == (n@ * ONE_RAW < 0));
    }
}

impl Fixed {
    /// Sum, saturated.
    pub open spec fn spec_plus(self, rhs: Fixed) -> Fixed {
        fixed(self@ + rhs@)
    }

    /// Difference, saturated.
    pub open spec fn spec_minus(self, rhs: Fixed) -> Fixed {
        fixed(self@ - rhs@)
    }

    /// Product, rounded toward zero and saturated.
    pub open spec fn spec_times(self, rhs: Fixed) -> Fixed {
        fixed(quot(self@ * rhs@, ONE_RAW as int))
    }

    /// Quotient, rounded toward zero and saturated. A non-zero number over
    /// zero is the extreme value of its sign; zero over zero is zero.
    pub open spec fn spec_over(self, rhs: Fixed) -> Fixed {
        if rhs@ == 0 {
            if self@ > 0 {
                fixed(MAX_RAW as int)
            } else if self@ < 0 {
                fixed(MIN_RAW as int)
            } else {
                fixed(0)
            }
        } else {
            fixed(quot(self@ * ONE_RAW, rhs@))
        }
    }

    /// Half of the number, rounded toward zero.
    pub open spec fn spec_halved(self) -> Fixed {
        fixed(quot(self@, 2))
    }

    /// The larger of two numbers.
    pub open spec fn spec_max(self, rhs: Fixed) -> Fixed {
        if self@ >= rhs@ {
            self
        } else {
            rhs
        }
    }

    /// The smaller of two numbers.
    pub open spec fn spec_min(self, rhs: Fixed) -> Fixed {
        if self@ <= rhs@ {
            self
        } else {
            rhs
        }
    }

    /// `self` restricted to `[lo, hi]`: `lo` when below it, else `hi` when
    /// above it, else `self`.
    pub open spec fn spec_clamp(self, lo: Fixed, hi: Fixed) -> Fixed {
        if self@ < lo@ {
            lo
        } else if self@ > hi@ {
            hi
        } else {
            self
        }
    }

    /// Whether the number is strictly between the two extreme values, so
    /// that it is not the result of a saturation.
    pub open spec fn spec_unsaturated(self) -> bool {
        MIN_RAW < self@ < MAX_RAW
    }

    /// The whole number `n`.
    pub open spec fn spec_from_int(n: int) -> Fixed {
        fixed(n * ONE_RAW)
    }

    /// Zero.
    pub open spec fn spec_zero() -> Fixed {
        Fixed { raw: 0 }
    }

    /// One.
    pub open spec fn spec_one() -> Fixed {
        Fixed { raw: ONE_RAW }
    }

    /// The area threshold `2^-23`.
    pub open spec fn spec_epsilon() -> Fixed {
        Fixed { raw: EPSILON_RAW }
    }

    /// The number with the given raw value.
    pub fn from_raw(raw: i64) -> (r: Fixed)
        ensures
            r@ == raw,
    {
        Fixed { raw }
    }

    /// The raw value.
    pub fn raw(self) -> (r: i64)
        ensures
            r == self@,
    {
        self.raw
    }

    /// Zero.
    pub fn zero() -> (r: Fixed)
        ensures
            r == Fixed::spec_zero(),
    {
        Fixed { raw: 0 }
    }

    /// One.
    pub fn one() -> (r: Fixed)
        ensures
            r == Fixed::spec_one(),
    {
        Fixed { raw: ONE_RAW }
    }

    /// One half.
    pub fn half() -> (r: Fixed)
        ensures
            r@ == HALF_RAW,
    {
        Fixed { raw: HALF_RAW }
    }

    /// The area threshold `2^-23`.
    pub fn epsilon() -> (r: Fixed)
        ensures
            r == Fixed::spec_epsilon(),
    {
        Fixed { raw: EPSILON_RAW }
    }

    /// The whole number `n`, which is always representable.
    pub fn from_int(n: i32) -> (r: Fixed)
        ensures
            r == Fixed::spec_from_int(n as int),
            r@ == n * ONE_RAW,
    {
        let wide: i64 = n as i64;
        Fixed { raw: wide * ONE_RAW }
    }

    /// The whole number `n`, saturated.
    pub fn from_usize(n: usize) -> (r: Fixed)
        ensures
            r == Fixed::spec_from_int(n as int),
    {
        if n > 0x7fff_ffff {
            Fixed { raw: MAX_RAW }
        } else {
            let wide: i64 = n as i64;
            Fixed { raw: wide * ONE_RAW }
        }
    }

    /// Sum, saturated.
    pub fn plus(self, rhs: Fixed) -> (r: Fixed)
        ensures
            r == self.spec_plus(rhs),
    {
        let wide: i128 = self.raw as i128 + rhs.raw as i128;
        if wide > MAX_RAW as i128 {
            Fixed { raw: MAX_RAW }
        } else if wide < MIN_RAW as i128 {
            Fixed { raw: MIN_RAW }
        } else {
            Fixed { raw: wide as i64 }
        }
    }

    /// Difference, saturated.
    pub fn minus(self, rhs: Fixed) -> (r: Fixed)
        ensures
            r == self.spec_minus(rhs),
    {
        let wide: i128 = self.raw as i128 - rhs.raw as i128;
        if wide > MAX_RAW as i128 {
            Fixed { raw: MAX_RAW }
        } else if wide < MIN_RAW as i128 {
            Fixed { raw: MIN_RAW }
        } else {
            Fixed { raw: wide as i64 }
        }
    }

    /// Product, rounded toward zero and saturated.
    pub fn times(self, rhs: Fixed) -> (r: Fixed)
        ensures
            r == self.spec_times(rhs),
    {
        let a: u128 = raw_magnitude(self.raw);
        let b: u128 = raw_magnitude(rhs.raw);
        assert(a * b <= 0x8000_0000_0000_0000 * 0x8000_0000_0000_0000) by (nonlinear_arith)
            requires
                a <= 0x8000_0000_0000_0000,
                b <= 0x8000_0000_0000_0000,
        ;
        let q: u128 = (a * b) / (ONE_RAW as u128);
        let negative: bool = (self.raw < 0) != (rhs.raw < 0);
        proof {
            lemma_product_sign_magnitude(self@, rhs@);
        }
        from_sign_magnitude(negative, q)
    }

    /// Quotient, rounded toward zero and saturated.
    pub fn over(self, rhs: Fixed) -> (r: Fixed)
        ensures
            r == self.spec_over(rhs),
    {
        if rhs.raw == 0 {
            if self.raw > 0 {
                Fixed { raw: MAX_RAW }
            } else if self.raw < 0 {
                Fixed { raw: MIN_RAW }
            } else {
                Fixed { raw: 0 }
            }
        } else {
            let a: u128 = raw_magnitude(self.raw);
            let b: u128 = raw_magnitude(rhs.raw);
            let one: u128 = ONE_RAW as u128;
            assert(a * one <= 0x8000_0000_0000_0000 * 0x1_0000_0000) by (nonlinear_arith)
                requires
                    a <= 0x8000_0000_0000_0000,
                    one == 0x1_0000_0000,
            ;
            let q: u128 = (a * one) / b;
            let negative: bool = (self.raw < 0) != (rhs.raw < 0);
            from_sign_magnitude(negative, q)
        }
    }

    /// Half of the number, rounded toward zero.
    pub fn halved(self) -> (r: Fixed)
        ensures
            r == self.spec_halved(),
    {
        let a: u128 = raw_magnitude(self.raw);
        from_sign_magnitude(self.raw < 0, a / 2)
    }

    /// Whether `self` is less than `rhs`.
    pub fn lt(self, rhs: Fixed) -> (r: bool)
        ensures
            r == (self@ < rhs@),
    {
        self.raw < rhs.raw
    }

    /// Whether `self` is at most `rhs`.
    pub fn le(self, rhs: Fixed) -> (r: bool)
        ensures
            r == (self@ <= rhs@),
    {
        self.raw <= rhs.raw
    }

    /// Whether `self` is greater than `rhs`.
    pub fn gt(self, rhs: Fixed) -> (r: bool)
        ensures
            r == (self@ > rhs@),
    {
        self.raw > rhs.raw
    }

    /// Whether `self` is at least `rhs`.
    pub fn ge(self, rhs: Fixed) -> (r: bool)
        ensures
            r == (self@ >= rhs@),
    {
        self.raw >= rhs.raw
    }

    /// The larger of two numbers.
    pub fn max(self, rhs: Fixed) -> (r: Fixed)
        ensures
            r == self.spec_max(rhs),
    {
        if self.raw >= rhs.raw {
            self
        } else {
            rhs
        }
    }

    /// The smaller of two numbers.
    pub fn min(self, rhs: Fixed) -> (r: Fixed)
        ensures
            r == self.spec_min(rhs),
    {
        if self.raw <= rhs.raw {
            self
        } else {
            rhs
        }
    }

    /// `self` restricted to `[lo, hi]`.
    pub fn clamp(self, lo: Fixed, hi: Fixed) -> (r: Fixed)
        ensures
            r == self.spec_clamp(lo, hi),
    {
        if self.raw < lo.raw {
            lo
        } else if self.raw > hi.raw {
            hi
        } else {
            self
        }
    }
}

} // verus!
