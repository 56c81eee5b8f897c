//! IEEE 754 numbers by their bit patterns.
//!
//! Fan speeds and temperatures are double-precision numbers. The library keeps such
//! a number as its 64 bits and works on them with integer arithmetic only, so that
//! what a decoder, a comparison or a conversion does to the exact value can be stated
//! and proved. The unit of every exact value is 2^-1074, the smallest positive double.
use vstd::arithmetic::div_mod::*;
use vstd::arithmetic::mul::*;
use vstd::arithmetic::power2::*;
use vstd::prelude::*;

verus! {

/// The unit of exact values is 2^-1074: one is 2^1074 units.
pub open spec fn one_in_units() -> nat {
    pow2(1074)
}

/// The value that a magnitude (a bit pattern without its sign bit) stands for, in
/// units of the smallest positive number of its format, where the format keeps `p`
/// fraction bits. The pattern of infinity gets the value that the next number would
/// have, so that it lies above every finite one.
pub open spec fn mag_units(p: nat, m: nat) -> nat {
    let exponent = m / pow2(p);
    let fraction = m % pow2(p);
    if exponent == 0 {
        fraction
    } else {
        (pow2(p) + fraction) * pow2((exponent - 1) as nat)
    }
}

/// A double-precision number, held as its bit pattern.
#[derive(Clone, Copy, Debug, PartialEq, Eq, Structural)]
pub struct Binary64 {
    pub bits: u64,
}

impl View for Binary64 {
    type V = Binary64;

    open spec fn view(&self) -> Binary64 {
        *self
    }
}

pub const SIGN_BIT: u64 = 0x8000_0000_0000_0000;

pub const INFINITY_MAGNITUDE: u64 = 0x7ff0_0000_0000_0000;

pub const HIDDEN_BIT: u64 = 0x0010_0000_0000_0000;

impl Binary64 {
    /// The sign bit is set.
    pub open spec fn negative(self) -> bool {
        self.bits >= SIGN_BIT
    }

    /// The bit pattern without its sign bit.
    pub open spec fn magnitude(self) -> nat {
        if self.negative() {
            (self.bits - SIGN_BIT) as nat
        } else {
            self.bits as nat
        }
    }

    pub open spec fn nan(self) -> bool {
        self.magnitude() > INFINITY_MAGNITUDE
    }

    pub open spec fn finite(self) -> bool {
        self.magnitude() < INFINITY_MAGNITUDE
    }

    /// The absolute value in units.
    pub open spec fn units(self) -> nat {
        mag_units(52, self.magnitude())
    }

    /// The value in units, with its sign.
    pub open spec fn value(self) -> int {
        if self.negative() {
            -(self.units() as int)
        } else {
            self.units() as int
        }
    }

    /// The order of the numbers: a NaN is below nothing and nothing is below it.
    pub open spec fn below(self, other: Binary64) -> bool {
        !self.nan() && !other.nan() && self.value() < other.value()
    }

    /// `self >= other`, false as soon as one of the two is a NaN.
    pub open spec fn reaches(self, other: Binary64) -> bool {
        !self.nan() && !other.nan() && self.value() >= other.value()
    }

    pub fn from_bits(bits: u64) -> (r: Binary64)
        ensures
            r.bits == bits,
    {
        Binary64 { bits }
    }

    pub fn to_bits(&self) -> (r: u64)
        ensures
            r == self.bits,
    {
        self.bits
    }

    pub fn is_negative(&self) -> (r: bool)
        ensures
            r == self.negative(),
    {
        self.bits >= SIGN_BIT
    }

    fn magnitude_bits(&self) -> (r: u64)
        ensures
            r == self.magnitude(),
            r < SIGN_BIT,
    {
        if self.bits >= SIGN_BIT {
            self.bits - SIGN_BIT
        } else {
            self.bits
        }
    }

    pub fn is_nan(&self) -> (r: bool)
        ensures
            r == self.nan(),
    {
        self.magnitude_bits() > INFINITY_MAGNITUDE
    }

    pub fn is_finite(&self) -> (r: bool)
        ensures
            r == self.finite(),
    {
        self.magnitude_bits() < INFINITY_MAGNITUDE
    }
}

/// The powers of two that the two formats are cut at.
pub proof fn lemma_cuts()
    ensures
        pow2(52) == HIDDEN_BIT,
        pow2(53) == 2 * HIDDEN_BIT,
        pow2(23) == 0x80_0000,
        pow2(24) == 0x100_0000,
        pow2(29) == 0x2000_0000,
        pow2(0) == 1,
{
    lemma2_to64();
    lemma2_to64_rest();
}

/// A magnitude splits into exponent and fraction.
pub proof fn lemma_split(p: nat, m: nat)
    ensures
        m == (m / pow2(p)) * pow2(p) + m % pow2(p),
        m % pow2(p) < pow2(p),
        pow2(p) > 0,
{
    lemma_pow2_pos(p);
    lemma_fundamental_div_mod(m as int, pow2(p) as int);
    lemma_mul_is_commutative(pow2(p) as int, (m / pow2(p)) as int);
    lemma_mod_bound(m as int, pow2(p) as int);
}

/// Larger magnitudes stand for larger values.
pub proof fn lemma_units_increase(p: nat, a: nat, b: nat)
    requires
        a < b,
    ensures
        mag_units(p, a) < mag_units(p, b),
{
    lemma_split(p, a);
    lemma_split(p, b);
    let h = pow2(p);
    let (ea, fa) = (a / h, a % h);
    let (eb, fb) = (b / h, b % h);
    lemma_div_is_ordered(a as int, b as int, h as int);
    assert(ea <= eb);
    if ea == eb {
        assert(fa < fb);
        if ea > 0 {
            let w = pow2((ea - 1) as nat);
            lemma_pow2_pos((ea - 1) as nat);
            lemma_mul_strict_inequality((h + fa) as int, (h + fb) as int, w as int);
        }
    } else {
        let wb = pow2((eb - 1) as nat);
        lemma_pow2_pos((eb - 1) as nat);
        lemma_mul_inequality(h as int, (h + fb) as int, wb as int);
        assert(mag_units(p, b) >= h * wb);
        if ea == 0 {
            lemma_mul_inequality(1, wb as int, h as int);
            lemma_mul_is_commutative(wb as int, h as int);
        } else {
            let wa = pow2((ea - 1) as nat);
            lemma_pow2_pos((ea - 1) as nat);
            lemma_mul_strict_inequality((h + fa) as int, (2 * h) as int, wa as int);
            lemma_pow2_unfold(ea);
            if ea < eb - 1 {
                lemma_pow2_strictly_increases(ea, (eb - 1) as nat);
            }
            lemma_mul_inequality(pow2(ea) as int, wb as int, h as int);
            assert((2 * h) * wa == pow2(ea) * h) by (nonlinear_arith)
                requires
                    pow2(ea) == 2 * wa,
            ;
            lemma_mul_is_commutative(wb as int, h as int);
        }
    }
}

impl Binary64 {
    /// `self < other`.
    pub fn lt(&self, other: &Binary64) -> (r: bool)
        ensures
            r == self.below(*other),
    {
        let a: u64 = self.magnitude_bits();
        let b: u64 = other.magnitude_bits();
        proof {
            lemma_cuts();
            if a < b {
                lemma_units_increase(52, a as nat, b as nat);
            }
            if b < a {
                lemma_units_increase(52, b as nat, a as nat);
            }
            if 0 < a {
                lemma_units_increase(52, 0, a as nat);
            }
            if 0 < b {
                lemma_units_increase(52, 0, b as nat);
            }
            assert(mag_units(52, 0) == 0);
        }
        if a > INFINITY_MAGNITUDE || b > INFINITY_MAGNITUDE {
            false
        } else if self.is_negative() {
            if other.is_negative() {
                b < a
            } else {
                a != 0 || b != 0
            }
        } else if other.is_negative() {
            false
        } else {
            a < b
        }
    }

    /// `self >= other`.
    pub fn ge(&self, other: &Binary64) -> (r: bool)
        ensures
            r == self.reaches(*other),
    {
        if self.is_nan() || other.is_nan() {
            false
        } else {
            !self.lt(other)
        }
    }
}

/// A power of two that fits in 64 bits.
pub(crate) fn power_of_two(k: u32) -> (r: u64)
    requires
        k < 64,
    ensures
        r == pow2(k as nat),
        r > 0,
{
    proof {
        lemma_pow2_pos(k as nat);
        vstd::bits::lemma_u64_pow2_no_overflow(k as nat);
        vstd::bits::lemma_u64_shl_is_mul(1, k as u64);
    }
    1u64 << (k as u64)
}

/// The finite number with the given sign and absolute value (in units).
pub open spec fn exactly(negative: bool, units: nat) -> Binary64 {
    choose|v: Binary64| v.finite() && v.negative() == negative && #[trigger] v.units() == units
}

impl Binary64 {
    /// The significand and the power of two (in units) that it is multiplied by.
    pub(crate) fn parts(&self) -> (r: (u64, u32))
        requires
            self.finite(),
        ensures
            self.units() == r.0 * pow2(r.1 as nat),
            r.0 < 2 * HIDDEN_BIT,
            r.1 <= 2045,
            r.1 > 0 ==> r.0 >= HIDDEN_BIT,
            r.1 > 0 ==> self.magnitude() / (HIDDEN_BIT as nat) == r.1 + 1,
    {
        let m: u64 = self.magnitude_bits();
        let exponent: u64 = m / HIDDEN_BIT;
        let fraction: u64 = m % HIDDEN_BIT;
        proof {
            lemma_cuts();
            lemma_mul_basics(fraction as int);
        }
        if exponent == 0 {
            (fraction, 0)
        } else {
            ((HIDDEN_BIT + fraction), (exponent - 1) as u32)
        }
    }

    /// The number with the given sign whose absolute value is
    /// `significand * 2^exponent` units, which is exactly representable.
    pub fn exact(negative: bool, significand: u64, exponent: u32) -> (r: Binary64)
        requires
            significand < 2 * HIDDEN_BIT,
            exponent <= 2045,
        ensures
            r.negative() == negative,
            r.finite(),
            r.units() == significand * pow2(exponent as nat),
            r == exactly(negative, significand as nat * pow2(exponent as nat)),
    {
        let mut m: u64 = significand;
        let mut e: u32 = exponent;
        while m < HIDDEN_BIT && e > 0
            invariant
                m < 2 * HIDDEN_BIT,
                e <= 2045,
                m * pow2(e as nat) == significand * pow2(exponent as nat),
            decreases e,
        {
            proof {
                lemma_pow2_unfold(e as nat);
                let w = pow2((e - 1) as nat);
                assert(m * (2 * w) == (2 * m) * w) by (nonlinear_arith);
            }
            m = 2 * m;
            e = e - 1;
        }
        let magnitude: u64 = if m < HIDDEN_BIT {
            m
        } else {
            (e as u64 + 1) * HIDDEN_BIT + (m - HIDDEN_BIT)
        };
        proof {
            lemma_cuts();
            lemma_mul_basics(m as int);
            if m >= HIDDEN_BIT {
                assert(magnitude / HIDDEN_BIT == e + 1);
                assert(magnitude % HIDDEN_BIT == m - HIDDEN_BIT);
            }
        }
        let r: Binary64 = if negative {
            Binary64 { bits: magnitude + SIGN_BIT }
        } else {
            Binary64 { bits: magnitude }
        };
        proof {
            value_identifies_number(r, exactly(negative, r.units()));
        }
        r
    }

    /// The double that equals an unsigned integer.
    pub fn from_u32(n: u32) -> (r: Binary64)
        ensures
            r.finite(),
            !r.negative(),
            r.value() == n * one_in_units(),
            r == exactly(false, n as nat * one_in_units()),
    {
        Binary64::exact(false, n as u64, 1074)
    }

    /// The double that equals a quarter of an unsigned integer.
    pub fn from_quarters(n: u16) -> (r: Binary64)
        ensures
            r.finite(),
            !r.negative(),
            4 * r.value() == n * one_in_units(),
            r == exactly(false, n as nat * pow2(1072)),
    {
        proof {
            lemma_pow2_unfold(1074);
            lemma_pow2_unfold(1073);
            let w = pow2(1072);
            assert(4 * (n * w) == n * (4 * w)) by (nonlinear_arith);
        }
        Binary64::exact(false, n as u64, 1072)
    }

    /// The integer part, cut off at 0 and 255; 0 for a NaN.
    pub open spec fn saturated_u8(self) -> u8 {
        if self.nan() || self.negative() {
            0
        } else if self.units() / one_in_units() > 255 {
            255
        } else {
            (self.units() / one_in_units()) as u8
        }
    }

    /// The integer part, cut off at 0 and 255; 0 for a NaN.
    pub fn to_u8_saturating(&self) -> (r: u8)
        ensures
            r == self.saturated_u8(),
    {
        if self.is_nan() || self.is_negative() {
            return 0;
        }
        proof {
            lemma_pow2_pos(1074);
        }
        if !self.is_finite() {
            proof {
                lemma_cuts();
                assert(INFINITY_MAGNITUDE as nat / HIDDEN_BIT as nat == 2047);
                assert(self.units() == pow2(52) * pow2(2046));
                lemma_pow2_adds(52, 2046);
                lemma_pow2_adds(1024, 1074);
                lemma_mul_is_commutative(pow2(1024) as int, pow2(1074) as int);
                lemma_div_multiples_vanish(pow2(1024) as int, pow2(1074) as int);
                lemma_pow2_strictly_increases(8, 1024);
                lemma2_to64();
            }
            return 255;
        }
        let (m, e) = self.parts();
        if e < 1022 {
            proof {
                lemma_pow2_pos(e as nat);
                lemma_cuts();
                lemma_mul_strict_inequality(m as int, pow2(53) as int, pow2(e as nat) as int);
                lemma_pow2_adds(53, e as nat);
                if 53 + e < 1074 {
                    lemma_pow2_strictly_increases((53 + e) as nat, 1074);
                }
                lemma_basic_div(self.units() as int, pow2(1074) as int);
            }
            return 0;
        }
        if e >= 1030 {
            proof {
                lemma_cuts();
                lemma_pow2_pos(e as nat);
                lemma_mul_inequality(pow2(52) as int, m as int, pow2(e as nat) as int);
                lemma_pow2_adds(52, e as nat);
                if 1082 < 52 + e {
                    lemma_pow2_strictly_increases(1082, (52 + e) as nat);
                }
                lemma_pow2_adds(8, 1074);
                lemma2_to64();
                lemma_div_is_ordered(
                    (256 * pow2(1074)) as int,
                    self.units() as int,
                    pow2(1074) as int,
                );
                lemma_div_multiples_vanish(256, pow2(1074) as int);
            }
            return 255;
        }
        let w: u64 = power_of_two(1074 - e);
        proof {
            lemma_scale_division(m as nat, e as nat, 1074);
        }
        let whole: u64 = m / w;
        if whole > 255 {
            255
        } else {
            whole as u8
        }
    }
}

/// Dividing `m * 2^e` by a larger power of two is dividing `m` by what is left of it.
pub proof fn lemma_scale_division(m: nat, e: nat, f: nat)
    requires
        e <= f,
    ensures
        (m * pow2(e)) / pow2(f) == m / pow2((f - e) as nat),
{
    lemma_pow2_pos(e);
    lemma_pow2_pos((f - e) as nat);
    lemma_pow2_adds((f - e) as nat, e);
    lemma_mul_is_commutative(pow2((f - e) as nat) as int, pow2(e) as int);
    lemma_div_denominator((m * pow2(e)) as int, pow2(e) as int, pow2((f - e) as nat) as int);
    lemma_div_multiples_vanish(m as int, pow2(e) as int);
    lemma_mul_is_commutative(m as int, pow2(e) as int);
}

/// A power of two inside another one.
pub proof fn lemma_pow2_between(a: nat, b: nat)
    requires
        a <= b,
    ensures
        0 < pow2(a) <= pow2(b),
{
    lemma_pow2_pos(a);
    if a < b {
        lemma_pow2_strictly_increases(a, b);
    }
}

impl Binary64 {
    /// Four times the value, rounded to the nearest integer with halves upwards, cut
    /// off at 0 and 65535.
    pub open spec fn rounded_quarters(self) -> u16 {
        let quarter = pow2(1072);
        if self.negative() {
            0
        } else if (2 * self.units() + quarter) / (2 * quarter) > 0xffff {
            0xffff
        } else {
            ((2 * self.units() + quarter) / (2 * quarter)) as u16
        }
    }

    /// Four times the value, rounded to the nearest integer with halves upwards, cut
    /// off at 0 and 65535.
    pub fn to_quarters_saturating(&self) -> (r: u16)
        requires
            self.finite(),
        ensures
            r == self.rounded_quarters(),
    {
        if self.is_negative() {
            return 0;
        }
        let (m, e) = self.parts();
        let ghost units = self.units();
        let ghost quarter = pow2(1072);
        proof {
            lemma_pow2_pos(1072);
            lemma_cuts();
            lemma_pow2_unfold(1073);
        }
        if e < 1018 {
            proof {
                lemma_pow2_pos(e as nat);
                lemma_mul_strict_inequality(m as int, pow2(53) as int, pow2(e as nat) as int);
                lemma_pow2_adds(53, e as nat);
                lemma_pow2_between((53 + e) as nat, 1071);
                lemma_pow2_unfold(1072);
                lemma_basic_div((2 * units + quarter) as int, (2 * quarter) as int);
            }
            return 0;
        }
        if e >= 1036 {
            proof {
                lemma_pow2_pos(e as nat);
                lemma_mul_inequality(pow2(52) as int, m as int, pow2(e as nat) as int);
                lemma_pow2_adds(52, e as nat);
                lemma_pow2_between(1088, (52 + e) as nat);
                lemma_pow2_adds(16, 1072);
                lemma2_to64();
                assert(units >= 0x1_0000 * quarter);
                lemma_div_is_ordered(
                    ((2 * quarter) * 0x1_0000) as int,
                    (2 * units + quarter) as int,
                    (2 * quarter) as int,
                );
                lemma_div_multiples_vanish(0x1_0000, (2 * quarter) as int);
            }
            return 0xffff;
        }
        let w: u64 = power_of_two(1072 - e);
        proof {
            lemma2_to64_rest();
            lemma_pow2_between((1072 - e) as nat, 54);
            lemma_pow2_adds((1072 - e) as nat, e as nat);
            let g = pow2(e as nat);
            lemma_pow2_pos(e as nat);
            assert(2 * units + quarter == g * (2 * m + w)) by (nonlinear_arith)
                requires
                    units == m * g,
                    quarter == w * g,
            ;
            assert(2 * quarter == g * (2 * w)) by (nonlinear_arith)
                requires
                    quarter == w * g,
            ;
            lemma_div_denominator((g * (2 * m + w)) as int, g as int, (2 * w) as int);
            lemma_div_multiples_vanish((2 * m + w) as int, g as int);
        }
        let rounded: u64 = (2 * m + w) / (2 * w);
        if rounded > 0xffff {
            0xffff
        } else {
            rounded as u16
        }
    }
}

pub const SINGLE_SIGN_BIT: u32 = 0x8000_0000;

pub const SINGLE_INFINITY: u32 = 0x7f80_0000;

pub const SINGLE_HIDDEN_BIT: u32 = 0x0080_0000;

/// The sign bit of a single-precision bit pattern is set.
pub open spec fn single_negative(bits: u32) -> bool {
    bits >= SINGLE_SIGN_BIT
}

/// A single-precision bit pattern without its sign bit.
pub open spec fn single_magnitude(bits: u32) -> nat {
    if single_negative(bits) {
        (bits - SINGLE_SIGN_BIT) as nat
    } else {
        bits as nat
    }
}

/// The value of a single-precision magnitude, in the units of the doubles.
pub open spec fn single_units(m: nat) -> nat {
    mag_units(23, m) * pow2(925)
}

/// How far two absolute values are apart.
pub open spec fn distance(a: nat, b: nat) -> nat {
    if a <= b {
        (b - a) as nat
    } else {
        (a - b) as nat
    }
}

/// `bits` is the single-precision number nearest to `v`, the even one of two that are
/// equally near. Infinity takes part at the place after the largest finite number.
pub open spec fn nearest_single(v: Binary64, bits: u32) -> bool {
    let r = single_magnitude(bits);
    &&& single_negative(bits) == v.negative()
    &&& r <= SINGLE_INFINITY
    &&& forall|s: nat|
        s <= SINGLE_INFINITY ==> distance(single_units(r), v.units()) <= distance(
            #[trigger] single_units(s),
            v.units(),
        )
    &&& forall|s: nat|
        s <= SINGLE_INFINITY && s != r && distance(#[trigger] single_units(s), v.units())
            == distance(single_units(r), v.units()) ==> r % 2 == 0
}

/// The double that equals the single-precision number `bits`. All NaNs are one here.
pub open spec fn widened(bits: u32) -> Binary64 {
    if single_magnitude(bits) > SINGLE_INFINITY {
        Binary64 { bits: 0x7ff8_0000_0000_0000 }
    } else if single_magnitude(bits) == SINGLE_INFINITY {
        if single_negative(bits) {
            Binary64 { bits: 0xfff0_0000_0000_0000 }
        } else {
            Binary64 { bits: 0x7ff0_0000_0000_0000 }
        }
    } else {
        exactly(single_negative(bits), single_units(single_magnitude(bits)))
    }
}

impl Binary64 {
    /// The double that equals a single-precision number.
    pub fn from_single(bits: u32) -> (r: Binary64)
        ensures
            r == widened(bits),
            r.nan() == (single_magnitude(bits) > SINGLE_INFINITY),
            r.finite() == (single_magnitude(bits) < SINGLE_INFINITY),
            !r.nan() ==> r.negative() == single_negative(bits),
            r.finite() ==> r.units() == single_units(single_magnitude(bits)),
    {
        let negative: bool = bits >= SINGLE_SIGN_BIT;
        let m: u32 = if negative {
            bits - SINGLE_SIGN_BIT
        } else {
            bits
        };
        if m > SINGLE_INFINITY {
            return Binary64 { bits: 0x7ff8_0000_0000_0000 };
        }
        if m == SINGLE_INFINITY {
            return if negative {
                Binary64 { bits: INFINITY_MAGNITUDE + SIGN_BIT }
            } else {
                Binary64 { bits: INFINITY_MAGNITUDE }
            };
        }
        let (significand, exponent) = single_parts(m);
        Binary64::exact(negative, significand, exponent)
    }
}

/// The significand of a finite single-precision magnitude and the power of two (in
/// units) that it is multiplied by.
fn single_parts(m: u32) -> (r: (u64, u32))
    requires
        m < SINGLE_INFINITY,
    ensures
        single_units(m as nat) == r.0 * pow2(r.1 as nat),
        r.0 < 2 * SINGLE_HIDDEN_BIT,
        r.1 <= 1178,
{
    let exponent: u32 = m / SINGLE_HIDDEN_BIT;
    let fraction: u32 = m % SINGLE_HIDDEN_BIT;
    proof {
        lemma_cuts();
    }
    if exponent == 0 {
        (fraction as u64, 925)
    } else {
        proof {
            let x = (SINGLE_HIDDEN_BIT + fraction) as nat;
            let e1 = (exponent - 1) as nat;
            lemma_pow2_adds(e1, 925);
            lemma_mul_is_associative(x as int, pow2(e1) as int, pow2(925) as int);
        }
        ((SINGLE_HIDDEN_BIT + fraction) as u64, exponent + 924)
    }
}

/// The step from one magnitude to the next.
pub proof fn lemma_next_magnitude(p: nat, m: nat)
    ensures
        mag_units(p, m + 1) == mag_units(p, m) + pow2(
            if m / pow2(p) == 0 {
                0
            } else {
                (m / pow2(p) - 1) as nat
            },
        ),
{
    let h = pow2(p);
    lemma_split(p, m);
    let e = m / h;
    let f = m % h;
    lemma2_to64();
    if f + 1 < h {
        lemma_fundamental_div_mod_converse((m + 1) as int, h as int, e as int, (f + 1) as int);
        if e > 0 {
            let w = pow2((e - 1) as nat);
            assert((h + (f + 1)) * w == (h + f) * w + w) by (nonlinear_arith);
        }
    } else {
        assert((e + 1) * h == e * h + h) by (nonlinear_arith);
        lemma_fundamental_div_mod_converse((m + 1) as int, h as int, (e + 1) as int, 0);
        if e > 0 {
            let w = pow2((e - 1) as nat);
            lemma_pow2_unfold(e);
            assert((h + 0) * (2 * w) == (h + f) * w + w) by (nonlinear_arith)
                requires
                    f + 1 == h,
            ;
        } else {
            lemma_mul_basics(h as int);
        }
    }
}

/// Between two neighbouring single-precision magnitudes the nearer one is nearest of
/// all: `t` is the lower one, and the number lies `rem` of `2 * half` steps of size `g`
/// above it.
proof fn lemma_pick_nearest(units: nat, t: nat, rem: nat, half: nat, g: nat, r: nat)
    requires
        t < SINGLE_INFINITY,
        g > 0,
        rem < 2 * half,
        units == single_units(t) + rem * g,
        single_units(t + 1) == single_units(t) + (2 * half) * g,
        r == if rem > half || (rem == half && t % 2 == 1) {
            t + 1
        } else {
            t
        },
    ensures
        r <= SINGLE_INFINITY,
        forall|s: nat|
            s <= SINGLE_INFINITY ==> distance(single_units(r), units) <= distance(
                #[trigger] single_units(s),
                units,
            ),
        forall|s: nat|
            s <= SINGLE_INFINITY && s != r && distance(#[trigger] single_units(s), units)
                == distance(single_units(r), units) ==> r % 2 == 0,
{
    let lo = single_units(t);
    let hi = single_units(t + 1);
    let up = hi - units;
    assert(up == (2 * half - rem) * g) by (nonlinear_arith)
        requires
            up == (2 * half) * g - rem * g,
    ;
    assert(rem > half ==> rem * g > (2 * half - rem) * g) by (nonlinear_arith)
        requires
            g > 0,
    ;
    assert(rem < half ==> rem * g < (2 * half - rem) * g) by (nonlinear_arith)
        requires
            g > 0,
    ;
    assert(rem == half ==> rem * g == (2 * half - rem) * g);
    assert(up > 0) by (nonlinear_arith)
        requires
            up == (2 * half - rem) * g,
            g > 0,
            rem < 2 * half,
    ;
    assert forall|s: nat| s < t implies #[trigger] single_units(s) < lo by {
        lemma_single_units_increase(s, t);
    }
    assert forall|s: nat| s > t + 1 implies #[trigger] single_units(s) > hi by {
        lemma_single_units_increase(t + 1, s);
    }
}

impl Binary64 {
    /// The bit pattern of the nearest single-precision number.
    pub fn to_single(&self) -> (r: u32)
        requires
            self.finite(),
        ensures
            nearest_single(*self, r),
    {
        let (m, e) = self.parts();
        let sign: u32 = if self.is_negative() {
            SINGLE_SIGN_BIT
        } else {
            0
        };
        let ghost units = self.units();
        proof {
            lemma_cuts();
            lemma2_to64();
            lemma2_to64_rest();
            lemma_pow2_pos(925);
            lemma_pow2_pos(e as nat);
        }
        if e >= 1150 {
            proof {
                lemma_mul_inequality(pow2(52) as int, m as int, pow2(e as nat) as int);
                lemma_pow2_adds(52, e as nat);
                lemma_pow2_between(1202, (52 + e) as nat);
                assert(SINGLE_INFINITY as nat / 0x80_0000nat == 255);
                assert(mag_units(23, SINGLE_INFINITY as nat) == pow2(23) * pow2(254));
                lemma_pow2_adds(23, 254);
                lemma_pow2_adds(277, 925);
                assert(single_units(SINGLE_INFINITY as nat) <= units);
                assert forall|s: nat| s < SINGLE_INFINITY implies #[trigger] single_units(s)
                    < single_units(SINGLE_INFINITY as nat) by {
                    lemma_single_units_increase(s, SINGLE_INFINITY as nat);
                }
            }
            return SINGLE_INFINITY + sign;
        }
        if e >= 896 {
            // A normal number in both formats: 29 fraction bits are lost.
            let kept: u64 = (m - HIDDEN_BIT) / 0x2000_0000;
            let rem: u64 = m % 0x2000_0000;
            let t: u32 = (e - 895) * SINGLE_HIDDEN_BIT + kept as u32;
            let r: u32 = if rem > 0x1000_0000 || (rem == 0x1000_0000 && t % 2 == 1) {
                t + 1
            } else {
                t
            };
            proof {
                let g = pow2(e as nat);
                let es = (e - 895) as nat;
                assert(t as nat / 0x80_0000nat == es);
                assert(t as nat % 0x80_0000nat == kept);
                assert(m == (SINGLE_HIDDEN_BIT + kept) * 0x2000_0000 + rem);
                let x = (SINGLE_HIDDEN_BIT + kept) as nat;
                let ws = pow2((es - 1) as nat);
                assert(mag_units(23, t as nat) == x * ws);
                lemma_pow2_adds((es - 1) as nat, 925);
                lemma_pow2_adds(29, e as nat);
                lemma_mul_is_associative(x as int, ws as int, pow2(925) as int);
                assert(single_units(t as nat) == x * (0x2000_0000 * g));
                assert(units == x * (0x2000_0000 * g) + rem * g) by (nonlinear_arith)
                    requires
                        units == m * g,
                        m == x * 0x2000_0000 + rem,
                ;
                lemma_next_magnitude(23, t as nat);
                let mt = mag_units(23, t as nat);
                assert((mt + ws) * pow2(925) == mt * pow2(925) + ws * pow2(925))
                    by (nonlinear_arith);
                lemma_pick_nearest(units, t as nat, rem as nat, 0x1000_0000, g, r as nat);
            }
            return r + sign;
        }
        // Below the smallest normal single-precision number.
        if e < 871 {
            proof {
                let half = pow2((924 - e) as nat);
                lemma_pow2_between(54, (924 - e) as nat);
                lemma_pow2_adds((924 - e) as nat, e as nat);
                lemma_pow2_unfold(925);
                assert(mag_units(23, 0) == 0);
                lemma_next_magnitude(23, 0);
                lemma_mul_is_associative(2, half as int, pow2(e as nat) as int);
                lemma_pick_nearest(units, 0, m as nat, half, pow2(e as nat), 0);
            }
            return sign;
        }
        let w: u64 = power_of_two(925 - e);
        let t: u64 = m / w;
        let rem: u64 = m % w;
        proof {
            lemma_pow2_between(30, (925 - e) as nat);
            lemma_div_is_ordered_by_denominator(
                m as int,
                pow2(30) as int,
                w as int,
            );
            lemma_pow2_unfold((925 - e) as nat);
            lemma_fundamental_div_mod(m as int, w as int);
        }
        let half: u64 = w / 2;
        let r: u64 = if rem > half || (rem == half && t % 2 == 1) {
            t + 1
        } else {
            t
        };
        proof {
            let g = pow2(e as nat);
            lemma_pow2_adds((925 - e) as nat, e as nat);
            assert(t < 0x80_0000);
            assert(t as nat / 0x80_0000nat == 0);
            assert(mag_units(23, t as nat) == t);
            lemma_next_magnitude(23, t as nat);
            assert(units == t * (w * g) + rem * g) by (nonlinear_arith)
                requires
                    units == m * g,
                    m == w * t + rem,
            ;
            assert((t + 1) * (w * g) == t * (w * g) + w * g) by (nonlinear_arith);
            lemma_pick_nearest(units, t as nat, rem as nat, half as nat, g, r as nat);
        }
        r as u32 + sign
    }
}

/// A number that is not a NaN is known by its sign and its absolute value.
pub proof fn value_identifies_number(a: Binary64, b: Binary64)
    requires
        a.negative() == b.negative(),
        a.units() == b.units(),
    ensures
        a == b,
{
    if a.magnitude() < b.magnitude() {
        lemma_units_increase(52, a.magnitude(), b.magnitude());
    }
    if b.magnitude() < a.magnitude() {
        lemma_units_increase(52, b.magnitude(), a.magnitude());
    }
}

/// Exactly one single-precision number is nearest to a finite double.
pub proof fn nearest_single_is_unique(v: Binary64, a: u32, b: u32)
    requires
        nearest_single(v, a),
        nearest_single(v, b),
    ensures
        a == b,
{
    let (x, y) = (single_magnitude(a), single_magnitude(b));
    if x != y {
        let (lo, hi) = if x < y {
            (x, y)
        } else {
            (y, x)
        };
        lemma_single_units_increase(lo, hi);
        assert(single_units(lo) <= single_units(hi));
        assert(distance(single_units(x), v.units()) <= distance(single_units(y), v.units()));
        assert(distance(single_units(y), v.units()) <= distance(single_units(x), v.units()));
        if hi > lo + 1 {
            lemma_single_units_increase(lo, lo + 1);
            lemma_single_units_increase(lo + 1, hi);
            assert(distance(single_units(lo), v.units()) <= distance(
                single_units(lo + 1),
                v.units(),
            ));
            assert(false);
        }
    }
}

/// A finite single-precision number is exactly representable as a double.
pub proof fn lemma_widened_is_exact(bits: u32)
    requires
        single_magnitude(bits) < SINGLE_INFINITY,
    ensures
        widened(bits).finite(),
        widened(bits).negative() == single_negative(bits),
        widened(bits).units() == single_units(single_magnitude(bits)),
{
    let m = single_magnitude(bits);
    lemma_cuts();
    lemma_pow2_pos(925);
    let e = m / 0x80_0000;
    let f = m % 0x80_0000;
    if e == 0 {
        lemma_representable(single_negative(bits), f, 925);
    } else {
        lemma_pow2_adds((e - 1) as nat, 925);
        lemma_mul_is_associative(
            (0x80_0000 + f) as int,
            pow2((e - 1) as nat) as int,
            pow2(925) as int,
        );
        lemma_representable(single_negative(bits), 0x80_0000 + f, (e + 924) as nat);
    }
}

/// A significand of at most 53 bits times a power of two inside the range is a finite
/// double.
pub proof fn lemma_representable(negative: bool, significand: nat, exponent: nat)
    requires
        significand < 2 * HIDDEN_BIT,
        exponent <= 2045,
    ensures
        exactly(negative, significand * pow2(exponent)).finite(),
        exactly(negative, significand * pow2(exponent)).negative() == negative,
        exactly(negative, significand * pow2(exponent)).units() == significand * pow2(exponent),
    decreases exponent,
{
    lemma_cuts();
    lemma_mul_basics(significand as int);
    if significand < HIDDEN_BIT && exponent > 0 {
        lemma_pow2_unfold(exponent);
        let w = pow2((exponent - 1) as nat);
        assert(significand * (2 * w) == (2 * significand) * w) by (nonlinear_arith);
        lemma_representable(negative, 2 * significand, (exponent - 1) as nat);
    } else {
        let magnitude: nat = if significand < HIDDEN_BIT {
            significand
        } else {
            ((exponent + 1) * HIDDEN_BIT + (significand - HIDDEN_BIT)) as nat
        };
        if significand >= HIDDEN_BIT {
            assert(magnitude / (HIDDEN_BIT as nat) == exponent + 1);
            assert(magnitude % (HIDDEN_BIT as nat) == significand - HIDDEN_BIT);
        }
        let v = Binary64 {
            bits: if negative {
                (magnitude + SIGN_BIT) as u64
            } else {
                magnitude as u64
            },
        };
        assert(v.finite() && v.negative() == negative && v.units() == significand * pow2(
            exponent,
        ));
    }
}

/// Narrowing what was widened gives back the bits: no single-precision number is lost
/// on its way through a double.
pub proof fn narrowing_undoes_widening(bits: u32, r: u32)
    requires
        single_magnitude(bits) < SINGLE_INFINITY,
        nearest_single(widened(bits), r),
    ensures
        r == bits,
{
    let v = widened(bits);
    lemma_widened_is_exact(bits);
    let (x, y) = (single_magnitude(bits), single_magnitude(r));
    assert(distance(single_units(y), v.units()) <= distance(single_units(x), v.units()));
    if x < y {
        lemma_single_units_increase(x, y);
    }
    if y < x {
        lemma_single_units_increase(y, x);
    }
}

/// Larger single-precision magnitudes stand for larger values.
pub proof fn lemma_single_units_increase(a: nat, b: nat)
    requires
        a < b,
    ensures
        single_units(a) < single_units(b),
{
    lemma_units_increase(23, a, b);
    lemma_pow2_pos(925);
    lemma_mul_strict_inequality(
        mag_units(23, a) as int,
        mag_units(23, b) as int,
        pow2(925) as int,
    );
}

} // verus!
