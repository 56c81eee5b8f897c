//! Whether two speeds are more than a hundredth apart.
//!
//! The difference of two doubles is rounded to a double before it is compared. It comes
//! out above the double nearest to 0.01 exactly if the exact difference reaches the
//! middle between that double and the next one: the significand of the former is odd,
//! so the middle itself is rounded upwards.
use crate::binary64::{power_of_two, Binary64, HIDDEN_BIT};
use vstd::arithmetic::mul::*;
use vstd::arithmetic::power2::*;
use vstd::prelude::*;

verus! {

/// The middle between the double nearest to 0.01, which is
/// `0x14_7ae1_47ae_147b * 2^1015` units, and the next one: twice the significand and one,
/// times half of the power of two.
pub open spec fn margin_units() -> nat {
    MARGIN as nat * pow2(1014)
}

/// The significand of the margin.
pub const MARGIN: u64 = 0x28_f5c2_8f5c_28f7;

/// The margin in multiples of 2^1001 units.
pub const MARGIN_WHOLE: u128 = 0x5_1eb8_51eb_851e_e000u128;

/// How far two exact values lie apart.
pub open spec fn gap(a: int, b: int) -> int {
    if a >= b {
        a - b
    } else {
        b - a
    }
}

/// The rounded difference of two numbers is above a hundredth. Two equal infinities have
/// no difference, and neither has a NaN from anything.
pub open spec fn apart(a: Binary64, b: Binary64) -> bool {
    if a.nan() || b.nan() {
        false
    } else if !a.finite() || !b.finite() {
        a != b
    } else {
        gap(a.value(), b.value()) >= margin_units()
    }
}

/// An absolute value, cut at 2^1001 units: a whole number of these, and a rest below one.
struct Cut {
    whole: u128,
    rest: u64,
    exponent: u32,
}

impl Cut {
    spec fn rest_units(self) -> nat {
        self.rest as nat * pow2(self.exponent as nat)
    }

    spec fn units(self) -> nat {
        self.whole as nat * pow2(1001) + self.rest_units()
    }

    spec fn well_formed(self) -> bool {
        &&& self.rest < 2 * HIDDEN_BIT
        &&& self.exponent <= 1000
        &&& self.rest_units() < pow2(1001)
        &&& self.whole <= 0x2000_0000_0000_0000_0000_0000_0000_0000u128
    }
}

/// Cuts `significand * 2^exponent`.
fn cut(significand: u64, exponent: u32) -> (r: Cut)
    requires
        significand < 2 * HIDDEN_BIT,
        exponent <= 1073,
    ensures
        r.well_formed(),
        r.units() == significand * pow2(exponent as nat),
{
    proof {
        crate::binary64::lemma_cuts();
        lemma_pow2_pos(1001);
        lemma_pow2_pos(exponent as nat);
        lemma_mul_basics(pow2(0) as int);
    }
    if exponent >= 1001 {
        let k: u32 = exponent - 1001;
        let lo: u64 = power_of_two(k / 2);
        let hi: u64 = power_of_two(k - k / 2);
        proof {
            lemma_pow2_adds((k / 2) as nat, (k - k / 2) as nat);
            lemma_pow2_adds(k as nat, 1001);
            crate::binary64::lemma_pow2_between((k / 2) as nat, 36);
            crate::binary64::lemma_pow2_between((k - k / 2) as nat, 36);
            assert(pow2(36) == 0x10_0000_0000) by {
                lemma2_to64_rest();
            }
            assert(lo * hi <= 0x10_0000_0000 * 0x10_0000_0000) by (nonlinear_arith)
                requires
                    lo <= 0x10_0000_0000,
                    hi <= 0x10_0000_0000,
            ;
            assert(significand * (lo * hi) <= 0x20_0000_0000_0000 * (0x10_0000_0000
                * 0x10_0000_0000)) by (nonlinear_arith)
                requires
                    significand <= 0x20_0000_0000_0000,
                    lo * hi <= 0x10_0000_0000 * 0x10_0000_0000,
            ;
        }
        let scale: u128 = (lo as u128) * (hi as u128);
        let whole: u128 = (significand as u128) * scale;
        let r = Cut { whole, rest: 0, exponent: 0 };
        proof {
            lemma_mul_is_associative(
                significand as int,
                pow2(k as nat) as int,
                pow2(1001) as int,
            );
        }
        return r;
    }
    let s: u32 = 1001 - exponent;
    proof {
        lemma_pow2_adds(s as nat, exponent as nat);
    }
    if s >= 53 {
        proof {
            crate::binary64::lemma_pow2_between(53, s as nat);
            lemma_mul_strict_inequality(
                significand as int,
                pow2(s as nat) as int,
                pow2(exponent as nat) as int,
            );
        }
        Cut { whole: 0, rest: significand, exponent }
    } else {
        let p: u64 = power_of_two(s);
        let whole: u64 = significand / p;
        let rest: u64 = significand % p;
        proof {
            vstd::arithmetic::div_mod::lemma_fundamental_div_mod(significand as int, p as int);
            let w = pow2(exponent as nat);
            assert((p * whole + rest) * w == whole * (p * w) + rest * w) by (nonlinear_arith);
            lemma_mul_strict_inequality(rest as int, p as int, w as int);
        }
        Cut { whole: whole as u128, rest, exponent }
    }
}

/// Comparing `a` with `b + t` by whole numbers and rests, in multiples of `q`.
proof fn lemma_compare_cuts(wa: nat, ra: nat, wb: nat, rb: nat, t: nat, q: nat)
    requires
        ra < q,
        rb < q,
    ensures
        wa * q + ra >= (wb * q + rb) + t * q <==> wa > wb + t || (wa == wb + t && ra >= rb),
{
    assert((wb + t) * q == wb * q + t * q) by (nonlinear_arith);
    if wa > wb + t {
        assert(wa * q >= (wb + t + 1) * q) by (nonlinear_arith)
            requires
                wa >= wb + t + 1,
        ;
        assert((wb + t + 1) * q == (wb + t) * q + q) by (nonlinear_arith);
    } else if wa < wb + t {
        assert((wa + 1) * q <= (wb + t) * q) by (nonlinear_arith)
            requires
                wa + 1 <= wb + t,
        ;
        assert((wa + 1) * q == wa * q + q) by (nonlinear_arith);
    }
}

/// Comparing a sum with `t` by whole numbers and rests, in multiples of `q`.
proof fn lemma_compare_sum(wa: nat, ra: nat, wb: nat, rb: nat, t: nat, q: nat)
    requires
        ra < q,
        rb < q,
    ensures
        wa * q + ra + wb * q + rb >= t * q <==> wa + wb >= t || (wa + wb + 1 == t && ra + rb >= q),
{
    let w = wa + wb;
    assert(w * q == wa * q + wb * q) by (nonlinear_arith)
        requires
            w == wa + wb,
    ;
    if w >= t {
        assert(w * q >= t * q) by (nonlinear_arith)
            requires
                w >= t,
        ;
    } else if w + 1 == t {
        assert(t * q == w * q + q) by (nonlinear_arith)
            requires
                t == w + 1,
        ;
    } else {
        assert((w + 2) * q <= t * q) by (nonlinear_arith)
            requires
                w + 2 <= t,
        ;
        assert((w + 2) * q == w * q + 2 * q) by (nonlinear_arith);
    }
}

/// The rest of `a` is not below the rest of `b`.
fn rest_reaches(a: &Cut, b: &Cut) -> (r: bool)
    requires
        a.well_formed(),
        b.well_formed(),
    ensures
        r == (a.rest_units() >= b.rest_units()),
{
    let x = Binary64::exact(false, a.rest, a.exponent);
    let y = Binary64::exact(false, b.rest, b.exponent);
    x.ge(&y)
}

/// The rests of both make one more whole, where the rest of `b` is coarse.
fn rests_carry_from(a: &Cut, b: &Cut) -> (r: bool)
    requires
        a.well_formed(),
        b.well_formed(),
        b.rest > 0,
        b.exponent >= 948,
    ensures
        r == (a.rest_units() + b.rest_units() >= pow2(1001)),
{
    let s: u32 = 1001 - b.exponent;
    let p: u64 = power_of_two(s);
    proof {
        crate::binary64::lemma_cuts();
        lemma_pow2_adds(s as nat, b.exponent as nat);
        crate::binary64::lemma_pow2_between(s as nat, 53);
        lemma_pow2_pos(b.exponent as nat);
        let w = pow2(b.exponent as nat);
        assert(b.rest < p) by (nonlinear_arith)
            requires
                b.rest * w < p * w,
                w > 0,
        ;
        assert((p - b.rest) * w == p * w - b.rest * w) by (nonlinear_arith);
    }
    let missing: u64 = p - b.rest;
    let x = Binary64::exact(false, a.rest, a.exponent);
    let y = Binary64::exact(false, missing, b.exponent);
    x.ge(&y)
}

/// The rests of both make one more whole.
fn rests_carry(a: &Cut, b: &Cut) -> (r: bool)
    requires
        a.well_formed(),
        b.well_formed(),
    ensures
        r == (a.rest_units() + b.rest_units() >= pow2(1001)),
{
    proof {
        lemma_mul_basics(pow2(a.exponent as nat) as int);
        lemma_mul_basics(pow2(b.exponent as nat) as int);
    }
    if a.rest == 0 || b.rest == 0 {
        false
    } else if b.exponent >= 948 {
        rests_carry_from(a, b)
    } else if a.exponent >= 948 {
        rests_carry_from(b, a)
    } else {
        proof {
            crate::binary64::lemma_cuts();
            lemma_fine_rest(a.rest as nat, a.exponent as nat);
            lemma_fine_rest(b.rest as nat, b.exponent as nat);
            lemma_pow2_unfold(1001);
        }
        false
    }
}

/// A rest of a fine exponent is below half of 2^1001.
proof fn lemma_fine_rest(rest: nat, exponent: nat)
    requires
        rest < pow2(53),
        exponent < 948,
    ensures
        rest * pow2(exponent) < pow2(1000),
{
    lemma_pow2_pos(exponent);
    lemma_pow2_adds(53, exponent);
    crate::binary64::lemma_pow2_between(53 + exponent, 1000);
    lemma_mul_strict_inequality(rest as int, pow2(53) as int, pow2(exponent) as int);
}

/// The margin in the two ways that it is written.
proof fn lemma_margin()
    ensures
        margin_units() == MARGIN_WHOLE as nat * pow2(1001),
        margin_units() <= pow2(1073),
        MARGIN_WHOLE > 0,
{
    lemma_pow2_adds(13, 1001);
    lemma2_to64();
    lemma2_to64_rest();
    assert(pow2(13) == 0x2000);
    assert(MARGIN_WHOLE == MARGIN as nat * 0x2000);
    lemma_mul_is_associative(MARGIN as int, 0x2000, pow2(1001) as int);
    lemma_pow2_adds(59, 1014);
    lemma_pow2_pos(1014);
    assert(pow2(59) == 0x800_0000_0000_0000);
    lemma_mul_inequality(MARGIN as int, pow2(59) as int, pow2(1014) as int);
}

/// Two different numbers, one of which is large, are far apart.
proof fn lemma_large(sa: nat, ea: nat, sb: nat, eb: nat)
    requires
        ea >= 1074,
        ea >= eb,
        sa >= pow2(52),
        sb < pow2(53),
        sa * pow2(ea) != sb * pow2(eb),
    ensures
        gap((sa * pow2(ea)) as int, (sb * pow2(eb)) as int) >= pow2(1073),
{
    lemma_pow2_pos(1073);
    let g = pow2(1073);
    if eb >= 1073 {
        let x = sa * pow2((ea - 1073) as nat);
        let y = sb * pow2((eb - 1073) as nat);
        lemma_pow2_adds((ea - 1073) as nat, 1073);
        lemma_pow2_adds((eb - 1073) as nat, 1073);
        lemma_mul_is_associative(sa as int, pow2((ea - 1073) as nat) as int, g as int);
        lemma_mul_is_associative(sb as int, pow2((eb - 1073) as nat) as int, g as int);
        assert(x != y);
        if x > y {
            assert(x * g >= y * g + g) by (nonlinear_arith)
                requires
                    x >= y + 1,
            ;
        } else {
            assert(y * g >= x * g + g) by (nonlinear_arith)
                requires
                    y >= x + 1,
            ;
        }
    } else {
        lemma_pow2_adds(52, 1074);
        lemma_pow2_adds(53, 1072);
        lemma_pow2_unfold(1126);
        crate::binary64::lemma_pow2_between(1074, ea);
        crate::binary64::lemma_pow2_between(eb, 1072);
        crate::binary64::lemma_pow2_between(1073, 1125);
        assert(sa * pow2(ea) >= pow2(52) * pow2(1074)) by (nonlinear_arith)
            requires
                sa >= pow2(52),
                pow2(ea) >= pow2(1074),
        ;
        assert(sb * pow2(eb) <= pow2(53) * pow2(1072)) by (nonlinear_arith)
            requires
                sb <= pow2(53),
                pow2(eb) <= pow2(1072),
        ;
    }
}

/// The absolute value of a large number is beyond the margin.
proof fn lemma_large_alone(sa: nat, ea: nat)
    requires
        ea >= 1074,
        sa >= pow2(52),
    ensures
        sa * pow2(ea) >= pow2(1073),
{
    lemma_pow2_adds(52, 1074);
    crate::binary64::lemma_pow2_between(1074, ea);
    crate::binary64::lemma_pow2_between(1073, 1126);
    assert(sa * pow2(ea) >= pow2(52) * pow2(1074)) by (nonlinear_arith)
        requires
            sa >= pow2(52),
            pow2(ea) >= pow2(1074),
    ;
}

/// The rounded difference of two numbers is above a hundredth.
pub fn is_apart(a: &Binary64, b: &Binary64) -> (r: bool)
    ensures
        r == apart(*a, *b),
{
    if a.is_nan() || b.is_nan() {
        return false;
    }
    if !a.is_finite() || !b.is_finite() {
        return a.to_bits() != b.to_bits();
    }
    let (sa, ea) = a.parts();
    let (sb, eb) = b.parts();
    let same_sign: bool = a.is_negative() == b.is_negative();
    proof {
        crate::binary64::lemma_cuts();
        lemma_margin();
        lemma_pow2_pos(1001);
    }
    if ea >= 1074 || eb >= 1074 {
        proof {
            if ea >= 1074 {
                lemma_large_alone(sa as nat, ea as nat);
            }
            if eb >= 1074 {
                lemma_large_alone(sb as nat, eb as nat);
            }
            if a.units() != b.units() {
                if ea >= eb {
                    lemma_large(sa as nat, ea as nat, sb as nat, eb as nat);
                } else {
                    lemma_large(sb as nat, eb as nat, sa as nat, ea as nat);
                }
            } else if same_sign {
                crate::binary64::value_identifies_number(*a, *b);
                lemma_mul_strictly_positive(MARGIN_WHOLE as int, pow2(1001) as int);
            }
        }
        return !same_sign || a.to_bits() != b.to_bits();
    }
    let x = cut(sa, ea);
    let y = cut(sb, eb);
    let ghost (rx, ry, q) = (x.rest_units(), y.rest_units(), pow2(1001));
    let ghost (wx, wy, t) = (x.whole as nat, y.whole as nat, MARGIN_WHOLE as nat);
    if same_sign {
        proof {
            lemma_compare_cuts(wx, rx, wy, ry, t, q);
            lemma_compare_cuts(wy, ry, wx, rx, t, q);
            lemma_mul_strictly_positive(MARGIN_WHOLE as int, pow2(1001) as int);
        }
        if x.whole >= y.whole {
            let least: u128 = y.whole + MARGIN_WHOLE;
            x.whole > least || (x.whole == least && rest_reaches(&x, &y))
        } else {
            let least: u128 = x.whole + MARGIN_WHOLE;
            y.whole > least || (y.whole == least && rest_reaches(&y, &x))
        }
    } else {
        proof {
            lemma_compare_sum(wx, rx, wy, ry, t, q);
        }
        let sum: u128 = x.whole + y.whole;
        sum >= MARGIN_WHOLE || (sum + 1 == MARGIN_WHOLE && rests_carry(&x, &y))
    }
}

} // verus!
