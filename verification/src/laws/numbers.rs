//! What the numbers are that keys hold and that are written to them.
use crate::binary64::Binary64;
use crate::laws::machine::spelled;
use crate::smc::SmcKeyDataKeyInfo;
use vstd::arithmetic::power2::*;
use vstd::prelude::*;

verus! {

/// A key of a type, given by its four letters, and of a size.
pub open spec fn typed(
    info: SmcKeyDataKeyInfo,
    a: char,
    b: char,
    c: char,
    d: char,
    size: int,
) -> bool {
    &&& info.data_type == spelled(a as int, b as int, c as int, d as int)
    &&& info.data_size == size
}

/// The absolute value, in units of 2^-1074, of a finite single-precision number with
/// the given exponent and fraction bits.
pub open spec fn single_value(exponent: nat, fraction: nat) -> nat {
    if exponent == 0 {
        fraction * pow2(925)
    } else {
        (0x80_0000 + fraction) * pow2((exponent + 924) as nat)
    }
}

/// Integer keys hold big-endian integers, `fpe2` keys quarters, `flt ` keys
/// single-precision numbers with the least significant byte first; each is read as
/// exactly that value. No other key holds a number.
pub proof fn decoding_is_exact(info: SmcKeyDataKeyInfo, b: Seq<u8>)
    requires
        b.len() == 32,
    ensures
        ({
            let n2 = b[0] * 0x100 + b[1];
            let n4 = b[0] * 0x100_0000 + b[1] * 0x1_0000 + b[2] * 0x100 + b[3];
            let r4 = b[3] * 0x100_0000 + b[2] * 0x1_0000 + b[1] * 0x100 + b[0];
            let d = crate::codec::decoded(info, b);
            let v = d->0;
            &&& typed(info, 'u', 'i', '8', ' ', 1) ==> d is Some && v.finite() && !v.negative()
                && v.value() == b[0] * pow2(1074)
            &&& typed(info, 'u', 'i', '1', '6', 2) ==> d is Some && v.finite() && !v.negative()
                && v.value() == n2 * pow2(1074)
            &&& typed(info, 'u', 'i', '3', '2', 4) ==> d is Some && v.finite() && !v.negative()
                && v.value() == n4 * pow2(1074)
            &&& typed(info, 'f', 'p', 'e', '2', 2) ==> d is Some && v.finite() && !v.negative()
                && 4 * v.value() == n2 * pow2(1074)
            &&& typed(info, 'f', 'l', 't', ' ', 4) ==> {
                let exponent = (r4 / 0x80_0000 % 0x100) as nat;
                let fraction = (r4 % 0x80_0000) as nat;
                let negative = r4 / 0x8000_0000 == 1;
                &&& d is Some
                &&& v.nan() <==> exponent == 0xff && fraction > 0
                &&& v.finite() <==> exponent < 0xff
                &&& !v.nan() ==> v.negative() == negative
                &&& exponent < 0xff ==> v.value() == if negative {
                    -(single_value(exponent, fraction) as int)
                } else {
                    single_value(exponent, fraction) as int
                }
            }
            &&& d is None <==> !typed(info, 'u', 'i', '8', ' ', 1) && !typed(
                info,
                'u',
                'i',
                '1',
                '6',
                2,
            ) && !typed(info, 'u', 'i', '3', '2', 4) && !typed(info, 'f', 'p', 'e', '2', 2)
                && !typed(info, 'f', 'l', 't', ' ', 4)
        }),
{
    let n2 = (b[0] * 0x100 + b[1]) as nat;
    let n4 = (b[0] * 0x100_0000 + b[1] * 0x1_0000 + b[2] * 0x100 + b[3]) as nat;
    let r4 = (b[3] * 0x100_0000 + b[2] * 0x1_0000 + b[1] * 0x100 + b[0]) as nat;
    assert(spelled('u' as int, 'i' as int, '8' as int, ' ' as int) == crate::codec::TYPE_UI8);
    assert(spelled('u' as int, 'i' as int, '1' as int, '6' as int) == crate::codec::TYPE_UI16);
    assert(spelled('u' as int, 'i' as int, '3' as int, '2' as int) == crate::codec::TYPE_UI32);
    assert(spelled('f' as int, 'p' as int, 'e' as int, '2' as int) == crate::codec::TYPE_FPE2);
    assert(spelled('f' as int, 'l' as int, 't' as int, ' ' as int) == crate::codec::TYPE_FLT);
    crate::binary64::lemma_representable(false, b[0] as nat, 1074);
    crate::binary64::lemma_representable(false, n2, 1074);
    crate::binary64::lemma_representable(false, n4, 1074);
    crate::binary64::lemma_representable(false, n2, 1072);
    lemma_pow2_unfold(1073);
    lemma_pow2_unfold(1074);
    assert(4 * (n2 * pow2(1072)) == n2 * (4 * pow2(1072))) by (nonlinear_arith);
    let bits = r4 as u32;
    let exponent = (r4 / 0x80_0000 % 0x100) as nat;
    let fraction = (r4 % 0x80_0000) as nat;
    let m = crate::binary64::single_magnitude(bits);
    assert(m == exponent * 0x80_0000 + fraction);
    assert(crate::binary64::single_negative(bits) == (r4 / 0x8000_0000 == 1));
    if exponent < 0xff {
        crate::binary64::lemma_widened_is_exact(bits);
        crate::binary64::lemma_cuts();
        assert(m / 0x80_0000 == exponent && m % 0x80_0000 == fraction);
        if exponent > 0 {
            lemma_pow2_adds((exponent - 1) as nat, 925);
            vstd::arithmetic::mul::lemma_mul_is_associative(
                (0x80_0000 + fraction) as int,
                pow2((exponent - 1) as nat) as int,
                pow2(925) as int,
            );
        }
    }
}

/// A count is the integer part of the number that is read, cut off at 255; what is no
/// number, or below zero, counts nothing.
pub proof fn counts_are_integer_parts(v: Binary64)
    ensures
        v.nan() || v.value() < 0 ==> v.saturated_u8() == 0,
        !v.nan() && 0 <= v.value() < 0x100 * pow2(1074) ==> v.saturated_u8() * pow2(1074)
            <= v.value() < (v.saturated_u8() + 1) * pow2(1074),
        !v.nan() && v.value() >= 0x100 * pow2(1074) ==> v.saturated_u8() == 255,
{
    let one = pow2(1074) as int;
    lemma_pow2_pos(1074);
    let u = v.units() as int;
    vstd::arithmetic::div_mod::lemma_fundamental_div_mod(u, one);
    vstd::arithmetic::div_mod::lemma_mod_bound(u, one);
    let q = u / one;
    assert(u == q * one + u % one) by {
        vstd::arithmetic::mul::lemma_mul_is_commutative(one, q);
    }
    assert((q + 1) * one == q * one + one) by (nonlinear_arith);
    if u < 0x100 * one {
        if q >= 0x100 {
            vstd::arithmetic::mul::lemma_mul_inequality(0x100, q, one);
        }
    } else {
        if q < 0x100 {
            vstd::arithmetic::mul::lemma_mul_inequality(q + 1, 0x100, one);
        }
    }
    if v.negative() && v.value() == 0 {
        assert(0 * one == 0);
        assert(1 * one == one);
    }
}

/// How far two values are apart.
pub open spec fn gap(a: int, b: int) -> int {
    if a <= b {
        b - a
    } else {
        a - b
    }
}

/// A speed that fits is written to a `flt ` key as the single-precision number that no
/// other comes nearer to it.
pub proof fn written_speeds_are_nearest(
    value: Binary64,
    v: Seq<u8>,
    info: SmcKeyDataKeyInfo,
    other: u32,
)
    requires
        crate::codec::target_payload("flt "@, 4, value, v),
        typed(info, 'f', 'l', 't', ' ', 4),
        value.finite(),
        crate::binary64::widened(other).finite(),
        crate::codec::decoded(info, crate::smc::zero_filled(v)) is Some,
        crate::codec::decoded(info, crate::smc::zero_filled(v))->0.finite(),
    ensures
        gap(crate::codec::decoded(info, crate::smc::zero_filled(v))->0.value(), value.value())
            <= gap(crate::binary64::widened(other).value(), value.value()),
{
    assert(spelled('f' as int, 'l' as int, 't' as int, ' ' as int) == crate::codec::TYPE_FLT);
    let b = crate::smc::zero_filled(v);
    assert(b[0] == v[0] && b[1] == v[1] && b[2] == v[2] && b[3] == v[3]);
    let bits = crate::codec::little_endian(v) as u32;
    assert(crate::codec::little_endian(b) == crate::codec::little_endian(v));
    let r = crate::binary64::single_magnitude(bits);
    let s = crate::binary64::single_magnitude(other);
    assert(s < crate::binary64::SINGLE_INFINITY);
    assert(r < crate::binary64::SINGLE_INFINITY);
    crate::binary64::lemma_widened_is_exact(bits);
    crate::binary64::lemma_widened_is_exact(other);
    assert(crate::binary64::distance(crate::binary64::single_units(r), value.units())
        <= crate::binary64::distance(crate::binary64::single_units(s), value.units()));
    assert(crate::binary64::nearest_single(value, bits));
    assert(crate::binary64::single_units(0) == 0) by {
        crate::binary64::lemma_cuts();
        assert(0nat * pow2(925) == 0);
    }
    assert(crate::binary64::distance(crate::binary64::single_units(r), value.units())
        <= crate::binary64::distance(crate::binary64::single_units(0), value.units()));
}

/// A speed is written to an `fpe2` key as the nearest number of quarters: nothing
/// below zero, and the most that there is for what is too fast.
pub proof fn written_quarters_are_nearest(value: Binary64, v: Seq<u8>)
    requires
        crate::codec::target_payload("fpe2"@, 2, value, v),
        value.finite(),
    ensures
        ({
            let q = v[0] * 0x100 + v[1];
            let quarter = pow2(1072) as int;
            &&& v.len() == 2
            &&& value.value() <= 0 ==> q == 0
            &&& 0 <= value.value() <= 0xffff * quarter ==> 2 * gap(q * quarter, value.value())
                <= quarter
            &&& value.value() >= 0xffff * quarter ==> q == 0xffff
        }),
{
    reveal_strlit("fpe2");
    reveal_strlit("flt ");
    assert("fpe2"@[1] == 'p' && "flt "@[1] == 'l');
    let w = pow2(1072) as int;
    lemma_pow2_pos(1072);
    let u = value.units() as int;
    let x = 2 * u + w;
    let q = x / (2 * w);
    vstd::arithmetic::div_mod::lemma_fundamental_div_mod(x, 2 * w);
    vstd::arithmetic::div_mod::lemma_mod_bound(x, 2 * w);
    assert((2 * w) * q == 2 * (q * w)) by (nonlinear_arith);
    if q < 0xffff {
        vstd::arithmetic::mul::lemma_mul_inequality(q + 1, 0xffff, w);
        assert((q + 1) * w == q * w + w) by (nonlinear_arith);
    }
    if q > 0xffff {
        vstd::arithmetic::mul::lemma_mul_inequality(0x1_0000, q, w);
    }
    if u == 0 {
        if q >= 1 {
            vstd::arithmetic::mul::lemma_mul_inequality(1, q, w);
        }
    }
}

/// Some single-precision magnitude up to `n` is nearest to `units`.
proof fn lemma_least_distance(units: nat, n: nat) -> (r: nat)
    ensures
        r <= n,
        forall|s: nat|
            s <= n ==> crate::binary64::distance(crate::binary64::single_units(r), units)
                <= crate::binary64::distance(#[trigger] crate::binary64::single_units(s), units),
    decreases n,
{
    if n == 0 {
        0
    } else {
        let r = lemma_least_distance(units, (n - 1) as nat);
        if crate::binary64::distance(crate::binary64::single_units(n), units)
            < crate::binary64::distance(crate::binary64::single_units(r), units) {
            n
        } else {
            r
        }
    }
}

/// Two magnitudes that are both nearest are neighbours.
proof fn lemma_ties_are_neighbours(units: nat, x: nat, y: nat)
    requires
        x < y <= crate::binary64::SINGLE_INFINITY,
        crate::binary64::distance(crate::binary64::single_units(x), units)
            == crate::binary64::distance(crate::binary64::single_units(y), units),
        forall|s: nat|
            s <= crate::binary64::SINGLE_INFINITY ==> crate::binary64::distance(
                crate::binary64::single_units(x),
                units,
            ) <= crate::binary64::distance(#[trigger] crate::binary64::single_units(s), units),
    ensures
        y == x + 1,
{
    if y > x + 1 {
        crate::binary64::lemma_single_units_increase(x, x + 1);
        crate::binary64::lemma_single_units_increase(x + 1, y);
        assert(crate::binary64::distance(crate::binary64::single_units(x), units)
            <= crate::binary64::distance(crate::binary64::single_units(x + 1), units));
    }
}

/// Some single-precision number is nearest to a finite one, and even where two are.
proof fn lemma_some_single_is_nearest(value: Binary64) -> (bits: u32)
    ensures
        crate::binary64::nearest_single(value, bits),
{
    let top = crate::binary64::SINGLE_INFINITY as nat;
    let units = value.units();
    let r = lemma_least_distance(units, top);
    let m: nat = if r % 2 == 1 && exists|s: nat|
        s <= top && s != r && crate::binary64::distance(
            #[trigger] crate::binary64::single_units(s),
            units,
        ) == crate::binary64::distance(crate::binary64::single_units(r), units) {
        let s = choose|s: nat|
            s <= top && s != r && crate::binary64::distance(
                #[trigger] crate::binary64::single_units(s),
                units,
            ) == crate::binary64::distance(crate::binary64::single_units(r), units);
        if s < r {
            lemma_ties_are_neighbours(units, s, r);
        } else {
            lemma_ties_are_neighbours(units, r, s);
        }
        s
    } else {
        r
    };
    if value.negative() {
        (m + crate::binary64::SINGLE_SIGN_BIT) as u32
    } else {
        m as u32
    }
}

/// The four bytes of a number, the least significant first.
proof fn lemma_little_endian_bytes(n: u32) -> (v: Seq<u8>)
    ensures
        v.len() == 4,
        crate::codec::little_endian(v) == n,
{
    seq![
        (n % 0x100) as u8,
        (n / 0x100 % 0x100) as u8,
        (n / 0x1_0000 % 0x100) as u8,
        (n / 0x100_0000) as u8,
    ]
}

/// There is a way to write every speed that is not refused.
pub proof fn every_speed_can_be_written(data_type: Seq<char>, data_size: u32, value: Binary64)
    requires
        crate::codec::target_refusal(data_type, data_size, value) is None,
    ensures
        crate::codec::target_payload(
            data_type,
            data_size,
            value,
            crate::codec::target_bytes(data_type, data_size, value),
        ),
{
    if data_type == "flt "@ && data_size == 4 {
        let bits = lemma_some_single_is_nearest(value);
        let v = lemma_little_endian_bytes(bits);
        assert(crate::codec::target_payload(data_type, data_size, value, v));
    } else {
        let q = value.rounded_quarters();
        let v = seq![(q / 0x100) as u8, (q % 0x100) as u8];
        assert(v[0] * 0x100 + v[1] == q);
        assert(crate::codec::target_payload(data_type, data_size, value, v));
    }
}

/// The type of a mode key that can be written, as its text and as its code.
pub open spec fn mode_typed(data_type: Seq<char>, data_size: u32, info: SmcKeyDataKeyInfo) -> bool {
    ||| data_type == "ui8 "@ && data_size == 1 && typed(info, 'u', 'i', '8', ' ', 1)
    ||| data_type == "flt "@ && data_size == 4 && typed(info, 'f', 'l', 't', ' ', 4)
}

/// Manual mode is written as one and its end as zero, in either type that a mode key
/// can have.
pub proof fn modes_are_one_and_zero(
    data_type: Seq<char>,
    data_size: u32,
    info: SmcKeyDataKeyInfo,
    on: bool,
)
    requires
        mode_typed(data_type, data_size, info),
    ensures
        ({
            let payload = crate::codec::mode_payload(data_type, data_size, on);
            let d = crate::codec::decoded(info, crate::smc::zero_filled(payload->0));
            &&& payload is Some
            &&& payload->0.len() == data_size
            &&& crate::fourcc::code_named(data_type) == Some(info.data_type)
            &&& d is Some
            &&& !d->0.nan()
            &&& d->0.value() == if on {
                pow2(1074) as int
            } else {
                0
            }
        }),
{
    reveal_strlit("ui8 ");
    reveal_strlit("flt ");
    assert("ui8 "@[0] == 'u' && "flt "@[0] == 'f');
    crate::codec::lemma_type_codes();
    assert(spelled('u' as int, 'i' as int, '8' as int, ' ' as int) == crate::codec::TYPE_UI8);
    assert(spelled('f' as int, 'l' as int, 't' as int, ' ' as int) == crate::codec::TYPE_FLT);
    let payload = crate::codec::mode_payload(data_type, data_size, on)->0;
    let b = crate::smc::zero_filled(payload);
    decoding_is_exact(info, b);
    if data_size == 4 {
        let r4 = b[3] * 0x100_0000 + b[2] * 0x1_0000 + b[1] * 0x100 + b[0];
        assert(b[0] == 0 && b[1] == 0 && b[2] == payload[2] && b[3] == payload[3]);
        if on {
            assert(r4 == 0x3f80_0000);
            assert(r4 / 0x80_0000 % 0x100 == 127 && r4 % 0x80_0000 == 0);
            lemma_pow2_adds(23, 1051);
            crate::binary64::lemma_cuts();
            assert(single_value(127, 0) == 0x80_0000 * pow2(1051));
        } else {
            assert(r4 == 0);
            assert(single_value(0, 0) == 0 * pow2(925));
        }
    } else {
        assert(b[0] == payload[0]);
        assert(1 * pow2(1074) == pow2(1074));
        assert(0 * pow2(1074) == 0);
    }
}

/// No other key type is written as a mode, and none but the two known ones as a speed.
pub proof fn other_types_are_refused(
    data_type: Seq<char>,
    data_size: u32,
    on: bool,
    value: Binary64,
)
    ensures
        crate::codec::mode_payload(data_type, data_size, on) is Some <==> (data_type == "ui8 "@
            && data_size == 1) || (data_type == "flt "@ && data_size == 4),
        crate::codec::target_refusal(data_type, data_size, value) is None <==> value.finite() && ((
        data_type == "fpe2"@ && data_size == 2) || (data_type == "flt "@ && data_size == 4)),
        !value.finite() ==> crate::codec::target_refusal(data_type, data_size, value) == Some(
            crate::error::SmcErrorView::TargetNotFinite { target: value },
        ),
{
}

/// A text of four ASCII characters names the code that they spell; a text whose UTF-8
/// form is not four bytes long names none.
pub proof fn texts_name_what_they_spell(s: Seq<char>)
    ensures
        vstd::utf8::encode_utf8(s).len() != 4 ==> crate::fourcc::code_named(s) is None,
        s.len() == 4 && vstd::utf8::is_ascii_chars(s) ==> crate::fourcc::code_named(s) == Some(
            spelled(s[0] as int, s[1] as int, s[2] as int, s[3] as int),
        ),
{
    if s.len() == 4 && vstd::utf8::is_ascii_chars(s) {
        vstd::utf8::is_ascii_chars_encode_utf8(s);
        assert((s[0] as int) < 0x80 && (s[1] as int) < 0x80);
        assert((s[2] as int) < 0x80 && (s[3] as int) < 0x80);
    }
}

} // verus!
