//! Numbers in SMC keys: how they are read and written.
//!
//! On Apple Silicon a key usually holds a 4-byte IEEE 754 number, little-endian
//! (`flt `). The older fixed-point type `fpe2` and the unsigned integers are
//! big-endian.
use crate::binary64::Binary64;
use crate::error::SmcError;
use crate::smc::SmcKeyDataKeyInfo;
use crate::text::same_text;
use vstd::arithmetic::power2::*;
use vstd::prelude::*;
use vstd::string::*;

verus! {

/// The code of `flt `.
pub const TYPE_FLT: u32 = 0x666c_7420;

/// The code of `fpe2`.
pub const TYPE_FPE2: u32 = 0x6670_6532;

/// The code of `ui8 `.
pub const TYPE_UI8: u32 = 0x7569_3820;

/// The code of `ui16`.
pub const TYPE_UI16: u32 = 0x7569_3136;

/// The code of `ui32`.
pub const TYPE_UI32: u32 = 0x7569_3332;

/// Four bytes as one number, the first byte least significant.
pub open spec fn little_endian(b: Seq<u8>) -> int {
    b[0] + b[1] * 0x100 + b[2] * 0x1_0000 + b[3] * 0x100_0000
}

/// The number that a key of the given type and size holds in its bytes; none where the
/// type and size are no numeric ones.
pub open spec fn decoded(info: SmcKeyDataKeyInfo, b: Seq<u8>) -> Option<Binary64> {
    if info.data_type == TYPE_FLT && info.data_size == 4 {
        Some(crate::binary64::widened(little_endian(b) as u32))
    } else if info.data_type == TYPE_FPE2 && info.data_size == 2 {
        Some(crate::binary64::exactly(false, (b[0] * 0x100 + b[1]) as nat * pow2(1072)))
    } else if info.data_type == TYPE_UI8 && info.data_size == 1 {
        Some(crate::binary64::exactly(false, b[0] as nat * crate::binary64::one_in_units()))
    } else if info.data_type == TYPE_UI16 && info.data_size == 2 {
        Some(
            crate::binary64::exactly(
                false,
                (b[0] * 0x100 + b[1]) as nat * crate::binary64::one_in_units(),
            ),
        )
    } else if info.data_type == TYPE_UI32 && info.data_size == 4 {
        Some(
            crate::binary64::exactly(
                false,
                crate::fourcc::big_endian(b) as nat * crate::binary64::one_in_units(),
            ),
        )
    } else {
        None
    }
}

/// Reads the number that a key holds.
pub fn decode_numeric(info: &SmcKeyDataKeyInfo, bytes: &[u8; 32]) -> (r: Option<Binary64>)
    ensures
        r == decoded(*info, bytes@),
{
    let b0: u32 = bytes[0] as u32;
    let b1: u32 = bytes[1] as u32;
    let b2: u32 = bytes[2] as u32;
    let b3: u32 = bytes[3] as u32;
    if info.data_type == TYPE_FLT && info.data_size == 4 {
        Some(Binary64::from_single(b0 + b1 * 0x100 + b2 * 0x1_0000 + b3 * 0x100_0000))
    } else if info.data_type == TYPE_FPE2 && info.data_size == 2 {
        Some(Binary64::from_quarters((b0 * 0x100 + b1) as u16))
    } else if info.data_type == TYPE_UI8 && info.data_size == 1 {
        Some(Binary64::from_u32(b0))
    } else if info.data_type == TYPE_UI16 && info.data_size == 2 {
        Some(Binary64::from_u32(b0 * 0x100 + b1))
    } else if info.data_type == TYPE_UI32 && info.data_size == 4 {
        Some(Binary64::from_u32(b0 * 0x100_0000 + b1 * 0x1_0000 + b2 * 0x100 + b3))
    } else {
        None
    }
}

/// What manual mode on (`true`) or off is written as in a mode key of the given type
/// and size; none where the type is not supported.
pub open spec fn mode_payload(data_type: Seq<char>, data_size: u32, on: bool) -> Option<Seq<u8>> {
    if data_type == "ui8 "@ && data_size == 1 {
        Some(
            seq![
                if on {
                    1u8
                } else {
                    0u8
                },
            ],
        )
    } else if data_type == "flt "@ && data_size == 4 {
        if on {
            Some(seq![0u8, 0u8, 0x80u8, 0x3fu8])
        } else {
            Some(seq![0u8, 0u8, 0u8, 0u8])
        }
    } else {
        None
    }
}

/// The refusal of a mode key type.
pub open spec fn unsupported_mode(
    data_type: Seq<char>,
    data_size: u32,
) -> crate::error::SmcErrorView {
    crate::error::SmcErrorView::UnsupportedMode { data_type, data_size }
}

/// The number one, as a mode key of the given type holds it.
pub fn encode_one(data_type: &str, data_size: u32) -> (r: Result<Vec<u8>, SmcError>)
    ensures
        match r {
            Ok(v) => mode_payload(data_type@, data_size, true) == Some(v@),
            Err(e) => mode_payload(data_type@, data_size, true) is None && e@ == unsupported_mode(
                data_type@,
                data_size,
            ),
        },
{
    if same_text(data_type, "ui8 ") && data_size == 1 {
        let v: Vec<u8> = vec![1];
        assert(v@ =~= seq![1u8]);
        Ok(v)
    } else if same_text(data_type, "flt ") && data_size == 4 {
        let v: Vec<u8> = vec![0, 0, 0x80, 0x3f];
        assert(v@ =~= seq![0u8, 0u8, 0x80u8, 0x3fu8]);
        Ok(v)
    } else {
        Err(SmcError::UnsupportedMode { data_type: data_type.to_owned(), data_size })
    }
}

/// The number zero, as a mode key of the given type holds it.
pub fn encode_zero(data_type: &str, data_size: u32) -> (r: Result<Vec<u8>, SmcError>)
    ensures
        match r {
            Ok(v) => mode_payload(data_type@, data_size, false) == Some(v@),
            Err(e) => mode_payload(data_type@, data_size, false) is None && e@ == unsupported_mode(
                data_type@,
                data_size,
            ),
        },
{
    if same_text(data_type, "ui8 ") && data_size == 1 {
        let v: Vec<u8> = vec![0];
        assert(v@ =~= seq![0u8]);
        Ok(v)
    } else if same_text(data_type, "flt ") && data_size == 4 {
        let v: Vec<u8> = vec![0, 0, 0, 0];
        assert(v@ =~= seq![0u8, 0u8, 0u8, 0u8]);
        Ok(v)
    } else {
        Err(SmcError::UnsupportedMode { data_type: data_type.to_owned(), data_size })
    }
}

/// `v` is what the speed `value` is written as in a target key of the given type and
/// size.
pub open spec fn target_payload(
    data_type: Seq<char>,
    data_size: u32,
    value: Binary64,
    v: Seq<u8>,
) -> bool {
    if data_type == "flt "@ && data_size == 4 {
        v.len() == 4 && crate::binary64::nearest_single(value, little_endian(v) as u32)
    } else {
        &&& data_type == "fpe2"@ && data_size == 2
        &&& v.len() == 2
        &&& v[0] * 0x100 + v[1] == value.rounded_quarters()
    }
}

/// The refusal of a target speed, if it is refused.
pub open spec fn target_refusal(
    data_type: Seq<char>,
    data_size: u32,
    value: Binary64,
) -> Option<crate::error::SmcErrorView> {
    if !value.finite() {
        Some(crate::error::SmcErrorView::TargetNotFinite { target: value })
    } else if (data_type == "flt "@ && data_size == 4) || (data_type == "fpe2"@ && data_size == 2) {
        None
    } else {
        Some(crate::error::SmcErrorView::UnsupportedTarget { data_type, data_size })
    }
}

/// The bytes that the speed `value` is written as.
pub open spec fn target_bytes(data_type: Seq<char>, data_size: u32, value: Binary64) -> Seq<u8> {
    choose|v: Seq<u8>| target_payload(data_type, data_size, value, v)
}

/// A byte and what is above it can be read off the number that they make.
proof fn lemma_first_byte(x: int, above_x: int, y: int, above_y: int)
    requires
        0 <= x < 0x100,
        0 <= y < 0x100,
        x + above_x * 0x100 == y + above_y * 0x100,
    ensures
        x == y,
        above_x == above_y,
{
}

/// Four bytes can be read off the number that they spell.
proof fn lemma_little_endian_digits(a: Seq<u8>, b: Seq<u8>)
    requires
        a.len() == 4,
        b.len() == 4,
        little_endian(a) == little_endian(b),
    ensures
        a == b,
{
    let (a0, a1, a2, a3) = (a[0] as int, a[1] as int, a[2] as int, a[3] as int);
    let (b0, b1, b2, b3) = (b[0] as int, b[1] as int, b[2] as int, b[3] as int);
    lemma_first_byte(a0, a1 + a2 * 0x100 + a3 * 0x1_0000, b0, b1 + b2 * 0x100 + b3 * 0x1_0000);
    lemma_first_byte(a1, a2 + a3 * 0x100, b1, b2 + b3 * 0x100);
    lemma_first_byte(a2, a3, b2, b3);
    assert(a =~= b);
}

/// A speed is written in one way only.
pub proof fn target_payload_is_unique(
    data_type: Seq<char>,
    data_size: u32,
    value: Binary64,
    a: Seq<u8>,
    b: Seq<u8>,
)
    requires
        target_payload(data_type, data_size, value, a),
        target_payload(data_type, data_size, value, b),
    ensures
        a == b,
{
    if data_type == "flt "@ && data_size == 4 {
        crate::binary64::nearest_single_is_unique(
            value,
            little_endian(a) as u32,
            little_endian(b) as u32,
        );
        lemma_little_endian_digits(a, b);
    } else {
        assert(a =~= b);
    }
}

/// A speed, as a target key of the given type holds it.
pub fn encode_target(data_type: &str, data_size: u32, value: Binary64) -> (r: Result<
    Vec<u8>,
    SmcError,
>)
    ensures
        match r {
            Ok(v) => target_refusal(data_type@, data_size, value) is None && target_payload(
                data_type@,
                data_size,
                value,
                v@,
            ) && v@ == target_bytes(data_type@, data_size, value),
            Err(e) => target_refusal(data_type@, data_size, value) == Some(e@),
        },
{
    if !value.is_finite() {
        return Err(SmcError::TargetNotFinite { target: value });
    }
    if same_text(data_type, "flt ") && data_size == 4 {
        let n: u32 = value.to_single();
        let v: Vec<u8> = vec![
            (n % 0x100) as u8,
            (n / 0x100 % 0x100) as u8,
            (n / 0x1_0000 % 0x100) as u8,
            (n / 0x100_0000) as u8,
        ];
        assert(little_endian(v@) == n);
        proof {
            assert(target_payload(data_type@, data_size, value, v@));
            crate::laws::numbers::every_speed_can_be_written(data_type@, data_size, value);
            target_payload_is_unique(
                data_type@,
                data_size,
                value,
                v@,
                target_bytes(data_type@, data_size, value),
            );
        }
        Ok(v)
    } else if same_text(data_type, "fpe2") && data_size == 2 {
        let n: u16 = value.to_quarters_saturating();
        let v: Vec<u8> = vec![(n / 0x100) as u8, (n % 0x100) as u8];
        proof {
            assert(target_payload(data_type@, data_size, value, v@));
            crate::laws::numbers::every_speed_can_be_written(data_type@, data_size, value);
            target_payload_is_unique(
                data_type@,
                data_size,
                value,
                v@,
                target_bytes(data_type@, data_size, value),
            );
        }
        Ok(v)
    } else {
        Err(SmcError::UnsupportedTarget { data_type: data_type.to_owned(), data_size })
    }
}

/// The codes of the types that are known by their texts.
pub proof fn lemma_type_codes()
    ensures
        crate::fourcc::code_named("ui8 "@) == Some(TYPE_UI8),
        crate::fourcc::code_named("flt "@) == Some(TYPE_FLT),
        crate::fourcc::code_named("fpe2"@) == Some(TYPE_FPE2),
{
    reveal_strlit("ui8 ");
    reveal_strlit("flt ");
    reveal_strlit("fpe2");
    vstd::utf8::is_ascii_chars_encode_utf8("ui8 "@);
    vstd::utf8::is_ascii_chars_encode_utf8("flt "@);
    vstd::utf8::is_ascii_chars_encode_utf8("fpe2"@);
}

/// A speed that was written to a `flt ` key reads back as the nearest single-precision
/// number, and as itself if it is one.
pub proof fn written_speed_reads_back(
    value: Binary64,
    v: Seq<u8>,
    info: SmcKeyDataKeyInfo,
    bits: u32,
)
    requires
        value.finite(),
        target_payload("flt "@, 4, value, v),
        info.data_type == TYPE_FLT,
        info.data_size == 4,
    ensures
        decoded(info, crate::smc::zero_filled(v)) == Some(
            crate::binary64::widened(little_endian(v) as u32),
        ),
        crate::binary64::nearest_single(value, little_endian(v) as u32),
        crate::binary64::single_magnitude(bits) < crate::binary64::SINGLE_INFINITY && value
            == crate::binary64::widened(bits) ==> decoded(info, crate::smc::zero_filled(v))
            == Some(value),
{
    let b = crate::smc::zero_filled(v);
    assert(b[0] == v[0] && b[1] == v[1] && b[2] == v[2] && b[3] == v[3]);
    if crate::binary64::single_magnitude(bits) < crate::binary64::SINGLE_INFINITY && value
        == crate::binary64::widened(bits) {
        crate::binary64::narrowing_undoes_widening(bits, little_endian(v) as u32);
    }
}

/// A speed from 0 up to what 16 bits of quarters can hold that was written to an `fpe2`
/// key reads back at most an eighth of a revolution off.
pub proof fn written_quarters_read_back(value: Binary64, v: Seq<u8>, info: SmcKeyDataKeyInfo)
    requires
        value.finite(),
        !value.negative(),
        (2 * value.units() + pow2(1072)) / (2 * pow2(1072)) <= 0xffff,
        target_payload("fpe2"@, 2, value, v),
        info.data_type == TYPE_FPE2,
        info.data_size == 2,
    ensures
        decoded(info, crate::smc::zero_filled(v)) is Some,
        decoded(info, crate::smc::zero_filled(v))->0.finite(),
        8 * crate::binary64::distance(
            decoded(info, crate::smc::zero_filled(v))->0.units(),
            value.units(),
        ) <= crate::binary64::one_in_units(),
{
    reveal_strlit("fpe2");
    reveal_strlit("flt ");
    let b = crate::smc::zero_filled(v);
    let q = (v[0] * 0x100 + v[1]) as nat;
    let w = pow2(1072);
    assert("fpe2"@.len() == 4 && v.len() == 2);
    assert(b[0] == v[0] && b[1] == v[1]);
    crate::binary64::lemma_representable(false, q, 1072);
    lemma_pow2_pos(1072);
    lemma_pow2_unfold(1073);
    lemma_pow2_unfold(1074);
    let u = value.units();
    let x = 2 * u + w;
    vstd::arithmetic::div_mod::lemma_fundamental_div_mod(x as int, (2 * w) as int);
    assert(q == x / (2 * w));
    assert((2 * w) * q == 2 * (q * w)) by (nonlinear_arith);
}

} // verus!
