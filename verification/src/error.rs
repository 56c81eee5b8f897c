//! What can go wrong while talking to the SMC, and how it is put in words.
use crate::binary64::Binary64;
use crate::text::{push_decimal, push_numeral, quote};
use vstd::prelude::*;
use vstd::string::*;

verus! {

/// A failed exchange with the SMC, or a request that is refused before it is made.
#[derive(Debug, Clone)]
pub enum SmcError {
    /// No matching dictionary for the AppleSMC service could be made.
    MatchingNull,
    /// The AppleSMC service is not there.
    ServiceNotFound,
    /// The service could not be opened.
    OpenFailed { rc: i32 },
    /// The kernel refused the call.
    CallFailed { rc: i32 },
    /// The SMC answered with a result code other than zero.
    Refused { result: u8 },
    /// More than 32 bytes were to be written to a key.
    PayloadTooLong,
    /// A data type that is not four bytes long.
    BadFourcc { text: String },
    /// A mode key of a type that manual mode cannot be written to.
    UnsupportedMode { data_type: String, data_size: u32 },
    /// A target key of a type that no speed can be written to.
    UnsupportedTarget { data_type: String, data_size: u32 },
    /// A target speed that is no finite number.
    TargetNotFinite { target: Binary64 },
    /// The mode key did not keep the value that was written to it.
    ModeRejected,
    /// The mode key holds what is no number.
    ModeUndecodable { fan_index: u8, mode_type: String, mode_size: u32 },
    /// The fan count key holds what is no number.
    CountUndecodable { code: u32, data_size: u32 },
}

/// An error with its texts as sequences of characters.
pub ghost enum SmcErrorView {
    MatchingNull,
    ServiceNotFound,
    OpenFailed { rc: i32 },
    CallFailed { rc: i32 },
    Refused { result: u8 },
    PayloadTooLong,
    BadFourcc { text: Seq<char> },
    UnsupportedMode { data_type: Seq<char>, data_size: u32 },
    UnsupportedTarget { data_type: Seq<char>, data_size: u32 },
    TargetNotFinite { target: Binary64 },
    ModeRejected,
    ModeUndecodable { fan_index: u8, mode_type: Seq<char>, mode_size: u32 },
    CountUndecodable { code: u32, data_size: u32 },
}

impl View for SmcError {
    type V = SmcErrorView;

    open spec fn view(&self) -> SmcErrorView {
        match *self {
            SmcError::MatchingNull => SmcErrorView::MatchingNull,
            SmcError::ServiceNotFound => SmcErrorView::ServiceNotFound,
            SmcError::OpenFailed { rc } => SmcErrorView::OpenFailed { rc },
            SmcError::CallFailed { rc } => SmcErrorView::CallFailed { rc },
            SmcError::Refused { result } => SmcErrorView::Refused { result },
            SmcError::PayloadTooLong => SmcErrorView::PayloadTooLong,
            SmcError::BadFourcc { text } => SmcErrorView::BadFourcc { text: text@ },
            SmcError::UnsupportedMode { data_type, data_size } => SmcErrorView::UnsupportedMode {
                data_type: data_type@,
                data_size,
            },
            SmcError::UnsupportedTarget { data_type, data_size } => SmcErrorView::UnsupportedTarget {
                data_type: data_type@,
                data_size,
            },
            SmcError::TargetNotFinite { target } => SmcErrorView::TargetNotFinite { target },
            SmcError::ModeRejected => SmcErrorView::ModeRejected,
            SmcError::ModeUndecodable {
                fan_index,
                mode_type,
                mode_size,
            } => SmcErrorView::ModeUndecodable { fan_index, mode_type: mode_type@, mode_size },
            SmcError::CountUndecodable { code, data_size } => SmcErrorView::CountUndecodable {
                code,
                data_size,
            },
        }
    }
}

/// A signed code as the bit pattern that hexadecimal output shows.
pub open spec fn two_complement(rc: i32) -> nat {
    if rc < 0 {
        (rc + 0x1_0000_0000) as nat
    } else {
        rc as nat
    }
}

/// A hexadecimal numeral with its prefix.
pub open spec fn hex(n: nat) -> Seq<char> {
    "0x"@ + crate::text::numeral(16, n)
}

/// The data type of a key as shown in a message: its four bytes where they are UTF-8,
/// a question mark where they are not.
pub open spec fn type_or_unknown(code: u32) -> Seq<char> {
    if vstd::utf8::valid_utf8(crate::fourcc::code_bytes(code)) {
        vstd::utf8::decode_utf8(crate::fourcc::code_bytes(code))
    } else {
        "?"@
    }
}

/// A number that is not finite, in words.
pub open spec fn non_finite_name(v: Binary64) -> Seq<char> {
    if v.nan() {
        "NaN"@
    } else if v.negative() {
        "-inf"@
    } else {
        "inf"@
    }
}

impl SmcErrorView {
    /// The message that describes the error.
    pub open spec fn words(self) -> Seq<char> {
        match self {
            SmcErrorView::MatchingNull => "IOServiceMatching(AppleSMC) returned null"@,
            SmcErrorView::ServiceNotFound => "AppleSMC service not found"@,
            SmcErrorView::OpenFailed { rc } => "IOServiceOpen(AppleSMC) failed: "@ + hex(
                two_complement(rc),
            ),
            SmcErrorView::CallFailed { rc } => "IOConnectCallStructMethod failed: "@ + hex(
                two_complement(rc),
            ),
            SmcErrorView::Refused { result } => "SMC returned result="@ + hex(result as nat),
            SmcErrorView::PayloadTooLong => "smc write payload > 32 bytes"@,
            SmcErrorView::BadFourcc { text } => "fourcc string must be 4 bytes: "@
                + crate::text::debug_quoted(text),
            SmcErrorView::UnsupportedMode { data_type, data_size } =>
                "unsupported mode key type/size: "@ + crate::text::debug_quoted(data_type) + "/"@
                + crate::text::decimal(data_size as nat),
            SmcErrorView::UnsupportedTarget { data_type, data_size } =>
                "unsupported target key type/size: "@ + crate::text::debug_quoted(data_type) + "/"@
                + crate::text::decimal(data_size as nat),
            SmcErrorView::TargetNotFinite { target } => "target RPM must be finite (got "@
                + non_finite_name(target) + ")"@,
            SmcErrorView::ModeRejected =>
                "direct mode write rejected (Ftst absent \u{2014} no fallback)"@,
            SmcErrorView::ModeUndecodable { fan_index, mode_type, mode_size } =>
                "could not decode F"@ + crate::text::decimal(fan_index as nat) + "Md ("@ + mode_type
                + "/"@ + crate::text::decimal(mode_size as nat) + ")"@,
            SmcErrorView::CountUndecodable { code, data_size } =>
                "could not decode FNum (type="@ + crate::text::debug_quoted(
                type_or_unknown(code),
            ) + ", size="@ + crate::text::decimal(data_size as nat) + ")"@,
        }
    }
}

fn push_hex(out: &mut String, n: u64)
    ensures
        final(out)@ == old(out)@ + hex(n as nat),
{
    out.append("0x");
    push_numeral(out, 16, n);
    assert(out@ =~= old(out)@ + hex(n as nat));
}

fn code_pattern(rc: i32) -> (r: u64)
    ensures
        r == two_complement(rc),
{
    if rc < 0 {
        (rc as i64 + 0x1_0000_0000i64) as u64
    } else {
        rc as u64
    }
}

impl SmcError {
    /// The message that describes the error.
    pub fn message(&self) -> (r: String)
        ensures
            r@ == self@.words(),
    {
        let mut out = String::new();
        match self {
            SmcError::MatchingNull => {
                out.append("IOServiceMatching(AppleSMC) returned null");
            },
            SmcError::ServiceNotFound => {
                out.append("AppleSMC service not found");
            },
            SmcError::OpenFailed { rc } => {
                out.append("IOServiceOpen(AppleSMC) failed: ");
                push_hex(&mut out, code_pattern(*rc));
            },
            SmcError::CallFailed { rc } => {
                out.append("IOConnectCallStructMethod failed: ");
                push_hex(&mut out, code_pattern(*rc));
            },
            SmcError::Refused { result } => {
                out.append("SMC returned result=");
                push_hex(&mut out, *result as u64);
            },
            SmcError::PayloadTooLong => {
                out.append("smc write payload > 32 bytes");
            },
            SmcError::BadFourcc { text } => {
                out.append("fourcc string must be 4 bytes: ");
                out.append(quote(text.as_str()).as_str());
            },
            SmcError::UnsupportedMode { data_type, data_size } => {
                out.append("unsupported mode key type/size: ");
                out.append(quote(data_type.as_str()).as_str());
                out.append("/");
                push_decimal(&mut out, *data_size as u64);
            },
            SmcError::UnsupportedTarget { data_type, data_size } => {
                out.append("unsupported target key type/size: ");
                out.append(quote(data_type.as_str()).as_str());
                out.append("/");
                push_decimal(&mut out, *data_size as u64);
            },
            SmcError::TargetNotFinite { target } => {
                out.append("target RPM must be finite (got ");
                if target.is_nan() {
                    out.append("NaN");
                } else if target.is_negative() {
                    out.append("-inf");
                } else {
                    out.append("inf");
                }
                out.append(")");
            },
            SmcError::ModeRejected => {
                out.append("direct mode write rejected (Ftst absent \u{2014} no fallback)");
            },
            SmcError::ModeUndecodable { fan_index, mode_type, mode_size } => {
                out.append("could not decode F");
                push_decimal(&mut out, *fan_index as u64);
                out.append("Md (");
                out.append(mode_type.as_str());
                out.append("/");
                push_decimal(&mut out, *mode_size as u64);
                out.append(")");
            },
            SmcError::CountUndecodable { code, data_size } => {
                out.append("could not decode FNum (type=");
                let bytes: [u8; 4] = crate::fourcc::code_to_bytes(*code);
                match crate::fourcc::text_of_utf8(&bytes) {
                    Some(t) => out.append(quote(t.as_str()).as_str()),
                    None => out.append(quote("?").as_str()),
                }
                out.append(", size=");
                push_decimal(&mut out, *data_size as u64);
                out.append(")");
            },
        }
        assert(out@ =~= self@.words());
        out
    }
}

} // verus!
