//! Keys, their types and what they hold.
use msf::binary64::Binary64;
use msf::codec::{decode_numeric, encode_one, encode_target, encode_zero};
use msf::error::SmcError;
use msf::fourcc::{fan_key, fourcc, fourcc_from_str, fourcc_to_string};
use msf::probe::{
    compose_mode_key, compose_target_key, select_mode_casing, FanProbe, ModeKeyCasing, Probe,
};
use msf::smc::{key_info_from_raw, KeyInfo, SmcKeyDataKeyInfo};

fn number(v: f64) -> Binary64 {
    Binary64::from_bits(v.to_bits())
}

fn decoded(info: &SmcKeyDataKeyInfo, bytes: &[u8; 32]) -> Option<f64> {
    decode_numeric(info, bytes).map(|v| f64::from_bits(v.to_bits()))
}

fn info_of(ty: &[u8; 4], size: u32) -> SmcKeyDataKeyInfo {
    SmcKeyDataKeyInfo { data_type: fourcc(ty), data_size: size, data_attributes: 0 }
}

fn key(t: &str, sz: u32) -> KeyInfo {
    KeyInfo { data_type: t.to_string(), data_size: sz, data_attributes: 0 }
}

#[test]
fn fourcc_packs_big_endian() {
    assert_eq!(fourcc(b"FNum"), 0x464E_756D);
    assert_eq!(fourcc(b"F0Ac"), 0x4630_4163);
}

#[test]
fn fan_key_builds_per_index() {
    assert_eq!(fan_key(0, b"Ac"), fourcc(b"F0Ac"));
    assert_eq!(fan_key(3, b"Tg"), fourcc(b"F3Tg"));
    assert_eq!(fan_key(7, b"Md"), fourcc(b"F7Md"));
}

#[test]
fn fan_keys_differ_between_fans() {
    for i in 0..=255u8 {
        for j in 0..i {
            assert_ne!(fan_key(i, b"Tg"), fan_key(j, b"Tg"));
        }
        assert_ne!(fan_key(i, b"Tg"), fan_key(i, b"Md"));
    }
    assert_eq!(fan_key(208, b"Tg"), 0x4600_5467);
}

#[test]
fn decode_flt_little_endian_float() {
    let info = info_of(b"flt ", 4);
    let mut bytes = [0u8; 32];
    bytes[..4].copy_from_slice(&1500.0_f32.to_le_bytes());
    assert_eq!(decoded(&info, &bytes), Some(1500.0));
}

#[test]
fn decode_fpe2_big_endian_fixed_point() {
    let info = info_of(b"fpe2", 2);
    let mut bytes = [0u8; 32];
    bytes[0] = 0x01;
    bytes[1] = 0x92;
    assert_eq!(decoded(&info, &bytes), Some(100.5));
}

#[test]
fn decode_ui8_single_byte() {
    let info = info_of(b"ui8 ", 1);
    let mut bytes = [0u8; 32];
    bytes[0] = 42;
    assert_eq!(decoded(&info, &bytes), Some(42.0));
}

#[test]
fn decode_ui16_big_endian() {
    let info = info_of(b"ui16", 2);
    let mut bytes = [0u8; 32];
    bytes[0] = 0x12;
    bytes[1] = 0x34;
    assert_eq!(decoded(&info, &bytes), Some(0x1234 as f64));
}

#[test]
fn decode_ui32_big_endian() {
    let info = info_of(b"ui32", 4);
    let mut bytes = [0u8; 32];
    bytes[..4].copy_from_slice(&[0xfe, 0xdc, 0xba, 0x98]);
    assert_eq!(decoded(&info, &bytes), Some(0xfedc_ba98u32 as f64));
}

#[test]
fn decode_rejects_unknown_type() {
    let info = info_of(b"unkn", 4);
    let bytes = [0u8; 32];
    assert!(decode_numeric(&info, &bytes).is_none());
}

#[test]
fn decode_rejects_a_size_that_does_not_fit_the_type() {
    let bytes = [1u8; 32];
    assert!(decode_numeric(&info_of(b"flt ", 2), &bytes).is_none());
    assert!(decode_numeric(&info_of(b"fpe2", 4), &bytes).is_none());
    assert!(decode_numeric(&info_of(b"ui8 ", 2), &bytes).is_none());
}

#[test]
fn decode_flt_keeps_every_kind_of_single() {
    for bits in [
        0u32, 0x8000_0000, 1, 0x8000_0001, 0x007f_ffff, 0x0080_0000, 0x3f80_0000, 0x7f7f_ffff,
        0x7f80_0000, 0xff80_0000,
    ] {
        let mut bytes = [0u8; 32];
        bytes[..4].copy_from_slice(&bits.to_le_bytes());
        let v = decode_numeric(&info_of(b"flt ", 4), &bytes).unwrap();
        assert_eq!(v.to_bits(), (f32::from_bits(bits) as f64).to_bits());
    }
    let mut bytes = [0u8; 32];
    bytes[..4].copy_from_slice(&f32::NAN.to_bits().to_le_bytes());
    assert!(decode_numeric(&info_of(b"flt ", 4), &bytes).unwrap().is_nan());
}

#[test]
fn fourcc_to_string_pads_with_space() {
    assert_eq!(fourcc_to_string(fourcc(b"flt ")), "flt ");
    assert_eq!(fourcc_to_string(fourcc(b"ui8 ")), "ui8 ");
    assert_eq!(fourcc_to_string(fourcc(b"F0Md")), "F0Md");
}

#[test]
fn fourcc_to_string_replaces_what_is_no_text() {
    assert_eq!(fourcc_to_string(0x41ff_4242), "A\u{fffd}BB");
    assert_eq!(fourcc_to_string(0xc3a9_4142), "\u{e9}AB");
}

#[test]
fn fourcc_from_str_round_trip() {
    let v = fourcc_from_str("F0Md").unwrap();
    assert_eq!(v, fourcc(b"F0Md"));
    assert!(fourcc_from_str("F0M").is_err());
}

#[test]
fn fourcc_from_str_counts_bytes() {
    assert_eq!(fourcc_from_str("\u{e9}AB").unwrap(), 0xc3a9_4142);
    assert_eq!(fourcc_to_string(fourcc_from_str("\u{e9}AB").unwrap()), "\u{e9}AB");
    let e = fourcc_from_str("a\"b").unwrap_err();
    assert!(matches!(e, SmcError::BadFourcc { .. }));
    assert_eq!(e.message(), "fourcc string must be 4 bytes: \"a\\\"b\"");
}

#[test]
fn probe_controllable_when_all_keys_present() {
    let p = Probe {
        fan_count: 2,
        ftst: Some(key("ui8 ", 1)),
        fans: vec![
            FanProbe {
                index: 0,
                mode_key_casing: Some(ModeKeyCasing::Upper),
                md: Some(key("ui8 ", 1)),
                tg: Some(key("flt ", 4)),
                mn: Some(key("flt ", 4)),
                mx: Some(key("flt ", 4)),
            },
            FanProbe {
                index: 1,
                mode_key_casing: Some(ModeKeyCasing::Upper),
                md: Some(key("ui8 ", 1)),
                tg: Some(key("flt ", 4)),
                mn: Some(key("flt ", 4)),
                mx: Some(key("flt ", 4)),
            },
        ],
    };
    assert!(p.controllable());
    assert_eq!(p.not_controllable_reason(), None);
}

#[test]
fn probe_controllable_when_ftst_absent_but_direct_keys_present() {
    // The unlock key is absent on some machines; direct mode does without it.
    let p = Probe {
        fan_count: 1,
        ftst: None,
        fans: vec![FanProbe {
            index: 0,
            mode_key_casing: Some(ModeKeyCasing::Upper),
            md: Some(key("ui8 ", 1)),
            tg: Some(key("flt ", 4)),
            mn: None,
            mx: None,
        }],
    };
    assert!(p.controllable());
    assert_eq!(p.not_controllable_reason(), None);
}

#[test]
fn probe_not_controllable_when_fan_count_zero() {
    let p = Probe { fan_count: 0, ftst: Some(key("ui8 ", 1)), fans: vec![] };
    assert!(!p.controllable());
    assert_eq!(p.not_controllable_reason().as_deref(), Some("fan_count == 0"));
}

#[test]
fn probe_not_controllable_when_md_missing() {
    let p = Probe {
        fan_count: 1,
        ftst: Some(key("ui8 ", 1)),
        fans: vec![FanProbe {
            index: 0,
            mode_key_casing: None,
            md: None,
            tg: Some(key("flt ", 4)),
            mn: None,
            mx: None,
        }],
    };
    assert!(!p.controllable());
    assert!(p.not_controllable_reason().as_deref().unwrap().contains("F0Md"));
}

#[test]
fn probe_not_controllable_when_a_target_is_missing() {
    let fan = |index: u8, tg: Option<KeyInfo>| FanProbe {
        index,
        mode_key_casing: Some(ModeKeyCasing::Lower),
        md: Some(key("ui8 ", 1)),
        tg,
        mn: None,
        mx: None,
    };
    let p = Probe {
        fan_count: 2,
        ftst: None,
        fans: vec![fan(0, Some(key("flt ", 4))), fan(1, None)],
    };
    assert!(!p.controllable());
    assert_eq!(p.not_controllable_reason().as_deref(), Some("F1Tg missing"));
}

#[test]
fn key_info_from_raw_preserves_all_fields() {
    let raw = SmcKeyDataKeyInfo {
        data_type: fourcc(b"flt "),
        data_size: 4,
        data_attributes: 0xd4,
    };
    let info = key_info_from_raw(&raw);
    assert_eq!(info.data_type, "flt ");
    assert_eq!(info.data_size, 4);
    assert_eq!(info.data_attributes, 0xd4);
}

#[test]
fn select_mode_casing_prefers_upper_when_both_present() {
    let u = key("ui8 ", 1);
    let l = KeyInfo { data_type: "ui8 ".to_string(), data_size: 1, data_attributes: 0 };
    let (casing, info) = select_mode_casing(Some(u.clone()), Some(l));
    assert_eq!(casing, Some(ModeKeyCasing::Upper));
    assert_eq!(info, Some(u));
}

#[test]
fn select_mode_casing_falls_back_to_lower() {
    let l = key("ui8 ", 1);
    let (casing, info) = select_mode_casing(None, Some(l.clone()));
    assert_eq!(casing, Some(ModeKeyCasing::Lower));
    assert_eq!(info, Some(l));
}

#[test]
fn select_mode_casing_none_when_both_absent() {
    let (casing, info) = select_mode_casing(None, None);
    assert_eq!(casing, None);
    assert_eq!(info, None);
}

#[test]
fn compose_mode_key_upper_and_lower() {
    assert_eq!(compose_mode_key(0, ModeKeyCasing::Upper), fourcc(b"F0Md"));
    assert_eq!(compose_mode_key(1, ModeKeyCasing::Upper), fourcc(b"F1Md"));
    assert_eq!(compose_mode_key(0, ModeKeyCasing::Lower), fourcc(b"F0md"));
}

#[test]
fn compose_target_key_per_fan() {
    assert_eq!(compose_target_key(0), fourcc(b"F0Tg"));
    assert_eq!(compose_target_key(3), fourcc(b"F3Tg"));
}

#[test]
fn encode_one_supports_ui8_and_flt() {
    assert_eq!(encode_one("ui8 ", 1).unwrap(), vec![1]);
    assert_eq!(encode_one("flt ", 4).unwrap(), 1.0_f32.to_le_bytes().to_vec());
    assert!(encode_one("ui16", 2).is_err());
}

#[test]
fn encode_zero_supports_ui8_and_flt() {
    assert_eq!(encode_zero("ui8 ", 1).unwrap(), vec![0]);
    assert_eq!(encode_zero("flt ", 4).unwrap(), 0.0_f32.to_le_bytes().to_vec());
}

#[test]
fn encode_one_and_zero_name_what_they_refuse() {
    let e = encode_one("ui16", 2).unwrap_err();
    assert_eq!(e.message(), "unsupported mode key type/size: \"ui16\"/2");
    let e = encode_zero("ui8 ", 2).unwrap_err();
    assert_eq!(e.message(), "unsupported mode key type/size: \"ui8 \"/2");
}

#[test]
fn encode_target_flt_is_little_endian_f32() {
    let bytes = encode_target("flt ", 4, number(1500.0)).unwrap();
    assert_eq!(bytes, 1500.0_f32.to_le_bytes().to_vec());
}

#[test]
fn encode_target_flt_rounds_as_a_cast_does() {
    for v in [
        0.0,
        -0.0,
        1.0 / 3.0,
        -2500.7,
        1e-45,
        7e-46,
        1.4e-45,
        1.1754943508222875e-38,
        1.17549430e-38,
        3.4028234663852886e38,
        3.4028235677973366e38,
        1e300,
        -1e300,
        16777217.0,
        16777219.0,
        5e-324,
        f64::MAX,
    ] {
        let bytes = encode_target("flt ", 4, number(v)).unwrap();
        assert_eq!(bytes, (v as f32).to_le_bytes().to_vec(), "{v}");
    }
}

#[test]
fn encode_target_fpe2_is_big_endian_fixed() {
    // 100.5 is 402 quarters, 0x0192.
    let bytes = encode_target("fpe2", 2, number(100.5)).unwrap();
    assert_eq!(bytes, vec![0x01, 0x92]);
}

#[test]
fn encode_target_fpe2_rounds_and_saturates() {
    for v in [
        0.0, -0.0, 0.124, 0.125, 0.12499999999999999, 0.375, 1.0, 2500.37, 16383.75, 16383.9,
        16384.0, 1e10, -1.0, -0.1, 5e-324, f64::MAX, f64::MIN,
    ] {
        let bytes = encode_target("fpe2", 2, number(v)).unwrap();
        let scaled = (v * 4.0).round().clamp(0.0, u16::MAX as f64) as u16;
        assert_eq!(bytes, scaled.to_be_bytes().to_vec(), "{v}");
    }
}

#[test]
fn encode_target_rejects_nan_and_inf() {
    assert!(encode_target("flt ", 4, number(f64::NAN)).is_err());
    assert!(encode_target("flt ", 4, number(f64::INFINITY)).is_err());
    assert!(encode_target("flt ", 4, number(f64::NEG_INFINITY)).is_err());
}

#[test]
fn encode_target_names_what_it_refuses() {
    let message = |v: f64| encode_target("flt ", 4, number(v)).unwrap_err().message();
    assert_eq!(message(f64::NAN), "target RPM must be finite (got NaN)");
    assert_eq!(message(f64::INFINITY), "target RPM must be finite (got inf)");
    assert_eq!(message(f64::NEG_INFINITY), "target RPM must be finite (got -inf)");
    let e = encode_target("ui8 ", 1, number(1.0)).unwrap_err();
    assert_eq!(e.message(), "unsupported target key type/size: \"ui8 \"/1");
    // A number that is not finite is named even where the type is refused, too.
    let e = encode_target("ui8 ", 1, number(f64::NAN)).unwrap_err();
    assert!(matches!(e, SmcError::TargetNotFinite { .. }));
}

#[test]
fn what_is_written_reads_back() {
    for v in [0.0, 1.0, 1350.25, 2500.5, 6864.75] {
        let bytes = encode_target("flt ", 4, number(v)).unwrap();
        let mut held = [0u8; 32];
        held[..4].copy_from_slice(&bytes);
        assert_eq!(decoded(&info_of(b"flt ", 4), &held), Some(v));
        let bytes = encode_target("fpe2", 2, number(v)).unwrap();
        let mut held = [0u8; 32];
        held[..2].copy_from_slice(&bytes);
        assert_eq!(decoded(&info_of(b"fpe2", 2), &held), Some(v));
    }
}
