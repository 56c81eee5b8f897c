//! Double precision numbers by their bits.
use msf::binary64::Binary64;
use msf::margin::is_apart;

fn number(v: f64) -> Binary64 {
    Binary64::from_bits(v.to_bits())
}

fn back(v: Binary64) -> f64 {
    f64::from_bits(v.to_bits())
}

const SAMPLES: [f64; 16] = [
    0.0,
    -0.0,
    5e-324,
    -5e-324,
    2.2250738585072014e-308,
    0.05,
    0.5,
    1.0,
    -1.0,
    90.0,
    1e22,
    f64::MAX,
    f64::MIN,
    f64::INFINITY,
    f64::NEG_INFINITY,
    f64::NAN,
];

#[test]
fn numbers_are_ordered_as_floats_are() {
    for a in SAMPLES {
        for b in SAMPLES {
            assert_eq!(number(a).lt(&number(b)), a < b, "{a} {b}");
            assert_eq!(number(a).ge(&number(b)), a >= b, "{a} {b}");
        }
        assert_eq!(number(a).is_nan(), a.is_nan());
        assert_eq!(number(a).is_finite(), a.is_finite());
        if !a.is_nan() {
            assert_eq!(number(a).is_negative(), a.is_sign_negative());
        }
    }
}

#[test]
fn whole_numbers_are_exact() {
    for n in [0u32, 1, 2, 3, 255, 256, 0x1234, 0xffff_ffff] {
        assert_eq!(back(Binary64::from_u32(n)), n as f64);
    }
    for n in [0u16, 1, 2, 3, 4, 402, 65535] {
        assert_eq!(back(Binary64::from_quarters(n)), n as f64 / 4.0);
    }
}

#[test]
fn bytes_are_saturated() {
    for a in SAMPLES {
        assert_eq!(number(a).to_u8_saturating(), a as u8, "{a}");
    }
    for a in [0.99, 1.99, 2.0, 254.9, 255.0, 255.9, 256.0, 1e9, -3.5] {
        assert_eq!(number(a).to_u8_saturating(), a as u8, "{a}");
    }
}

#[test]
fn singles_survive_both_ways() {
    let mut bits: u32 = 0;
    loop {
        let wide = Binary64::from_single(bits);
        let single = f32::from_bits(bits);
        if single.is_nan() {
            assert!(wide.is_nan());
        } else {
            assert_eq!(wide.to_bits(), (single as f64).to_bits());
            if wide.is_finite() {
                assert_eq!(wide.to_single(), bits);
            }
        }
        match bits.checked_add(0x0001_2345) {
            Some(b) => bits = b,
            None => break,
        }
    }
}

#[test]
fn exact_places_a_significand() {
    // 3 * 2^1074 units of the smallest double are 3.
    assert_eq!(back(Binary64::exact(false, 3, 1074)), 3.0);
    assert_eq!(back(Binary64::exact(true, 5, 1073)), -2.5);
    assert_eq!(back(Binary64::exact(false, 1, 0)), 5e-324);
}

#[test]
fn a_hundredth_is_told_as_floats_tell_it() {
    let hundredth: f64 = 0.01;
    let up = f64::from_bits(hundredth.to_bits() + 1);
    let down = f64::from_bits(hundredth.to_bits() - 1);
    // The middle between the hundredth and the next double, as a sum of two doubles.
    let half_step = (up - hundredth) / 2.0;
    let below_half = f64::from_bits(half_step.to_bits() - 1);
    let mut samples = vec![
        hundredth, up, down, half_step, below_half, 0.005, 0.0149, 1200.0, 1200.01, 1200.0100001,
        1199.99, 2500.5, 2500.51, 2500.4999, 1e16, 1e16 + 2.0, 1e308, 9.99e307, 5e-324, 1e-300,
        1e-20, 3e-18, 64.0, 64.01, 4503599627370496.0, 4503599627370495.5, 9007199254740992.0,
        9007199254740993.0, 2.0f64.powi(52), 2.0f64.powi(53),
    ];
    for s in SAMPLES {
        samples.push(s);
    }
    let negated: Vec<f64> = samples.iter().map(|v| -v).collect();
    samples.extend(negated);
    for a in &samples {
        for b in &samples {
            assert_eq!(is_apart(&number(*a), &number(*b)), (a - b).abs() > 0.01, "{a:e} {b:e}");
        }
    }
}

#[test]
fn a_hundredth_is_told_close_to_the_edge() {
    for base in [0.0, 1.0, 3.7, 100.25, 1200.0, 6000.0, 123456.789] {
        let mut v: f64 = base + 0.01;
        for _ in 0..50 {
            v = f64::from_bits(v.to_bits() - 1);
        }
        for _ in 0..100 {
            v = f64::from_bits(v.to_bits() + 1);
            assert_eq!(is_apart(&number(v), &number(base)), (v - base).abs() > 0.01);
            assert_eq!(is_apart(&number(-v), &number(-base)), (base - v).abs() > 0.01);
        }
    }
    // Opposite signs, so that the two add up.
    let mut small: f64 = 0.004;
    for _ in 0..200 {
        small = f64::from_bits(small.to_bits() + 1);
        let other: f64 = 0.01 - small;
        for step in 0..3u64 {
            let o = f64::from_bits(other.to_bits() + step);
            assert_eq!(is_apart(&number(o), &number(-small)), (o + small).abs() > 0.01);
        }
    }
}
