//! Exchanges with a machine that is kept in memory.
use msf::binary64::Binary64;
use msf::error::SmcError;
use msf::fans::{read_fans, FanReading};
use msf::fourcc::{fan_key, fourcc};
use msf::probe::{probe, ModeKeyCasing, Probe};
use msf::session::{ManualFanSession, ReArmDecision};
use msf::smc::{
    KeyInfo, Opening, OpeningFacts, Reply, SmcConnection, SmcKeyData, SmcKeyDataKeyInfo, Step,
    SMC_CMD_READ_BYTES, SMC_CMD_READ_KEYINFO, SMC_CMD_WRITE_BYTES,
};
use std::collections::BTreeMap;

fn number(v: f64) -> Binary64 {
    Binary64::from_bits(v.to_bits())
}

fn back(v: Binary64) -> f64 {
    f64::from_bits(v.to_bits())
}

const NO_SUCH_KEY: u8 = 0x84;
const NOT_WRITABLE: u8 = 0x86;

/// A machine: its keys, those of them that do not keep what is written, those that refuse
/// to be written, and a log.
#[derive(Default)]
struct Machine {
    keys: BTreeMap<u32, (SmcKeyDataKeyInfo, [u8; 32])>,
    stubborn: Vec<u32>,
    locked: Vec<u32>,
    writes: Vec<(u32, Vec<u8>)>,
    waited: u64,
    calls: usize,
    rc: i32,
}

impl Machine {
    fn put(&mut self, key: u32, ty: &[u8; 4], data: &[u8]) {
        let mut bytes = [0u8; 32];
        bytes[..data.len()].copy_from_slice(data);
        let info = SmcKeyDataKeyInfo {
            data_type: fourcc(ty),
            data_size: data.len() as u32,
            data_attributes: 0xd4,
        };
        self.keys.insert(key, (info, bytes));
    }

    fn with_fans(n: u8) -> Machine {
        let mut m = Machine::default();
        m.put(fourcc(b"FNum"), b"ui8 ", &[n]);
        for i in 0..n {
            m.put(fan_key(i, b"Md"), b"ui8 ", &[0]);
            m.put(fan_key(i, b"Tg"), b"flt ", &(1200.0 + i as f32).to_le_bytes());
            m.put(fan_key(i, b"Ac"), b"flt ", &(1300.0 + i as f32).to_le_bytes());
            m.put(fan_key(i, b"Mn"), b"flt ", &1200.0_f32.to_le_bytes());
            m.put(fan_key(i, b"Mx"), b"flt ", &6000.0_f32.to_le_bytes());
        }
        m
    }

    fn call(&mut self, input: &SmcKeyData) -> Reply {
        self.calls += 1;
        let mut out = SmcKeyData::default();
        if self.rc != 0 {
            return Reply { rc: self.rc, out };
        }
        match self.keys.get_mut(&input.key) {
            None => out.result = NO_SUCH_KEY,
            Some((info, bytes)) => match input.data8 {
                SMC_CMD_READ_KEYINFO => out.key_info = *info,
                SMC_CMD_READ_BYTES => out.bytes = *bytes,
                SMC_CMD_WRITE_BYTES => {
                    let n = input.key_info.data_size as usize;
                    self.writes.push((input.key, input.bytes[..n].to_vec()));
                    if self.locked.contains(&input.key) {
                        out.result = NOT_WRITABLE;
                    } else if !self.stubborn.contains(&input.key) {
                        *bytes = input.bytes;
                    }
                }
                _ => out.result = 0xff,
            },
        }
        Reply { rc: 0, out }
    }

    fn run<T>(&mut self, mut step: impl FnMut(&Vec<Reply>) -> Step<T>) -> Result<T, SmcError> {
        let mut replies: Vec<Reply> = Vec::new();
        loop {
            match step(&replies) {
                Step::Call { after_ms, input } => {
                    self.waited += after_ms;
                    let reply = self.call(&input);
                    replies.push(reply);
                }
                Step::Done(r) => return r,
            }
        }
    }

    fn first_byte(&self, key: u32) -> u8 {
        self.keys[&key].1[0]
    }
}

fn probed(m: &mut Machine) -> Probe {
    m.run(probe).unwrap()
}

fn mode_info() -> KeyInfo {
    KeyInfo { data_type: "ui8 ".to_string(), data_size: 1, data_attributes: 0 }
}

fn target_info() -> KeyInfo {
    KeyInfo { data_type: "flt ".to_string(), data_size: 4, data_attributes: 0 }
}

fn armed(m: &mut Machine, fan: u8) -> ManualFanSession {
    let info = mode_info();
    m.run(|r| ManualFanSession::arm(fan, ModeKeyCasing::Upper, &info, r)).unwrap()
}

#[test]
fn probing_finds_fans_and_writes_nothing() {
    let mut m = Machine::with_fans(2);
    m.put(fan_key(1, b"md"), b"flt ", &[0, 0, 0, 0]);
    m.keys.remove(&fan_key(1, b"Md"));
    m.keys.remove(&fan_key(0, b"Mx"));
    let p = probed(&mut m);
    assert_eq!(p.fan_count, 2);
    assert_eq!(p.ftst, None);
    assert_eq!(p.fans.len(), 2);
    assert_eq!(p.fans[0].index, 0);
    assert_eq!(p.fans[0].mode_key_casing, Some(ModeKeyCasing::Upper));
    assert_eq!(p.fans[0].md.as_ref().unwrap().data_type, "ui8 ");
    assert_eq!(p.fans[0].md.as_ref().unwrap().data_attributes, 0xd4);
    assert_eq!(p.fans[0].mx, None);
    assert_eq!(p.fans[1].index, 1);
    assert_eq!(p.fans[1].mode_key_casing, Some(ModeKeyCasing::Lower));
    assert_eq!(p.fans[1].md.as_ref().unwrap().data_type, "flt ");
    assert!(p.controllable());
    assert!(m.writes.is_empty());
    assert_eq!(m.calls, 3 + 5 * 2);
    assert_eq!(m.waited, 0);
}

#[test]
fn probing_a_machine_without_a_usable_count_finds_no_fans() {
    let mut m = Machine::default();
    m.put(fourcc(b"FNum"), b"hex_", &[2]);
    m.put(fourcc(b"Ftst"), b"ui8 ", &[0]);
    let p = probed(&mut m);
    assert_eq!(p.fan_count, 0);
    assert_eq!(p.ftst.as_ref().unwrap().data_type, "ui8 ");
    assert_eq!(p.not_controllable_reason().as_deref(), Some("fan_count == 0"));
}

#[test]
fn probing_fails_where_the_count_is_refused() {
    let mut m = Machine::default();
    let e = m.run(probe).unwrap_err();
    assert_eq!(e.message(), "SMC returned result=0x84");
    m.rc = -536870206;
    let e = m.run(probe).unwrap_err();
    assert_eq!(e.message(), "IOConnectCallStructMethod failed: 0xe00002c2");
}

#[test]
fn speeds_are_read_in_order() {
    let mut m = Machine::with_fans(3);
    m.put(fan_key(2, b"Mx"), b"zzzz", &[1, 2, 3]);
    let fans: Vec<FanReading> = m.run(read_fans).unwrap();
    assert_eq!(fans.len(), 3);
    for (i, f) in fans.iter().enumerate() {
        assert_eq!(f.index as usize, i);
        assert_eq!(back(f.actual_rpm), 1300.0 + i as f64);
        assert_eq!(back(f.min_rpm), 1200.0);
    }
    assert_eq!(back(fans[0].max_rpm), 6000.0);
    assert!(fans[2].max_rpm.is_nan());
    assert!(m.writes.is_empty());
    assert_eq!(m.calls, 2 + 6 * 3);
}

#[test]
fn reading_speeds_fails_on_any_refusal() {
    let mut m = Machine::with_fans(2);
    m.keys.remove(&fan_key(1, b"Mn"));
    let e = m.run(read_fans).unwrap_err();
    assert!(matches!(e, SmcError::Refused { result: NO_SUCH_KEY }));
}

#[test]
fn reading_speeds_names_a_count_that_is_no_number() {
    let mut m = Machine::default();
    m.put(fourcc(b"FNum"), b"hex_", &[2]);
    let e = m.run(read_fans).unwrap_err();
    assert_eq!(e.message(), "could not decode FNum (type=\"hex_\", size=1)");
    m.put(fourcc(b"FNum"), &[0xff, 0x41, 0x41, 0x41], &[2, 3]);
    let e = m.run(read_fans).unwrap_err();
    assert_eq!(e.message(), "could not decode FNum (type=\"?\", size=2)");
}

#[test]
fn a_fan_is_taken_over_steered_and_given_back() {
    let mut m = Machine::with_fans(2);
    let mut s = armed(&mut m, 1);
    assert_eq!(s.fan_index(), 1);
    assert!(s.needs_restore());
    assert_eq!(m.first_byte(fan_key(1, b"Md")), 1);
    assert_eq!(m.waited, 500);

    let tg = target_info();
    m.run(|r| s.write_target(&tg, number(2500.5), r)).unwrap();
    assert_eq!(m.keys[&fan_key(1, b"Tg")].1[..4], 2500.5_f32.to_le_bytes());
    assert_eq!(back(m.run(|r| s.read_mode(r)).unwrap()), 1.0);

    assert!(m.run(|r| s.restore(r)).unwrap());
    assert!(!s.needs_restore());
    assert_eq!(m.first_byte(fan_key(1, b"Md")), 0);
    // The speed that the fan had before is back, too.
    assert_eq!(m.keys[&fan_key(1, b"Tg")].1[..4], 1201.0_f32.to_le_bytes());
    assert_eq!(back(m.run(|r| s.read_mode(r)).unwrap()), 0.0);

    // Only keys of this fan were written.
    for (key, _) in &m.writes {
        assert!([fan_key(1, b"Md"), fan_key(1, b"Tg")].contains(key));
    }
    // Giving it back again asks nothing of the machine.
    let calls = m.calls;
    assert!(m.run(|r| s.restore(r)).unwrap());
    assert_eq!(m.calls, calls);
}

#[test]
fn a_fan_without_a_readable_target_is_taken_over_all_the_same() {
    let mut m = Machine::with_fans(1);
    m.keys.remove(&fan_key(0, b"Tg"));
    let mut s = armed(&mut m, 0);
    assert!(s.previous.is_none());
    assert!(m.run(|r| s.restore(r)).unwrap());
    assert_eq!(m.writes, vec![(fan_key(0, b"Md"), vec![1]), (fan_key(0, b"Md"), vec![0])]);
}

#[test]
fn a_mode_that_does_not_stick_is_refused() {
    let mut m = Machine::with_fans(1);
    m.stubborn.push(fan_key(0, b"Md"));
    let info = mode_info();
    let e = m.run(|r| ManualFanSession::arm(0, ModeKeyCasing::Upper, &info, r)).unwrap_err();
    assert_eq!(
        e.message(),
        "direct mode write rejected (Ftst absent \u{2014} no fallback)"
    );
}

#[test]
fn a_mode_key_of_another_type_is_refused_before_any_call() {
    let mut m = Machine::with_fans(1);
    let info = KeyInfo { data_type: "ui16".to_string(), data_size: 2, data_attributes: 0 };
    let e = m.run(|r| ManualFanSession::arm(0, ModeKeyCasing::Upper, &info, r)).unwrap_err();
    assert!(matches!(e, SmcError::UnsupportedMode { .. }));
    let info = KeyInfo { data_type: "ui".to_string(), data_size: 1, data_attributes: 0 };
    let e = m.run(|r| ManualFanSession::arm(0, ModeKeyCasing::Upper, &info, r)).unwrap_err();
    assert!(matches!(e, SmcError::BadFourcc { .. }));
    assert_eq!(m.calls, 0);
}

#[test]
fn giving_back_is_tried_three_times() {
    let mut m = Machine::with_fans(1);
    let mut s = armed(&mut m, 0);
    m.stubborn.push(fan_key(0, b"Md"));
    m.writes.clear();
    m.waited = 0;
    assert!(!m.run(|r| s.restore(r)).unwrap());
    assert!(s.needs_restore());
    let off = (fan_key(0, b"Md"), vec![0]);
    let old = (fan_key(0, b"Tg"), 1200.0_f32.to_le_bytes().to_vec());
    assert_eq!(m.writes, vec![old, off.clone(), off.clone(), off]);
    assert_eq!(m.waited, 1500);
}

#[test]
fn a_refused_old_speed_is_told_and_the_mode_is_off_all_the_same() {
    let mut m = Machine::with_fans(1);
    let mut s = armed(&mut m, 0);
    let tg = target_info();
    m.run(|r| s.write_target(&tg, number(3000.0), r)).unwrap();
    m.locked.push(fan_key(0, b"Tg"));
    m.writes.clear();
    assert!(!m.run(|r| s.restore(r)).unwrap());
    assert_eq!(m.first_byte(fan_key(0, b"Md")), 0);
    assert_eq!(m.writes.len(), 2);
    // It is not given back yet, and can be once the key is writable again.
    assert!(s.needs_restore());
    m.locked.clear();
    assert!(m.run(|r| s.restore(r)).unwrap());
    assert!(!s.needs_restore());
    assert_eq!(m.keys[&fan_key(0, b"Tg")].1[..4], 1200.0_f32.to_le_bytes());
}

#[test]
fn a_drifted_fan_is_taken_over_again() {
    let mut m = Machine::with_fans(1);
    let s = armed(&mut m, 0);
    m.put(fan_key(0, b"Md"), b"ui8 ", &[0]);
    assert!(m.run(|r| s.re_arm(r)).unwrap());
    assert_eq!(m.first_byte(fan_key(0, b"Md")), 1);
    m.put(fan_key(0, b"Md"), b"ui8 ", &[0]);
    m.stubborn.push(fan_key(0, b"Md"));
    assert!(!m.run(|r| s.re_arm(r)).unwrap());
}

#[test]
fn a_fan_that_was_given_back_is_not_taken_over_again() {
    let mut m = Machine::with_fans(1);
    let mut s = armed(&mut m, 0);
    assert!(m.run(|r| s.restore(r)).unwrap());
    let calls = m.calls;
    assert!(!m.run(|r| s.re_arm(r)).unwrap());
    assert_eq!(m.calls, calls);
}

#[test]
fn a_mode_that_is_no_number_is_an_error() {
    let mut m = Machine::with_fans(1);
    let s = armed(&mut m, 0);
    m.put(fan_key(0, b"Md"), b"hex_", &[1]);
    let e = m.run(|r| s.read_mode(r)).unwrap_err();
    assert_eq!(e.message(), "could not decode F0Md (ui8 /1)");
    m.keys.remove(&fan_key(0, b"Md"));
    assert!(matches!(m.run(|r| s.read_mode(r)), Err(SmcError::Refused { .. })));
}

#[test]
fn needs_re_arm_only_when_armed_and_not_restored() {
    assert!(ManualFanSession::needs_re_arm(true, false));
    assert!(!ManualFanSession::needs_re_arm(false, false));
    assert!(!ManualFanSession::needs_re_arm(true, true));
    assert!(!ManualFanSession::needs_re_arm(false, true));
}

#[test]
fn re_arm_decision_skips_when_session_inactive() {
    assert_eq!(
        ManualFanSession::re_arm_decision(false, false, Some(number(0.0))),
        ReArmDecision::Skip
    );
    assert_eq!(
        ManualFanSession::re_arm_decision(true, true, Some(number(1.0))),
        ReArmDecision::Skip
    );
    assert_eq!(ManualFanSession::re_arm_decision(false, true, None), ReArmDecision::Skip);
}

#[test]
fn re_arm_decision_success_when_readback_at_or_above_half() {
    assert_eq!(
        ManualFanSession::re_arm_decision(true, false, Some(number(1.0))),
        ReArmDecision::Success
    );
    assert_eq!(
        ManualFanSession::re_arm_decision(true, false, Some(number(0.5))),
        ReArmDecision::Success
    );
}

#[test]
fn re_arm_decision_failed_when_readback_low_or_none() {
    assert_eq!(
        ManualFanSession::re_arm_decision(true, false, Some(number(0.0))),
        ReArmDecision::Failed
    );
    assert_eq!(
        ManualFanSession::re_arm_decision(true, false, Some(number(0.49))),
        ReArmDecision::Failed
    );
    assert_eq!(ManualFanSession::re_arm_decision(true, false, None), ReArmDecision::Failed);
}

#[test]
fn re_arm_decision_failed_for_a_nan() {
    assert_eq!(
        ManualFanSession::re_arm_decision(true, false, Some(number(f64::NAN))),
        ReArmDecision::Failed
    );
}

#[test]
fn a_key_takes_at_most_32_bytes() {
    let mut m = Machine::default();
    let key = fourcc(b"Test");
    m.put(key, b"ch8*", &[0; 32]);
    let full: Vec<u8> = (0..32).collect();
    m.run(|r| SmcConnection::write_key(key, fourcc(b"ch8*"), &full, r)).unwrap();
    let kv = m.run(|r| SmcConnection::read_key(key, r)).unwrap();
    assert_eq!(kv.bytes.to_vec(), full);
    assert_eq!(kv.info.data_size, 32);
    let calls = m.calls;
    let more: Vec<u8> = (0..33).collect();
    let e = m.run(|r| SmcConnection::write_key(key, fourcc(b"ch8*"), &more, r)).unwrap_err();
    assert_eq!(e.message(), "smc write payload > 32 bytes");
    assert_eq!(m.calls, calls);
}

#[test]
fn a_missing_key_has_no_description() {
    let mut m = Machine::default();
    let key = fourcc(b"Test");
    assert_eq!(m.run(|r| SmcConnection::read_key_info(key, r)).unwrap(), None);
    m.put(key, b"flt ", &[0; 4]);
    let info = m.run(|r| SmcConnection::read_key_info(key, r)).unwrap().unwrap();
    assert_eq!(info.data_type, "flt ");
    assert_eq!(info.data_size, 4);
}

#[test]
fn the_service_is_opened_step_by_step() {
    let mut facts = OpeningFacts { matching_is_null: None, service: None, opened: None };
    assert!(matches!(SmcConnection::open(&facts), Opening::Match));
    facts.matching_is_null = Some(true);
    match SmcConnection::open(&facts) {
        Opening::Failed(e) => {
            assert_eq!(e.message(), "IOServiceMatching(AppleSMC) returned null")
        }
        _ => panic!("null matching accepted"),
    }
    facts.matching_is_null = Some(false);
    assert!(matches!(SmcConnection::open(&facts), Opening::Find));
    facts.service = Some(0);
    match SmcConnection::open(&facts) {
        Opening::Failed(e) => assert_eq!(e.message(), "AppleSMC service not found"),
        _ => panic!("no service accepted"),
    }
    facts.service = Some(77);
    assert!(matches!(SmcConnection::open(&facts), Opening::Open { service: 77 }));
    facts.opened = Some((-536870207, 0));
    match SmcConnection::open(&facts) {
        Opening::Failed(e) => {
            assert_eq!(e.message(), "IOServiceOpen(AppleSMC) failed: 0xe00002c1")
        }
        _ => panic!("failed opening accepted"),
    }
    facts.opened = Some((0, 5));
    assert!(matches!(SmcConnection::open(&facts), Opening::Ready(SmcConnection { conn: 5 })));
}
