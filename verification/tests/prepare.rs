//! What is settled before fans are taken over.
use msf::binary64::Binary64;
use msf::daemon::Outcome::{self, Done, Failed, No};
use msf::fans::{clamp_rpm, FanReading};
use msf::prepare::{
    choose_sensors, find_reading, init_primary, init_probe_notice, monitor_filter, plan_fan,
    plan_selection, prepare_run, prepare_set, profile_lines, set_root_line, smoke_line,
    CliError, Facts, InitStep, Need, Notice, SensorList, SetTask,
};
use msf::probe::{FanProbe, ModeKeyCasing, Probe};
use msf::report::Piece;
use msf::selection::{parse_fan_selection, FanSelection};
use msf::smc::KeyInfo;

fn number(v: f64) -> Binary64 {
    Binary64::from_bits(v.to_bits())
}

fn shown(line: Vec<Piece>) -> String {
    line.iter()
        .map(|p| match p {
            Piece::Text(s) => s.clone(),
            Piece::Number { value, decimals, width } => {
                let v = f64::from_bits(value.to_bits());
                match decimals {
                    Some(d) => format!("{v:>w$.d$}", w = *width as usize, d = *d as usize),
                    None => format!("{v:>w$}", w = *width as usize),
                }
            }
        })
        .collect()
}

fn key(t: &str, sz: u32) -> Option<KeyInfo> {
    Some(KeyInfo { data_type: t.to_string(), data_size: sz, data_attributes: 0 })
}

fn fan(index: u8, controllable: bool) -> FanProbe {
    FanProbe {
        index,
        mode_key_casing: if controllable { Some(ModeKeyCasing::Upper) } else { None },
        md: if controllable { key("ui8 ", 1) } else { None },
        tg: key("flt ", 4),
        mn: None,
        mx: None,
    }
}

fn machine(controllable: &[bool]) -> Probe {
    Probe {
        fan_count: controllable.len() as u8,
        ftst: None,
        fans: controllable.iter().enumerate().map(|(i, c)| fan(i as u8, *c)).collect(),
    }
}

fn reading(index: u8) -> FanReading {
    FanReading {
        index,
        actual_rpm: number(1300.0),
        min_rpm: number(1200.0 + index as f64),
        max_rpm: number(6000.0),
    }
}

fn unknown(root: bool) -> Facts {
    Facts { root, probe: None, readings: None, calibration: None }
}

fn task(rpm: f64) -> SetTask {
    SetTask { fan: 1, rpm: number(rpm), no_clamp: false }
}

fn refused(need: Need) -> String {
    match need {
        Need::Refused(e) => e.message(),
        n => panic!("{n:?}"),
    }
}

#[test]
fn holding_a_fan_is_prepared_step_by_step() {
    let t = task(2500.0);
    let mut facts = unknown(true);
    assert!(matches!(prepare_set(&t, &facts), Need::Probe));
    assert_eq!(prepare_set(&t, &facts).exit_code(), None);
    facts.probe = Some(machine(&[true, true]));
    assert!(matches!(prepare_set(&t, &facts), Need::Readings));
    facts.readings = Some(vec![reading(0), reading(1)]);
    assert!(matches!(prepare_set(&t, &facts), Need::Calibration { notice: None }));
    facts.calibration = Some(Some(SensorList {
        matches_host: true,
        sensors: vec!["a".to_string()],
    }));
    match prepare_set(&t, &facts) {
        Need::Ready(start) => {
            assert_eq!(start.fans.len(), 1);
            assert_eq!(start.fans[0].index, 1);
            assert_eq!(start.fans[0].casing, ModeKeyCasing::Upper);
            assert_eq!(start.fans[0].md.data_type, "ui8 ");
            assert_eq!(start.fans[0].tg.data_type, "flt ");
            assert_eq!(start.live.len(), 1);
            assert_eq!(start.live[0].index, 1);
            assert_eq!(start.target, Some(number(2500.0)));
            assert_eq!(start.allow, Some(vec!["a".to_string()]));
            assert!(start.notice.is_none());
        }
        n => panic!("{n:?}"),
    }
}

#[test]
fn a_speed_that_was_moved_is_told() {
    let t = task(100.0);
    let mut facts = unknown(true);
    facts.probe = Some(machine(&[true, true]));
    facts.readings = Some(vec![reading(0), reading(1)]);
    match prepare_set(&t, &facts) {
        Need::Calibration { notice: Some(n) } => {
            assert_eq!(shown(n.describe()), "clamped target from 100 to 1201 RPM")
        }
        n => panic!("{n:?}"),
    }
    facts.calibration = Some(None);
    match prepare_set(&t, &facts) {
        Need::Ready(start) => {
            assert_eq!(start.target, Some(number(1201.0)));
            assert_eq!(start.allow, None);
            assert_eq!(
                shown(start.notice.unwrap().describe()),
                "warning: no calibration; degraded trip \u{2014} scanning all HID sensors"
            );
        }
        n => panic!("{n:?}"),
    }
}

#[test]
fn a_speed_that_hardly_moved_is_not_told() {
    let mut facts = unknown(true);
    facts.probe = Some(machine(&[true, true]));
    facts.readings = Some(vec![reading(0), reading(1)]);
    let near = task(1200.9921875);
    assert!(matches!(prepare_set(&near, &facts), Need::Calibration { notice: None }));
    facts.calibration = Some(None);
    match prepare_set(&near, &facts) {
        Need::Ready(start) => assert_eq!(start.target, Some(number(1201.0))),
        n => panic!("{n:?}"),
    }
}

#[test]
fn speeds_are_clamped_to_their_range() {
    let clamp = |v: f64, lo: f64, hi: f64| {
        f64::from_bits(clamp_rpm(number(v), number(lo), number(hi)).to_bits())
    };
    assert_eq!(clamp(100.0, 1200.0, 6000.0), 1200.0);
    assert_eq!(clamp(9000.0, 1200.0, 6000.0), 6000.0);
    assert_eq!(clamp(1200.0, 1200.0, 6000.0), 1200.0);
    assert_eq!(clamp(2500.5, 1200.0, 6000.0), 2500.5);
    assert_eq!(clamp(-0.5, 0.0, 0.0), 0.0);
    assert_eq!(clamp(2500.5, f64::NAN, f64::NAN), 2500.5);
    assert!(clamp(f64::NAN, 1200.0, 6000.0).is_nan());
}

#[test]
fn a_speed_that_is_not_clamped_is_kept_and_told() {
    let mut t = task(9000.0);
    t.no_clamp = true;
    let mut facts = unknown(true);
    facts.probe = Some(machine(&[true, true]));
    facts.readings = Some(vec![reading(0), reading(1)]);
    match prepare_set(&t, &facts) {
        Need::Calibration { notice: Some(n) } => assert_eq!(
            shown(n.describe()),
            "warning: --no-clamp; target 9000 outside spec [1201, 6000]"
        ),
        n => panic!("{n:?}"),
    }
    t.rpm = number(6000.0);
    assert!(matches!(prepare_set(&t, &facts), Need::Calibration { notice: None }));
    t.rpm = number(1200.5);
    assert!(matches!(prepare_set(&t, &facts), Need::Calibration { notice: Some(_) }));
    facts.calibration =
        Some(Some(SensorList { matches_host: false, sensors: vec!["a".to_string()] }));
    match prepare_set(&t, &facts) {
        Need::Ready(start) => {
            assert_eq!(start.target, Some(number(1200.5)));
            assert_eq!(start.allow, None);
            assert_eq!(
                shown(start.notice.unwrap().describe()),
                "warning: calibration host mismatch; degraded trip \u{2014} scanning all HID sensors"
            );
        }
        n => panic!("{n:?}"),
    }
}

#[test]
fn holding_a_fan_is_refused_for_a_reason() {
    let facts = unknown(false);
    assert_eq!(
        refused(prepare_set(&task(f64::NAN), &facts)),
        "rpm must be a finite number (got NaN)"
    );
    assert_eq!(
        refused(prepare_set(&task(f64::NEG_INFINITY), &facts)),
        "rpm must be a finite number (got -inf)"
    );
    assert!(matches!(prepare_set(&task(1.0), &facts), Need::Root));
    assert_eq!(prepare_set(&task(1.0), &facts).exit_code(), Some(2));
    assert_eq!(
        shown(set_root_line(&task(2500.5))),
        "msf set requires root (writes SMC keys). Re-run with: sudo msf set 1 2500.5"
    );
    let mut facts = unknown(true);
    facts.probe = Some(machine(&[true]));
    assert_eq!(
        refused(prepare_set(&task(1.0), &facts)),
        "fan 1 out of range (probe reports fan_count=1)"
    );
    facts.probe = Some(machine(&[true, false]));
    assert_eq!(
        refused(prepare_set(&task(1.0), &facts)),
        "fan 1 not controllable: Md/Tg/casing missing in probe"
    );
    facts.probe = Some(machine(&[true, true]));
    facts.readings = Some(vec![reading(0)]);
    assert_eq!(refused(prepare_set(&task(1.0), &facts)), "fan 1 not found in read_fans");
}

#[test]
fn following_a_curve_is_prepared_step_by_step() {
    let sel = FanSelection::All;
    let mut facts = unknown(false);
    assert!(matches!(prepare_run(&sel, &facts), Need::Probe));
    facts.probe = Some(machine(&[true, false, true]));
    assert!(matches!(prepare_run(&sel, &facts), Need::Readings));
    facts.readings = Some(vec![reading(0), reading(1), reading(2)]);
    match prepare_run(&sel, &facts) {
        Need::Smoke { live } => {
            assert_eq!(live.iter().map(|f| f.index).collect::<Vec<u8>>(), vec![0, 2]);
            assert_eq!(
                shown(smoke_line(5, &live[1])),
                "smoke OK: curve has 5 points, fan 2 controllable (Mn=1202/Mx=6000). \
                 Re-run with sudo to activate."
            );
        }
        n => panic!("{n:?}"),
    }
    facts.root = true;
    assert!(matches!(prepare_run(&sel, &facts), Need::Calibration { notice: None }));
    facts.calibration = Some(None);
    match prepare_run(&sel, &facts) {
        Need::Ready(start) => {
            assert_eq!(start.fans.iter().map(|f| f.index).collect::<Vec<u8>>(), vec![0, 2]);
            assert_eq!(start.live.iter().map(|f| f.index).collect::<Vec<u8>>(), vec![0, 2]);
            assert_eq!(start.target, None);
        }
        n => panic!("{n:?}"),
    }
}

#[test]
fn following_a_curve_is_refused_for_a_reason() {
    let mut facts = unknown(true);
    facts.probe = Some(machine(&[false, false]));
    assert_eq!(refused(prepare_run(&FanSelection::All, &facts)), "no fan is controllable");
    assert_eq!(
        refused(prepare_run(&FanSelection::Only(vec![7]), &facts)),
        "fan 7 out of range (probe reports fan_count=2)"
    );
    facts.probe = Some(machine(&[true, true]));
    facts.readings = Some(vec![reading(0)]);
    assert_eq!(
        refused(prepare_run(&FanSelection::Only(vec![0, 1]), &facts)),
        "fan 1 not found in read_fans"
    );
}

#[test]
fn plans_name_the_keys() {
    let p = machine(&[true, false]);
    let plan = plan_fan(&p, 0).unwrap();
    assert_eq!(plan.index, 0);
    assert_eq!(plan.md.data_size, 1);
    assert!(matches!(plan_fan(&p, 1), Err(CliError::NotControllable { fan: 1 })));
    assert!(matches!(
        plan_fan(&p, 2),
        Err(CliError::FanOutOfRange { fan: 2, fan_count: 2 })
    ));
    assert_eq!(plan_selection(&p, &FanSelection::All).unwrap().len(), 1);
    assert!(plan_selection(&p, &FanSelection::Only(vec![0, 1])).is_err());
    assert_eq!(find_reading(&vec![reading(3), reading(4)], 4).unwrap().index, 4);
    assert!(find_reading(&vec![reading(3)], 4).is_none());
}

#[test]
fn sensors_count_only_on_their_own_machine() {
    let names = vec!["a".to_string(), "b".to_string()];
    let (allow, notice) =
        choose_sensors(&Some(SensorList { matches_host: true, sensors: names.clone() }));
    assert_eq!(allow, Some(names.clone()));
    assert!(notice.is_none());
    let (allow, notice) =
        choose_sensors(&Some(SensorList { matches_host: false, sensors: names }));
    assert_eq!(allow, None);
    assert!(matches!(notice, Some(Notice::HostMismatch)));
    let (allow, notice) = choose_sensors(&None);
    assert_eq!(allow, None);
    assert!(matches!(notice, Some(Notice::NoCalibration)));
}

#[test]
fn a_profile_is_made_for_the_first_fan() {
    assert!(matches!(init_primary(2, &vec![]), Err(CliError::NoFans)));
    assert_eq!(CliError::NoFans.message(), "read_fans returned 0 fans");
    let (primary, notice) = init_primary(2, &vec![reading(0), reading(1)]).unwrap();
    assert_eq!(primary.index, 0);
    assert!(notice.is_none());
    let (_, notice) = init_primary(3, &vec![reading(0), reading(1)]).unwrap();
    assert_eq!(
        shown(notice.unwrap().describe()),
        "warning: probe fan_count=3 disagrees with read_fans count=2"
    );
    assert!(init_probe_notice(&machine(&[true])).is_none());
    assert_eq!(
        shown(init_probe_notice(&machine(&[])).unwrap().describe()),
        "warning: host probed as not-controllable: fan_count == 0"
    );
    assert_eq!(
        profile_lines("/tmp/p.toml", "balanced"),
        vec![
            "wrote /tmp/p.toml (balanced policy)",
            "next:  sudo msf run --curve /tmp/p.toml --fan 0 --duration-secs 600",
        ]
    );
}

#[test]
fn the_monitor_filters_where_it_is_asked_to() {
    let names = Some(vec!["a".to_string()]);
    assert_eq!(monitor_filter(false, names.clone()).unwrap(), None);
    assert_eq!(monitor_filter(false, None).unwrap(), None);
    assert_eq!(monitor_filter(true, names.clone()).unwrap(), names);
    assert_eq!(
        monitor_filter(true, None).unwrap_err().message(),
        "no calibration found; run `msf calibrate add <sensor>` first"
    );
    assert_eq!(
        CliError::LaunchFailed.message(),
        "both `launchctl bootstrap` and `launchctl load` failed"
    );
}

#[test]
fn selections_are_named_in_words() {
    assert!(matches!(parse_fan_selection("all"), Some(FanSelection::All)));
    for (text, list) in [("0", vec![0u8]), ("0,1", vec![0, 1]), ("255,3,+7", vec![255, 3, 7])] {
        match parse_fan_selection(text) {
            Some(FanSelection::Only(v)) => assert_eq!(v, list),
            s => panic!("{s:?}"),
        }
    }
    for text in ["", "256", "-1", "0,", ",0", "0, 1", "a", "All", "0,all", "+", "0x1"] {
        assert!(parse_fan_selection(text).is_none(), "{text}");
    }
}

#[test]
fn selections_survive_both_ways() {
    for sel in [
        FanSelection::All,
        FanSelection::Only(vec![0]),
        FanSelection::Only(vec![0, 1, 10, 255]),
    ] {
        let text = sel.text();
        let again = parse_fan_selection(&text).unwrap();
        assert_eq!(again.text(), text);
        match (&sel, &again) {
            (FanSelection::All, FanSelection::All) => {}
            (FanSelection::Only(a), FanSelection::Only(b)) => assert_eq!(a, b),
            _ => panic!("{text}"),
        }
    }
    assert_eq!(FanSelection::Only(vec![0, 1]).text(), "0,1");
}

fn profiled(given: bool, outcomes: &[Outcome]) -> InitStep {
    outcomes.iter().fold(InitStep::first(given), |s, o| s.after(*o))
}

#[test]
fn a_profile_is_made_step_by_step() {
    assert_eq!(profiled(false, &[]), InitStep::FindPath);
    assert_eq!(profiled(true, &[]), InitStep::CheckOverwrite);
    let order = [
        InitStep::CheckOverwrite,
        InitStep::DetectHost,
        InitStep::Probe,
        InitStep::ReadFans,
        InitStep::CountFans,
        InitStep::MakeDirectory,
        InitStep::WriteProfile,
        InitStep::Written,
    ];
    for (n, step) in order.iter().enumerate() {
        assert_eq!(profiled(true, &vec![Done; n]), *step);
        assert_eq!(profiled(false, &vec![Done; n + 1]), *step);
    }
}

#[test]
fn no_profile_is_written_after_a_refusal() {
    assert_eq!(profiled(true, &[Failed]), InitStep::Aborted);
    assert_eq!(profiled(true, &[Done, Done, Done, Done, No]), InitStep::NoFans);
    for bad in [No, Failed] {
        for at in 0..8 {
            let mut outcomes = vec![Done; 12];
            outcomes[at] = bad;
            let end = profiled(false, &outcomes);
            assert!(matches!(end, InitStep::NoFans | InitStep::Aborted));
        }
    }
}
