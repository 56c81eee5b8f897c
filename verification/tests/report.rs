//! What is shown: events, the probe, the monitor, the list of sensors.
use msf::binary64::Binary64;
use msf::calibration::{CalibrateAction, Change, ListedSensor, SensorTable};
use msf::fans::FanReading;
use msf::probe::{FanProbe, ModeKeyCasing, Probe};
use msf::report::{
    describe_key, monitor_header, monitor_interval, monitor_round, monitor_row, ExitReason,
    FtstField, Piece, ProbeSummary, SetEvent,
};
use msf::sensors::{
    collect_readings, find_trip, hottest, in_scope, now_ms, passing, read_all, scope_of, HidError,
    HidService, Reading, SensorReading, SensorSource, UNNAMED_SENSOR,
};
use msf::smc::KeyInfo;
use msf::text::truncate;

fn number(v: f64) -> Binary64 {
    Binary64::from_bits(v.to_bits())
}

fn back(v: Binary64) -> f64 {
    f64::from_bits(v.to_bits())
}

fn shown(line: Vec<Piece>) -> String {
    line.iter()
        .map(|p| match p {
            Piece::Text(s) => s.clone(),
            Piece::Number { value, decimals, width } => {
                let v = back(*value);
                match decimals {
                    Some(d) => format!("{v:>w$.d$}", w = *width as usize, d = *d as usize),
                    None => format!("{v:>w$}", w = *width as usize),
                }
            }
        })
        .collect()
}

fn key(t: &str, sz: u32, attrs: u8) -> KeyInfo {
    KeyInfo { data_type: t.to_string(), data_size: sz, data_attributes: attrs }
}

fn sensor(name: &str, celsius: f64) -> SensorReading {
    SensorReading { name: name.to_string(), celsius: number(celsius) }
}

fn names(list: &[&str]) -> Option<Vec<String>> {
    Some(list.iter().map(|s| s.to_string()).collect())
}

#[test]
fn events_are_shown_as_lines() {
    let line = |e: SetEvent| shown(e.describe());
    assert_eq!(
        line(SetEvent::Armed { fan: 0, mode_key_type: "ui8 ".to_string() }),
        "armed: fan=0 mode_key_type=ui8 "
    );
    assert_eq!(
        line(SetEvent::TargetWritten { fan: 12, target_rpm: number(2500.5) }),
        "target_written: fan=12 target_rpm=2500.5"
    );
    assert_eq!(
        line(SetEvent::Tick { t: 1700, max_temp_c: number(55.5), target_rpm: number(1999.6) }),
        "tick: t=1700 max_temp_c=55.50 target_rpm=2000"
    );
    assert_eq!(
        line(SetEvent::Trip { sensor: "PMU".to_string(), celsius: number(91.25) }),
        "TRIP: PMU=91.2\u{b0}C"
    );
    assert_eq!(line(SetEvent::RestoreStarted), "restore_started");
    assert_eq!(line(SetEvent::RestoreDone), "restore_done");
    assert_eq!(line(SetEvent::RestoreFailed), "RESTORE-FAILED");
    assert_eq!(
        line(SetEvent::Exit { code: 4, reason: ExitReason::SensorTrip }),
        "exit: code=4 reason=\"sensor_trip\""
    );
    assert_eq!(
        line(SetEvent::Exit { code: -2147483648, reason: ExitReason::Ttl }),
        "exit: code=-2147483648 reason=\"ttl\""
    );
}

#[test]
fn a_probe_is_summed_up() {
    let probe = Probe {
        fan_count: 2,
        ftst: Some(key("ui8 ", 1, 0x0a)),
        fans: vec![
            FanProbe {
                index: 0,
                mode_key_casing: Some(ModeKeyCasing::Upper),
                md: Some(key("ui8 ", 1, 0xd4)),
                tg: Some(key("flt ", 4, 0)),
                mn: None,
                mx: None,
            },
            FanProbe {
                index: 1,
                mode_key_casing: None,
                md: None,
                tg: None,
                mn: None,
                mx: None,
            },
        ],
    };
    let s = ProbeSummary::of("Mac14,5".to_string(), "23A344".to_string(), probe);
    assert!(!s.controllable);
    assert_eq!(
        s.describe(),
        vec![
            "model:       Mac14,5",
            "build:       23A344",
            "fan_count:   2",
            "ftst:        present (type=\"ui8 \", size=1, attrs=0x0a)",
            "",
            "fan #0:",
            "  mode key casing: F{N}Md (uppercase)",
            "  Md: type=\"ui8 \" size=1 attrs=0xd4",
            "  Tg: type=\"flt \" size=4 attrs=0x00",
            "  Mn: ABSENT",
            "  Mx: ABSENT",
            "",
            "fan #1:",
            "  mode key casing: NONE",
            "  Md: ABSENT",
            "  Tg: ABSENT",
            "  Mn: ABSENT",
            "  Mx: ABSENT",
            "",
            "controllable: false (F1Md and F1md both missing)",
        ]
    );
}

#[test]
fn a_controllable_machine_needs_no_reason() {
    let probe = Probe {
        fan_count: 1,
        ftst: None,
        fans: vec![FanProbe {
            index: 0,
            mode_key_casing: Some(ModeKeyCasing::Lower),
            md: Some(key("ui8 ", 1, 0)),
            tg: Some(key("flt ", 4, 0)),
            mn: None,
            mx: None,
        }],
    };
    let lines = ProbeSummary::of("m".to_string(), "b".to_string(), probe).describe();
    assert_eq!(lines[3], "ftst:        ABSENT");
    assert_eq!(lines[6], "  mode key casing: F{N}md (lowercase)");
    assert_eq!(lines.last().unwrap(), "controllable: true");
}

#[test]
fn the_unlock_key_is_kept_whole() {
    let f = FtstField::from(Some(key("ui8 ", 1, 7)));
    assert!(f.present);
    assert_eq!(f.data_type.as_deref(), Some("ui8 "));
    assert_eq!(f.data_size, Some(1));
    assert_eq!(f.data_attributes, Some(7));
    let f = FtstField::from(None);
    assert!(!f.present);
    assert_eq!(f.data_type, None);
}

#[test]
fn a_key_type_is_quoted() {
    assert_eq!(
        describe_key("Md", &Some(key("a\"\n", 3, 255))),
        "  Md: type=\"a\\\"\\n\" size=3 attrs=0xff"
    );
    assert_eq!(describe_key("Md", &None), "  Md: ABSENT");
}

#[test]
fn the_monitor_lays_out_its_rows() {
    assert_eq!(
        monitor_header(),
        format!("{:<44} {:>4} {:>10} {:>5}", "name", "src", "value", "unit")
    );
    for name in ["PMU tdie1", "", "\u{e9}\u{1f300}", "x".repeat(44).as_str(), "y".repeat(60).as_str()]
    {
        let r = Reading {
            name: name.to_string(),
            source: SensorSource::Hid,
            value: number(41.125),
            unit: "C".to_string(),
            timestamp_ms: 0,
        };
        let cut: String = name.chars().take(44).collect();
        assert_eq!(
            shown(monitor_row(&r)),
            format!("{:<44} {:>4} {:>10.2} {:>5}", cut, "HID", 41.125, "C")
        );
    }
    let r = Reading {
        name: "F0Ac".to_string(),
        source: SensorSource::Smc,
        value: number(1300.0),
        unit: "revolutions".to_string(),
        timestamp_ms: 0,
    };
    assert_eq!(
        shown(monitor_row(&r)),
        format!("{:<44} {:>4} {:>10.2} {:>5}", "F0Ac", "SMC", 1300.0, "revolutions")
    );
}

#[test]
fn names_are_cut_at_characters() {
    assert_eq!(truncate("hello", 3), "hel");
    assert_eq!(truncate("hello", 5), "hello");
    assert_eq!(truncate("hello", 9), "hello");
    assert_eq!(truncate("\u{e9}\u{4e2d}x", 2), "\u{e9}\u{4e2d}");
    assert_eq!(truncate("", 0), "");
    assert_eq!(truncate("a", 0), "");
}

#[test]
fn the_monitor_rests_and_counts() {
    for v in [1.0, 0.05, 0.04, 0.0, -3.0, f64::NAN, f64::INFINITY] {
        assert_eq!(back(monitor_interval(number(v))), v.max(0.05));
    }
    assert_eq!(monitor_round(0, 0), (1, true));
    assert_eq!(monitor_round(0, 1), (1, false));
    assert_eq!(monitor_round(1, 3), (2, true));
    assert_eq!(monitor_round(2, 3), (3, false));
}

#[test]
fn readings_are_collected_in_order() {
    let fans = vec![FanReading {
        index: 10,
        actual_rpm: number(1.0),
        min_rpm: number(2.0),
        max_rpm: number(3.0),
    }];
    let all = collect_readings(&vec![sensor("a", 40.0), sensor("b", 50.0)], &fans, 99);
    let got: Vec<(String, SensorSource, f64, String, u64)> = all
        .iter()
        .map(|r| (r.name.clone(), r.source, back(r.value), r.unit.clone(), r.timestamp_ms))
        .collect();
    let want = |n: &str, s: SensorSource, v: f64, u: &str| (n.to_string(), s, v, u.to_string(), 99);
    assert_eq!(
        got,
        vec![
            want("a", SensorSource::Hid, 40.0, "C"),
            want("b", SensorSource::Hid, 50.0, "C"),
            want("F10Ac", SensorSource::Smc, 1.0, "rpm"),
            want("F10Mn", SensorSource::Smc, 2.0, "rpm"),
            want("F10Mx", SensorSource::Smc, 3.0, "rpm"),
        ]
    );
    assert_eq!(passing(&all, &names(&["F10Mn", "a"])), vec![0, 3]);
    assert_eq!(passing(&all, &None), vec![0, 1, 2, 3, 4]);
    assert!(passing(&all, &names(&[])).is_empty());
}

fn service(usage_page: u32, usage: u32, product: Option<&str>, celsius: Option<f64>) -> HidService {
    HidService {
        usage_page,
        usage,
        product: product.map(|p| p.to_string()),
        celsius: celsius.map(number),
    }
}

#[test]
fn temperature_services_are_read() {
    let services = Some(vec![
        service(0xff00, 5, Some("PMU tdie1"), Some(41.5)),
        service(0xff00, 6, Some("other"), Some(1.0)),
        service(0xff08, 5, Some("other"), Some(1.0)),
        service(0xff00, 5, None, Some(95.0)),
        service(0xff00, 5, Some("silent"), None),
        service(0xff00, 5, Some("SOC"), Some(39.0)),
    ]);
    let temps = read_all(&services).unwrap();
    assert_eq!(temps.len(), 3);
    assert_eq!(temps[0].name, "PMU tdie1");
    assert_eq!(back(temps[0].celsius), 41.5);
    assert_eq!(temps[1].name, UNNAMED_SENSOR);
    assert_eq!(back(temps[1].celsius), 95.0);
    assert_eq!(temps[2].name, "SOC");
    // A sensor without a name of its own can trip, too.
    assert_eq!(find_trip(&temps, &None, false), Some(1));
    assert!(read_all(&Some(vec![])).unwrap().is_empty());
    match read_all(&None) {
        Err(e) => {
            assert_eq!(e, HidError::Unavailable);
            assert_eq!(e.message(), "HID event system unavailable");
        }
        Ok(_) => panic!("read without an event system"),
    }
}

#[test]
fn hot_sensors_are_found() {
    let temps =
        vec![sensor("a", 90.0), sensor("b", 90.01), sensor("c", f64::NAN), sensor("d", 120.0)];
    assert_eq!(find_trip(&temps, &None, false), Some(1));
    assert_eq!(find_trip(&temps, &None, true), Some(3));
    assert_eq!(find_trip(&temps, &names(&["a", "b"]), true), Some(1));
    assert_eq!(find_trip(&temps, &names(&["a", "c"]), false), None);
    assert_eq!(scope_of(&temps, &names(&["d", "b"])), vec![1, 3]);
    assert!(in_scope(&None, "x"));
    assert!(in_scope(&names(&["x"]), "x"));
    assert!(!in_scope(&names(&["x"]), "X"));
}

#[test]
fn the_hottest_value_is_found() {
    let of = |v: &[f64]| back(hottest(&v.iter().map(|x| number(*x)).collect()));
    assert_eq!(of(&[]), f64::NEG_INFINITY);
    assert_eq!(of(&[1.0, 3.0, 2.0]), 3.0);
    assert_eq!(of(&[-5.0, f64::NAN, -7.0]), -5.0);
    assert_eq!(of(&[f64::NAN]), f64::NEG_INFINITY);
    assert_eq!(of(&[1.0, f64::INFINITY]), f64::INFINITY);
}

#[test]
fn the_clock_keeps_64_bits() {
    assert_eq!(now_ms(None), 0);
    assert_eq!(now_ms(Some(1_700_000_000_123)), 1_700_000_000_123);
    assert_eq!(now_ms(Some((1u128 << 64) + 5)), 5);
}

#[test]
fn changes_of_the_list_are_told() {
    assert_eq!(Change::by_adding(true).describe("PMU"), "added: PMU");
    assert_eq!(Change::by_adding(false).describe("PMU"), "already present: PMU");
    assert_eq!(Change::by_removing(true).describe("PMU"), "removed: PMU");
    assert_eq!(Change::by_removing(false).describe("PMU"), "not present: PMU");
    assert!(Change::Added.must_save() && Change::Removed.must_save());
    assert!(!Change::AlreadyPresent.must_save() && !Change::NotPresent.must_save());
}

#[test]
fn the_list_is_saved_only_if_it_changed() {
    let mut list: Vec<String> = vec![];
    for (saves, told) in [(true, Change::Added), (false, Change::AlreadyPresent)] {
        let changed = !list.contains(&"PMU".to_string());
        if changed {
            list.push("PMU".to_string());
        }
        let o = CalibrateAction::Add.outcome(changed);
        assert_eq!(o.save, saves);
        assert_eq!(o.change, Some(told));
    }
    for (saves, told) in [(true, Change::Removed), (false, Change::NotPresent)] {
        let before = list.len();
        list.retain(|n| n != "PMU");
        let o = CalibrateAction::Remove.outcome(list.len() != before);
        assert_eq!(o.save, saves);
        assert_eq!(o.change, Some(told));
    }
    for changed in [false, true] {
        let o = CalibrateAction::List.outcome(changed);
        assert!(!o.save);
        assert_eq!(o.change, None);
    }
}

#[test]
fn the_list_is_shown() {
    let mut table = SensorTable {
        model: "Mac14,5".to_string(),
        build: "23A344".to_string(),
        recorded_at: "2024-01-01".to_string(),
        sensors: vec![],
    };
    assert_eq!(
        table.describe(),
        vec![
            "model:       Mac14,5",
            "build:       23A344",
            "recorded_at: 2024-01-01",
            "sensors (0):",
        ]
    );
    for (name, added_at) in [("PMU", "yesterday"), ("SOC", "today")] {
        table.sensors.push(ListedSensor {
            name: name.to_string(),
            added_at: added_at.to_string(),
        });
    }
    assert_eq!(
        table.describe()[3..],
        ["sensors (2):", "  - PMU (added yesterday)", "  - SOC (added today)"]
    );
    assert_eq!(
        table.mismatch_line("Mac15,1", "24B1"),
        "warning: calibration host mismatch (current: Mac15,1/24B1, recorded: Mac14,5/23A344)"
    );
}
