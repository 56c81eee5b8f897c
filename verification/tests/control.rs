//! The control loop.
use msf::binary64::Binary64;
use msf::control::{all_given_back, Action, Controller, Event, FanLabel, Job};
use msf::report::{ExitReason, SetEvent};
use msf::sensors::SensorReading;

fn number(v: f64) -> Binary64 {
    Binary64::from_bits(v.to_bits())
}

fn back(v: Binary64) -> f64 {
    f64::from_bits(v.to_bits())
}

fn fans(n: u8) -> Vec<FanLabel> {
    (0..n)
        .map(|index| FanLabel {
            index,
            mode_key_type: "ui8 ".to_string(),
            min_rpm: number(1000.0 + 100.0 * index as f64),
            max_rpm: number(6000.0),
        })
        .collect()
}

fn temps(list: &[(&str, f64)]) -> Event {
    Event::Temps {
        temps: list
            .iter()
            .map(|(n, c)| SensorReading { name: n.to_string(), celsius: number(*c) })
            .collect(),
    }
}

fn numbers(list: &[f64]) -> Vec<Binary64> {
    list.iter().map(|v| number(*v)).collect()
}

fn go_on() -> Event {
    Event::Polled { stop: false, expired: false }
}

/// What came of giving fans back.
fn back_all(outcomes: &[Option<bool>], stop: bool) -> Event {
    Event::Restored { outcomes: outcomes.to_vec(), stop }
}

fn modes(list: &[Option<f64>]) -> Event {
    Event::Modes { modes: list.iter().map(|m| m.map(number)).collect() }
}

/// A line for each event, numbers and all.
fn told(events: Vec<SetEvent>) -> Vec<String> {
    events
        .iter()
        .map(|e| match e {
            SetEvent::Armed { fan, mode_key_type } => format!("armed {fan} {mode_key_type}"),
            SetEvent::TargetWritten { fan, target_rpm } => {
                format!("target {fan} {}", back(*target_rpm))
            }
            SetEvent::Tick { t, max_temp_c, target_rpm } => {
                format!("tick {t} {} {}", back(*max_temp_c), back(*target_rpm))
            }
            SetEvent::Trip { sensor, celsius } => format!("trip {sensor} {}", back(*celsius)),
            SetEvent::RestoreStarted => "restoring".to_string(),
            SetEvent::RestoreDone => "restored".to_string(),
            SetEvent::RestoreFailed => "not restored".to_string(),
            SetEvent::Exit { code, reason } => format!("exit {code} {}", reason.text()),
        })
        .collect()
}

fn following(n: u8, allow: Option<Vec<String>>) -> Controller {
    let mut c = Controller::new(fans(n), Job::Follow, allow);
    for i in 0..n {
        assert!(matches!(c.action(), Action::Arm { fan } if fan == i as usize));
        assert_eq!(told(c.step(&Event::Armed { ok: true })), vec![format!("armed {i} ui8 ")]);
    }
    assert!(matches!(c.action(), Action::Poll));
    c
}

#[test]
fn a_speed_is_held_until_the_time_is_up() {
    let mut c = Controller::new(fans(1), Job::Hold { target: number(2500.0) }, None);
    assert!(matches!(c.action(), Action::Arm { fan: 0 }));
    assert_eq!(told(c.step(&Event::Armed { ok: true })), vec!["armed 0 ui8 "]);
    match c.action() {
        Action::WriteTargets { targets } => assert_eq!(targets, numbers(&[2500.0])),
        a => panic!("{a:?}"),
    }
    assert_eq!(told(c.step(&Event::Written { ok: true, now_ms: 7 })), vec!["target 0 2500"]);
    for _ in 0..3 {
        assert!(matches!(c.action(), Action::Poll));
        assert!(c.step(&go_on()).is_empty());
        assert!(matches!(c.action(), Action::ReadTemps));
        assert!(c.step(&temps(&[("a", 89.9), ("b", f64::NAN)])).is_empty());
        assert!(matches!(c.action(), Action::Sleep { ms: 1000 }));
        assert!(c.step(&Event::Slept).is_empty());
    }
    assert_eq!(told(c.step(&Event::Polled { stop: false, expired: true })), vec!["restoring"]);
    assert!(matches!(c.action(), Action::Restore));
    assert_eq!(
        told(c.step(&back_all(&[Some(true)], false))),
        vec!["restored", "exit 0 ttl"]
    );
    assert!(matches!(c.action(), Action::Exit { code: 0 }));
}

#[test]
fn the_first_hot_sensor_ends_a_held_speed() {
    let mut c = Controller::new(fans(1), Job::Hold { target: number(2500.0) }, None);
    c.step(&Event::Armed { ok: true });
    c.step(&Event::Written { ok: true, now_ms: 0 });
    c.step(&go_on());
    let e = c.step(&temps(&[("a", 90.0), ("b", 90.5), ("c", 95.0)]));
    assert_eq!(told(e), vec!["trip b 90.5", "restoring"]);
    assert_eq!(
        told(c.step(&back_all(&[Some(true)], true))),
        vec!["restored", "exit 4 sensor_trip"]
    );
    assert!(matches!(c.action(), Action::Exit { code: 4 }));
}

#[test]
fn only_listed_sensors_count() {
    let allow = Some(vec!["a".to_string(), "c".to_string()]);
    let mut c = following(1, allow);
    c.step(&go_on());
    assert!(c.step(&temps(&[("a", 20.0), ("b", 95.0), ("c", 30.0)])).is_empty());
    match c.action() {
        Action::Smooth { positions } => assert_eq!(positions, vec![0, 2]),
        a => panic!("{a:?}"),
    }
}

#[test]
fn the_last_hot_sensor_is_named_where_fans_follow() {
    let mut c = following(1, None);
    c.step(&go_on());
    let e = c.step(&temps(&[("a", 91.0), ("b", 90.5), ("c", 90.0)]));
    assert_eq!(told(e), vec!["trip b 90.5", "restoring"]);
}

#[test]
fn exactly_ninety_degrees_do_not_trip() {
    let mut c = following(1, None);
    c.step(&go_on());
    assert!(c.step(&temps(&[("a", 90.0), ("b", 20.0)])).is_empty());
    assert!(matches!(c.action(), Action::Smooth { .. }));
    c.step(&Event::Smoothed { values: numbers(&[90.0, 20.0]) });
    c.step(&modes(&[Some(1.0)]));
    c.step(&Event::Evaluated { rpm: number(5000.0) });
    let e = c.step(&Event::Written { ok: true, now_ms: 1 });
    assert_eq!(told(e), vec!["target 0 5000", "tick 1 90 5000"]);

    let mut c = Controller::new(fans(1), Job::Hold { target: number(2500.0) }, None);
    c.step(&Event::Armed { ok: true });
    c.step(&Event::Written { ok: true, now_ms: 0 });
    c.step(&go_on());
    assert!(c.step(&temps(&[("a", 90.0)])).is_empty());
    assert!(matches!(c.action(), Action::Sleep { ms: 1000 }));
    c.step(&Event::Slept);
    c.step(&go_on());
    let above = f64::from_bits(90.0f64.to_bits() + 1);
    assert_eq!(c.step(&temps(&[("a", above)])).len(), 2);
    assert!(matches!(c.action(), Action::Restore));
}

#[test]
fn fans_follow_the_hottest_sensor() {
    let mut c = following(2, None);
    for round in 0..2 {
        c.step(&go_on());
        c.step(&temps(&[("a", 50.0), ("b", 60.0), ("c", 40.0)]));
        match c.action() {
            Action::Smooth { positions } => assert_eq!(positions, vec![0, 1, 2]),
            a => panic!("{a:?}"),
        }
        c.step(&Event::Smoothed { values: numbers(&[50.0, 58.5, 40.0]) });
        assert!(matches!(c.action(), Action::CheckModes));
        c.step(&modes(&[Some(1.0), Some(1.0)]));
        match c.action() {
            Action::Evaluate { heat } => assert_eq!(back(heat), 58.5),
            a => panic!("{a:?}"),
        }
        c.step(&Event::Evaluated { rpm: number(1050.0) });
        match c.action() {
            Action::WriteTargets { targets } => assert_eq!(targets, numbers(&[1050.0, 1100.0])),
            a => panic!("{a:?}"),
        }
        let e = told(c.step(&Event::Written { ok: true, now_ms: 12345 }));
        let ticks = vec!["tick 12345 58.5 1050", "tick 12345 58.5 1100"];
        if round == 0 {
            assert_eq!(e[..2], ["target 0 1050", "target 1 1100"]);
            assert_eq!(e[2..], ticks[..]);
        } else {
            assert_eq!(e, ticks);
        }
        assert!(matches!(c.action(), Action::Sleep { ms: 1000 }));
        c.step(&Event::Slept);
    }
    c.step(&Event::Polled { stop: true, expired: false });
    assert_eq!(
        told(c.step(&back_all(&[Some(true), Some(true)], true))),
        vec!["restored", "exit 0 sigint"]
    );
}

#[test]
fn followed_speeds_stay_in_range() {
    for (rpm, want) in [
        (0.0, [1000.0, 1100.0]),
        (-1e300, [1000.0, 1100.0]),
        (1100.0, [1100.0, 1100.0]),
        (3000.5, [3000.5, 3000.5]),
        (f64::INFINITY, [6000.0, 6000.0]),
    ] {
        let mut c = following(2, None);
        c.step(&go_on());
        c.step(&temps(&[("a", 50.0)]));
        c.step(&Event::Smoothed { values: numbers(&[50.0]) });
        c.step(&modes(&[Some(1.0), Some(1.0)]));
        c.step(&Event::Evaluated { rpm: number(rpm) });
        match c.action() {
            Action::WriteTargets { targets } => assert_eq!(targets, numbers(&want)),
            a => panic!("{a:?}"),
        }
    }
}

#[test]
fn every_fan_must_be_given_back() {
    for outcomes in [
        vec![Some(true), Some(false)],
        vec![None, Some(true)],
        vec![Some(true)],
        vec![],
    ] {
        let mut c = following(2, None);
        c.step(&Event::Polled { stop: false, expired: true });
        assert_eq!(
            told(c.step(&back_all(&outcomes, false))),
            vec!["not restored", "exit 3 restore_failed"]
        );
    }
    assert!(all_given_back(&vec![Some(true), Some(true)]));
    assert!(all_given_back(&vec![]));
    assert!(!all_given_back(&vec![Some(true), None]));
    assert!(!all_given_back(&vec![Some(false)]));
}

#[test]
fn without_a_temperature_nothing_is_written() {
    let mut c = following(1, None);
    c.step(&go_on());
    c.step(&temps(&[]));
    c.step(&Event::Smoothed { values: vec![] });
    c.step(&modes(&[Some(1.0)]));
    assert!(matches!(c.action(), Action::Sleep { ms: 1000 }));
}

fn lossy_round(c: &mut Controller, regained: bool) -> Vec<String> {
    c.step(&go_on());
    c.step(&temps(&[("a", 50.0)]));
    c.step(&Event::Smoothed { values: numbers(&[50.0]) });
    c.step(&modes(&[Some(1.0), Some(0.0)]));
    match c.action() {
        Action::ReArm { fans } => assert_eq!(fans, vec![1]),
        a => panic!("{a:?}"),
    }
    told(c.step(&Event::ReArmed { regained: vec![regained] }))
}

#[test]
fn a_lost_fan_is_had_again() {
    let mut c = following(2, None);
    for _ in 0..5 {
        assert!(lossy_round(&mut c, true).is_empty());
        assert!(matches!(c.action(), Action::Evaluate { .. }));
        assert_eq!(c.failures, 0);
        c.step(&Event::Evaluated { rpm: number(2000.0) });
        c.step(&Event::Written { ok: true, now_ms: 0 });
        c.step(&Event::Slept);
    }
}

#[test]
fn the_third_failure_in_a_row_ends_the_loop() {
    let mut c = following(2, None);
    for failures in 1..3 {
        assert!(lossy_round(&mut c, false).is_empty());
        assert_eq!(c.failures, failures);
        assert!(matches!(c.action(), Action::Sleep { ms: 1000 }));
        c.step(&Event::Slept);
    }
    assert_eq!(lossy_round(&mut c, false), vec!["restoring"]);
    assert_eq!(
        told(c.step(&back_all(&[Some(true), Some(true)], false))),
        vec!["restored", "exit 4 mode_lost"]
    );
}

#[test]
fn a_good_round_starts_the_count_anew() {
    let mut c = following(2, None);
    for _ in 0..2 {
        lossy_round(&mut c, false);
        c.step(&Event::Slept);
    }
    lossy_round(&mut c, true);
    c.step(&Event::Evaluated { rpm: number(2000.0) });
    c.step(&Event::Written { ok: true, now_ms: 0 });
    c.step(&Event::Slept);
    for _ in 0..2 {
        assert!(lossy_round(&mut c, false).is_empty());
        c.step(&Event::Slept);
    }
    assert_eq!(lossy_round(&mut c, false), vec!["restoring"]);
}

#[test]
fn a_mode_that_cannot_be_read_counts_as_lost() {
    let mut c = following(3, None);
    c.step(&go_on());
    c.step(&temps(&[]));
    c.step(&Event::Smoothed { values: vec![] });
    c.step(&modes(&[None, Some(0.5)]));
    match c.action() {
        Action::ReArm { fans } => assert_eq!(fans, vec![0, 2]),
        a => panic!("{a:?}"),
    }
}

#[test]
fn a_fan_that_is_not_given_back_is_told() {
    let mut c = following(1, None);
    c.step(&Event::Polled { stop: true, expired: true });
    assert_eq!(
        told(c.step(&back_all(&[Some(false)], true))),
        vec!["not restored", "exit 3 restore_failed"]
    );
    assert!(matches!(c.action(), Action::Exit { code: 3 }));
    // It stays over.
    assert!(c.step(&back_all(&[Some(true)], true)).is_empty());
    assert!(matches!(c.action(), Action::Exit { code: 3 }));
}

#[test]
fn a_failure_gives_back_what_was_taken_and_says_nothing() {
    let mut c = Controller::new(fans(2), Job::Follow, None);
    assert!(c.step(&Event::Armed { ok: false }).is_empty());
    assert!(matches!(c.action(), Action::Fail));

    let mut c = Controller::new(fans(2), Job::Follow, None);
    c.step(&Event::Armed { ok: true });
    assert!(c.step(&Event::Armed { ok: false }).is_empty());
    assert!(matches!(c.action(), Action::Restore));
    assert!(c.step(&back_all(&[Some(true)], false)).is_empty());
    assert!(matches!(c.action(), Action::Fail));

    let mut c = Controller::new(fans(1), Job::Hold { target: number(1.0) }, None);
    c.step(&Event::Armed { ok: true });
    assert!(c.step(&Event::Written { ok: false, now_ms: 0 }).is_empty());
    assert!(matches!(c.action(), Action::Restore));
}

#[test]
fn what_was_not_asked_for_changes_nothing() {
    let mut c = following(1, None);
    assert!(c.step(&Event::Slept).is_empty());
    assert!(c.step(&back_all(&[Some(true)], true)).is_empty());
    assert!(matches!(c.action(), Action::Poll));
}

#[test]
fn exit_reasons_have_codes() {
    for (reason, code, text) in [
        (ExitReason::RestoreFailed, 3, "restore_failed"),
        (ExitReason::SensorTrip, 4, "sensor_trip"),
        (ExitReason::ModeLost, 4, "mode_lost"),
        (ExitReason::Sigint, 0, "sigint"),
        (ExitReason::Ttl, 0, "ttl"),
    ] {
        assert_eq!(reason.code(), code);
        assert_eq!(reason.text(), text);
    }
}
