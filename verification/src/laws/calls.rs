//! What calls give, whatever they are called with, and how two calls go together.
use crate::binary64::Binary64;
use crate::codec::{decode_numeric, encode_one, encode_target, encode_zero};
use crate::control::{all_given_back, Action, Controller, FanLabel, Job};
use crate::daemon::{
    parse_curve_path_from_plist, render_plist, resolve_binary, uninstalled_line, InstallStep,
    PlistConfig, PlistError, StatusReport, UninstallStep,
};
use crate::fans::{clamp_rpm, FanReading};
use crate::laws::machine::{held_with, known, of_fan, spelled, Held};
use crate::laws::numbers::{mode_typed, typed};
use crate::laws::starting::{can_control, first_reading, plans_for, sensors_chosen};
use crate::laws::steering::{highest, moved_into, on_list, too_hot};
use crate::laws::views::same_key;
use crate::prepare::{
    init_primary, monitor_filter, prepare_set, CliError, Facts, InitStep, Need, Notice, SetTask,
};
use crate::probe::{compose_mode_key, compose_target_key, probe, ModeKeyCasing, Probe};
use crate::report::{monitor_header, monitor_interval, monitor_round, ProbeSummary};
use crate::selection::{parse_fan_selection, FanSelection};
use crate::sensors::{
    collect_readings, find_trip, hottest, in_scope, now_ms, passing, Reading, SensorReading,
    SensorSource,
};
use crate::session::ManualFanSession;
use crate::smc::{Reply, SmcKeyDataKeyInfo, Step};
use crate::text::truncate;
use vstd::arithmetic::power2::*;
use vstd::prelude::*;

verus! {

/// The time is counted in milliseconds, of which the lower 64 bits are kept; a clock
/// before the epoch gives none.
pub proof fn times_are_kept_to_64_bits(since_epoch_ms: Option<u128>, r: u64)
    requires
        call_ensures(now_ms, (since_epoch_ms,), r),
    ensures
        since_epoch_ms is None ==> r == 0,
        since_epoch_ms matches Some(ms) ==> (ms - r) % 0x1_0000_0000_0000_0000 == 0,
{
}

/// A speed that is to be held is prepared as asked: for a fan that can be controlled,
/// with its own keys and its own reading, at the speed that was asked for or at the
/// bound of the fan's range that it is beyond, and just at the one asked for without
/// clamping.
pub proof fn a_prepared_speed_is_the_one_asked_for(task: SetTask, facts: Facts, r: Need)
    requires
        call_ensures(prepare_set, (&task, &facts), r),
    ensures
        r matches Need::Ready(start) ==> {
            &&& facts.root && task.rpm.finite()
            &&& facts.probe is Some && facts.readings is Some && facts.calibration is Some
            &&& start.fans@.len() == 1 && start.live@.len() == 1
            &&& can_control(facts.probe->0@, task.fan as int)
            &&& plans_for(facts.probe->0@, task.fan as int, start.fans@[0]@)
            &&& first_reading(facts.readings->0@, task.fan, start.live@[0])
            &&& sensors_chosen(
                facts.calibration->0,
                crate::sensors::names_view(start.allow),
                crate::prepare::maybe_notice(start.notice),
            )
            &&& start.target is Some
            &&& task.no_clamp ==> start.target->0 == task.rpm
            &&& !task.no_clamp ==> moved_into(
                start.target->0,
                task.rpm,
                start.live@[0].min_rpm,
                start.live@[0].max_rpm,
            )
        },
{
    crate::laws::starting::a_speed_is_held_as_asked(task, facts);
    if let Need::Ready(start) = r {
        assert(r@ == crate::prepare::NeedView::Ready(start@));
        assert(start@.fans[0] == start.fans@[0]@);
    }
}

/// What is collected for the monitor is every temperature, then every fan with its own
/// three speeds, each under its own name.
pub proof fn everything_read_is_collected(
    temps: Vec<SensorReading>,
    fans: Vec<FanReading>,
    ts: u64,
    r: Vec<Reading>,
    i: int,
    f: int,
)
    requires
        call_ensures(collect_readings, (&temps, &fans, ts), r),
    ensures
        r@.len() == temps@.len() + 3 * fans@.len(),
        0 <= i < temps@.len() ==> {
            &&& r@[i].name@ == temps@[i].name@
            &&& r@[i].value == temps@[i].celsius
            &&& r@[i].unit@ == "C"@
            &&& r@[i].source == SensorSource::Hid
            &&& r@[i].timestamp_ms == ts
        },
        0 <= f < fans@.len() ==> {
            let at = temps@.len() + 3 * f;
            let number = crate::text::decimal(fans@[f].index as nat);
            &&& r@[at].name@ == "F"@ + number + "Ac"@ && r@[at].value == fans@[f].actual_rpm
            &&& r@[at + 1].name@ == "F"@ + number + "Mn"@ && r@[at + 1].value == fans@[f].min_rpm
            &&& r@[at + 2].name@ == "F"@ + number + "Mx"@ && r@[at + 2].value == fans@[f].max_rpm
            &&& forall|k: int|
                at <= k < at + 3 ==> (#[trigger] r@[k]).unit@ == "rpm"@ && r@[k].source
                    == SensorSource::Smc && r@[k].timestamp_ms == ts
        },
{
    let lines = crate::sensors::monitor_lines(temps@, fans@, ts);
    let shown = crate::sensors::readings_view(r@);
    assert(shown == lines);
    assert(shown.len() == r@.len());
    if 0 <= i < temps@.len() {
        crate::laws::showing::the_monitor_shows_each_temperature(temps@, fans@, ts, i);
        assert(shown[i] == r@[i]@);
    }
    if 0 <= f < fans@.len() {
        crate::laws::showing::the_monitor_shows_each_fan(temps@, fans@, ts, f);
        let at = temps@.len() + 3 * f;
        assert(shown[at] == r@[at]@);
        assert(shown[at + 1] == r@[at + 1]@);
        assert(shown[at + 2] == r@[at + 2]@);
        assert forall|k: int| at <= k < at + 3 implies (#[trigger] r@[k]).unit@ == "rpm"@
            && r@[k].source == SensorSource::Smc && r@[k].timestamp_ms == ts by {
            assert(shown[k] == r@[k]@);
            assert(lines[k].unit == "rpm"@);
        }
    }
}

/// A selection that is written and read again is the same selection.
pub proof fn selections_are_read_as_they_are_written(
    sel: FanSelection,
    text: String,
    again: &str,
    r: Option<FanSelection>,
)
    requires
        sel matches FanSelection::Only(list) ==> list@.len() > 0,
        call_ensures(FanSelection::text, (&sel,), text),
        again@ == text@,
        call_ensures(parse_fan_selection, (again,), r),
    ensures
        r is Some,
        sel is All <==> r->0 is All,
        sel matches FanSelection::Only(list) ==> r->0 is Only && r->0->Only_0@ == list@,
{
    crate::selection::selection_text_round_trip(sel@);
    assert(r->0@ == sel@);
}

/// The property list that is made for a daemon is read as one that runs its curve, and
/// the daemon's status shows that curve.
pub proof fn a_made_property_list_names_its_curve(
    cfg: PlistConfig,
    bytes: Vec<u8>,
    r: Result<String, PlistError>,
    loaded: bool,
    status: StatusReport,
)
    requires
        cfg.binary@ != "--curve"@,
        call_ensures(render_plist, (&cfg,), Ok::<Vec<u8>, PlistError>(bytes)),
        call_ensures(parse_curve_path_from_plist, (&bytes,), r),
        call_ensures(StatusReport::of, (true, &Some(bytes), loaded), status),
    ensures
        r is Ok,
        r->Ok_0@ == cfg.curve@,
        status.plist_present && status.loaded == loaded,
        status.curve_path is Some,
        status.curve_path->0@ == cfg.curve@,
{
    crate::daemon::installed_curve_reads_back(cfg);
}

/// The property list that is made for a daemon runs the selected fans: the argument
/// behind its flag `--fan` is read as that selection, and behind the flags before and
/// after it stand the curve and a year of seconds.
pub proof fn a_made_property_list_names_its_fans(
    cfg: PlistConfig,
    bytes: Vec<u8>,
    text: &str,
    r: Option<FanSelection>,
)
    requires
        cfg.fan matches FanSelection::Only(list) ==> list@.len() > 0,
        call_ensures(render_plist, (&cfg,), Ok::<Vec<u8>, PlistError>(bytes)),
        call_ensures(parse_fan_selection, (text,), r),
    ensures
        ({
            let node = crate::daemon::node_under(
                crate::daemon::readable_root(bytes@)->0->0,
                "ProgramArguments"@,
            );
            let args = node->0->List_0;
            &&& crate::daemon::readable_root(bytes@) is Some
            &&& crate::daemon::readable_root(bytes@)->0 is Some
            &&& node is Some && node->0 is List
            &&& args.len() == 8
            &&& args[0] == Some(cfg.binary@)
            &&& args[1] == Some("run"@)
            &&& args[2] == Some("--curve"@) && args[3] == Some(cfg.curve@)
            &&& args[4] == Some("--fan"@)
            &&& args[5] is Some
            &&& args[5] == Some(text@) ==> r is Some && r->0@ == cfg.fan@
            &&& args[6] == Some("--duration-secs"@)
            &&& args[7] is Some && crate::laws::texts::is_numeral(10, args[7]->0, 31_536_000)
        }),
{
    crate::laws::service::the_property_list_says_it_all(cfg);
    crate::laws::service::the_daemon_runs_the_selected_fans(cfg);
    let line = cfg.command_line();
    let args = crate::daemon::node_under(cfg.entries(), "ProgramArguments"@)->0->List_0;
    assert(args[0] == Some(line[0]) && args[1] == Some(line[1]) && args[2] == Some(line[2]));
    assert(args[3] == Some(line[3]) && args[4] == Some(line[4]) && args[5] == Some(line[5]));
    assert(args[6] == Some(line[6]) && args[7] == Some(line[7]));
}

/// A finished probe holds what the machine has: each of a fan's keys as the machine
/// describes it, and none that the machine does not have.
pub proof fn a_finished_probe_holds_what_the_machine_has(
    keys: Map<u32, Held>,
    replies: Vec<Reply>,
    r: Step<Probe>,
    p: Probe,
    i: int,
)
    requires
        call_ensures(probe, (&replies,), r),
        r == Step::Done(Ok(p)),
        held_with(keys, |u: Seq<Reply>| crate::probe::probing(u), replies@),
        0 <= i < p.fan_count,
    ensures
        ({
            let fan = p.fans@[i];
            let upper = known(keys, of_fan(i, 'M', 'd'));
            let lower = known(keys, of_fan(i, 'm', 'd'));
            &&& p.fans@.len() == p.fan_count
            &&& same_key(
                p.ftst,
                known(keys, spelled('F' as int, 't' as int, 's' as int, 't' as int)),
            )
            &&& fan.index == i
            &&& same_key(fan.tg, known(keys, of_fan(i, 'T', 'g')))
            &&& same_key(fan.mn, known(keys, of_fan(i, 'M', 'n')))
            &&& same_key(fan.mx, known(keys, of_fan(i, 'M', 'x')))
            &&& upper is Some ==> same_key(fan.md, upper) && fan.mode_key_casing == Some(
                ModeKeyCasing::Upper,
            )
            &&& upper is None ==> same_key(fan.md, lower)
            &&& upper is None && lower is Some ==> fan.mode_key_casing == Some(
                ModeKeyCasing::Lower,
            )
            &&& upper is None && lower is None ==> fan.mode_key_casing is None
        }),
{
    assert(r@ == crate::smc::StepView::Done(p@));
    crate::laws::machine::a_probe_tells_what_the_machine_has(keys, replies@);
    assert(p@.fans[i] == p.fans@[i]@);
}

/// A mode that is written is read as one or as zero.
pub proof fn written_modes_are_read_back(
    data_type: &str,
    info: SmcKeyDataKeyInfo,
    one: Result<Vec<u8>, crate::error::SmcError>,
    zero: Result<Vec<u8>, crate::error::SmcError>,
    bytes: [u8; 32],
    r: Option<Binary64>,
)
    requires
        mode_typed(data_type@, info.data_size, info),
        call_ensures(encode_one, (data_type, info.data_size), one),
        call_ensures(encode_zero, (data_type, info.data_size), zero),
        call_ensures(decode_numeric, (&info, &bytes), r),
    ensures
        one is Ok && zero is Ok,
        one->Ok_0@.len() == info.data_size && zero->Ok_0@.len() == info.data_size,
        bytes@ == crate::smc::zero_filled(one->Ok_0@) ==> r is Some && !r->0.nan() && r->0.value()
            == pow2(1074),
        bytes@ == crate::smc::zero_filled(zero->Ok_0@) ==> r is Some && !r->0.nan()
            && r->0.value() == 0,
{
    crate::laws::numbers::modes_are_one_and_zero(data_type@, info.data_size, info, true);
    crate::laws::numbers::modes_are_one_and_zero(data_type@, info.data_size, info, false);
}

/// A speed that is written to a `flt ` key is read as a number that no single-precision
/// number is nearer to it than, and as itself if it is one.
pub proof fn written_speeds_are_read_back(
    info: SmcKeyDataKeyInfo,
    data_type: &str,
    rpm: Binary64,
    written: Result<Vec<u8>, crate::error::SmcError>,
    bytes: [u8; 32],
    r: Option<Binary64>,
    other: u32,
)
    requires
        typed(info, 'f', 'l', 't', ' ', 4),
        data_type@ == "flt "@,
        rpm.finite(),
        call_ensures(encode_target, (data_type, 4u32, rpm), written),
        written is Ok ==> bytes@ == crate::smc::zero_filled(written->Ok_0@),
        call_ensures(decode_numeric, (&info, &bytes), r),
        crate::binary64::widened(other).finite(),
    ensures
        written is Ok,
        r is Some,
        r->0.finite() ==> crate::laws::numbers::gap(r->0.value(), rpm.value())
            <= crate::laws::numbers::gap(
            crate::binary64::widened(other).value(),
            rpm.value(),
        ),
        rpm == crate::binary64::widened(other) ==> r->0 == rpm,
{
    assert(spelled('f' as int, 'l' as int, 't' as int, ' ' as int) == crate::codec::TYPE_FLT);
    let v = written->Ok_0@;
    crate::codec::written_speed_reads_back(rpm, v, info, other);
    if r->0.finite() {
        crate::laws::numbers::written_speeds_are_nearest(rpm, v, info, other);
    }
}

/// Clamping moves a speed to the bound of the range that it is beyond, and leaves any
/// other speed alone.
pub proof fn a_clamped_speed_is_at_its_bound(
    rpm: Binary64,
    lo: Binary64,
    hi: Binary64,
    r: Binary64,
)
    requires
        call_ensures(clamp_rpm, (rpm, lo, hi), r),
    ensures
        moved_into(r, rpm, lo, hi),
{
}

/// The hottest of the values is the highest one.
pub proof fn the_hottest_is_the_highest(values: Vec<Binary64>, r: Binary64)
    requires
        call_ensures(hottest, (&values,), r),
    ensures
        highest(r, values@),
{
    crate::laws::steering::lemma_highest(values@);
}

/// Names are in scope if they are on the list, or if there is none; and the readings
/// that pass a filter are those whose names are, in order.
pub proof fn filters_let_listed_names_pass(
    names: Option<Vec<String>>,
    name: &str,
    scoped: bool,
    readings: Vec<Reading>,
    r: Vec<usize>,
    k: usize,
)
    requires
        call_ensures(in_scope, (&names, name), scoped),
        call_ensures(passing, (&readings, &names), r),
        readings@.len() <= usize::MAX,
        k < readings@.len(),
    ensures
        scoped == on_list(crate::sensors::names_view(names), name@),
        r@.contains(k) <==> on_list(
            crate::sensors::names_view(names),
            readings@[k as int].name@,
        ),
        forall|i: int, j: int| 0 <= i < j < r@.len() ==> r@[i] < r@[j],
        forall|i: int| 0 <= i < r@.len() ==> #[trigger] r@[i] < readings@.len(),
{
    crate::laws::showing::filters_let_the_listed_pass(
        crate::sensors::reading_names(readings@),
        crate::sensors::names_view(names),
        k,
    );
}

/// The trip that is found is a sensor that counts and is too hot, with no such sensor
/// before it, or behind it where the last one is asked for; none is found only where
/// no such sensor is.
pub proof fn the_trip_found_is_too_hot(
    temps: Vec<SensorReading>,
    allow: Option<Vec<String>>,
    want_last: bool,
    r: Option<usize>,
    k: int,
)
    requires
        call_ensures(find_trip, (&temps, &allow, want_last), r),
        0 <= k < temps@.len(),
    ensures
        ({
            let names = crate::sensors::names_view(allow);
            &&& r is None ==> !too_hot(names, temps@[k]@)
            &&& r matches Some(i) ==> {
                &&& i < temps@.len()
                &&& too_hot(names, temps@[i as int]@)
                &&& want_last && i < k ==> !too_hot(names, temps@[k]@)
                &&& !want_last && k < i ==> !too_hot(names, temps@[k]@)
            }
        }),
{
    let names = crate::sensors::names_view(allow);
    let all = crate::sensors::temps_view(temps@);
    crate::sensors::trips_are_found(names, all);
    assert(all[k] == temps@[k]@);
    crate::laws::steering::lemma_too_hot(names, all[k]);
    if let Some(i) = r {
        assert(all[i as int] == temps@[i as int]@);
        crate::laws::steering::lemma_too_hot(names, all[i as int]);
    }
}

/// The keys of a fan are spelled with its digit, in the case that is asked for.
pub proof fn keys_are_spelled_with_the_fans_digit(
    fan: u8,
    upper: u32,
    lower: u32,
    target: u32,
)
    requires
        call_ensures(compose_mode_key, (fan, ModeKeyCasing::Upper), upper),
        call_ensures(compose_mode_key, (fan, ModeKeyCasing::Lower), lower),
        call_ensures(compose_target_key, (fan,), target),
    ensures
        upper == of_fan(fan as int, 'M', 'd'),
        lower == of_fan(fan as int, 'm', 'd'),
        target == of_fan(fan as int, 'T', 'g'),
{
    crate::laws::sessions::lemma_session_codes(fan, ModeKeyCasing::Upper);
    crate::laws::sessions::lemma_session_codes(fan, ModeKeyCasing::Lower);
}

/// The rounds of the monitor are counted one by one, and it goes on until the number
/// that was asked for is reached; it goes on for ever where none was.
pub proof fn the_monitor_counts_its_rounds(count: u32, ticks: u32, r: (u32, bool))
    requires
        call_ensures(monitor_round, (count, ticks), r),
    ensures
        ({
            let (next, on) = r;
            &&& count < u32::MAX ==> next == count + 1
            &&& count == u32::MAX ==> next == 0
            &&& ticks == 0 ==> on
            &&& ticks > 0 && count < u32::MAX ==> on == (count + 1 < ticks)
        }),
{
}

/// The interval of the monitor is the one that was asked for, and a twentieth of a
/// second at least.
pub proof fn the_monitor_does_not_hurry(secs: Binary64, r: Binary64)
    requires
        call_ensures(monitor_interval, (secs,), r),
    ensures
        ({
            let least = Binary64 { bits: 0x3fa9_9999_9999_999a };
            &&& r == secs || r == least
            &&& !r.nan() && r.value() >= least.value()
            &&& !secs.nan() ==> r.value() >= secs.value()
        }),
{
    crate::laws::showing::the_monitor_waits(secs);
}

/// The title of the monitor has its words in the columns of its rows.
pub proof fn titles_stand_above_their_columns(r: String)
    requires
        call_ensures(monitor_header, (), r),
    ensures
        r@.len() == 66,
        r@.take(4) == "name"@,
        r@.subrange(46, 49) == "src"@,
        r@.subrange(55, 60) == "value"@,
        r@.subrange(62, 66) == "unit"@,
{
    reveal_strlit("name");
    reveal_strlit("src");
    reveal_strlit("value");
    reveal_strlit("unit");
    reveal_strlit(" ");
    assert(r@.take(4) =~= "name"@);
    assert(r@.subrange(46, 49) =~= "src"@);
    assert(r@.subrange(55, 60) =~= "value"@);
    assert(r@.subrange(62, 66) =~= "unit"@);
}

/// The program of the daemon is the one that was asked for, else the one that runs,
/// else the usual one.
pub proof fn the_program_asked_for_comes_first(
    arg: Option<String>,
    current: Option<String>,
    r: String,
)
    requires
        call_ensures(resolve_binary, (arg, current), r),
    ensures
        arg matches Some(a) ==> r@ == a@,
        arg is None && current is Some ==> r@ == current->0@,
        arg is None && current is None ==> r@ == "/usr/local/bin/msf"@,
{
}

/// A profile is made for the first fan that was read, and the user is told where the
/// probe counts another number of fans than were read.
pub proof fn profiles_are_for_the_first_fan(
    fan_count: u8,
    fans: Vec<FanReading>,
    r: Result<(FanReading, Option<Notice>), CliError>,
)
    requires
        call_ensures(init_primary, (fan_count, &fans), r),
    ensures
        r is Err <==> fans@.len() == 0,
        r is Err ==> r->Err_0 == CliError::NoFans,
        r matches Ok((first, notice)) ==> {
            &&& first == fans@[0]
            &&& notice is Some <==> fans@.len() != fan_count
            &&& notice is Some ==> notice->0 is CountMismatch && notice->0->probed == fan_count
                && notice->0->read == fans@.len()
        },
{
}

/// The monitor is filtered by the list of sensors only if that is asked for, and is
/// refused where there is no list then.
pub proof fn the_monitor_is_filtered_on_request(
    selected: bool,
    sensors: Option<Vec<String>>,
    r: Result<Option<Vec<String>>, CliError>,
)
    requires
        call_ensures(monitor_filter, (selected, sensors), r),
    ensures
        !selected ==> r == Ok::<Option<Vec<String>>, CliError>(None),
        selected && sensors is Some ==> r == Ok::<Option<Vec<String>>, CliError>(sensors),
        selected && sensors is None ==> r is Err && r->Err_0 == CliError::NoCalibration,
{
}

/// Only the root user gets past the first step, and is told so by the exit code.
pub proof fn only_root_gets_past_the_first_step(
    root: bool,
    install: InstallStep,
    uninstall: UninstallStep,
    a: Option<i32>,
    b: Option<i32>,
    given: bool,
    init: InitStep,
)
    requires
        call_ensures(InstallStep::first, (root,), install),
        call_ensures(UninstallStep::first, (root,), uninstall),
        call_ensures(InstallStep::exit_code, (&install,), a),
        call_ensures(UninstallStep::exit_code, (&uninstall,), b),
        call_ensures(InitStep::first, (given,), init),
    ensures
        root ==> install == InstallStep::CheckOverwrite && uninstall == UninstallStep::Bootout,
        root ==> a is None && b is None,
        !root ==> install == InstallStep::NeedRoot && uninstall == UninstallStep::NeedRoot,
        !root ==> a == Some(2i32) && b == Some(2i32),
        given ==> init == InitStep::CheckOverwrite,
        !given ==> init == InitStep::FindPath,
{
}

/// What is told of a removal names the property list, and whether it was there.
pub proof fn removals_name_the_property_list(removed: bool, r: String)
    requires
        call_ensures(uninstalled_line, (removed,), r),
    ensures
        ({
            let path = "/Library/LaunchDaemons/im.toss.mac-smart-fans.plist"@;
            &&& removed ==> r@ == "removed: "@ + path
            &&& !removed ==> r@ == "(already absent: "@ + path + ")"@
        }),
{
}

/// The summary of a probe is of that probe and of that machine, with the verdict that
/// its fans give.
pub proof fn summaries_are_of_their_probe(
    model: String,
    build: String,
    p: Probe,
    r: ProbeSummary,
)
    requires
        call_ensures(ProbeSummary::of, (model, build, p), r),
    ensures
        r.model@ == model@ && r.build@ == build@,
        r.fan_count == p.fan_count && r.fans == p.fans,
        r.ftst.present <==> p.ftst is Some,
        p.ftst matches Some(k) ==> r.ftst.data_type == Some(k.data_type) && r.ftst.data_size
            == Some(k.data_size) && r.ftst.data_attributes == Some(k.data_attributes),
        r.controllable <==> p.fan_count > 0 && forall|i: int|
            0 <= i < p@.fans.len() ==> (#[trigger] p@.fans[i]).md is Some && p@.fans[i].tg is Some,
        r.controllable <==> r.not_controllable_reason is None,
{
    crate::laws::showing::complaints_name_the_first_fan(p@);
    if p@.complaint() is Some && p.fan_count > 0 {
        let reason = p@.complaint()->0;
        let k = choose|k: int|
            {
                &&& 0 <= k < p@.fans.len()
                &&& crate::laws::showing::complains_of(#[trigger] p@.fans[k], reason)
                &&& forall|j: int|
                    0 <= j < k ==> (#[trigger] p@.fans[j]).md is Some && p@.fans[j].tg is Some
            };
        assert(!(p@.fans[k].md is Some && p@.fans[k].tg is Some));
    }
}

/// A text is cut to a number of characters, from its start.
pub proof fn texts_are_cut_at_the_end(s: &str, max: usize, r: &str)
    requires
        call_ensures(truncate, (s, max), r),
    ensures
        r@.len() <= max,
        r@.len() == max || r@.len() == s@.len(),
        r@.len() <= s@.len(),
        forall|i: int| 0 <= i < r@.len() ==> #[trigger] r@[i] == s@[i],
{
}

/// All fans are back exactly if each attempt to give one back ended well.
pub proof fn all_are_back_if_each_one_is(outcomes: Vec<Option<bool>>, r: bool)
    requires
        call_ensures(all_given_back, (&outcomes,), r),
    ensures
        r <==> (forall|i: int| 0 <= i < outcomes@.len() ==> #[trigger] outcomes@[i] == Some(true)),
{
}

/// A session has its fan to give back from when it is taken over until it is given
/// back, and only then takes it over again.
pub proof fn held_fans_are_given_back(
    s: ManualFanSession,
    armed: bool,
    restored: bool,
    a: bool,
    b: bool,
    i: u8,
)
    requires
        call_ensures(ManualFanSession::needs_restore, (&s,), a),
        call_ensures(ManualFanSession::needs_re_arm, (armed, restored), b),
        call_ensures(ManualFanSession::fan_index, (&s,), i),
    ensures
        a <==> s.armed && !s.restored,
        b <==> armed && !restored,
        i == s.fan_index,
{
}

/// A controller that has done nothing yet asks for its first fan to be taken over.
pub proof fn controllers_start_with_their_first_fan(
    fans: Vec<FanLabel>,
    job: Job,
    allow: Option<Vec<String>>,
    c: Controller,
    a: Action,
)
    requires
        call_ensures(Controller::new, (fans, job, allow), c),
        call_ensures(Controller::action, (&c,), a),
        fans@.len() > 0,
    ensures
        a is Arm,
        a->fan == 0,
{
    crate::laws::steering::loops_start_by_taking_over(
        crate::control::labels_view(fans@),
        job,
        crate::sensors::names_view(allow),
    );
}

} // verus!
