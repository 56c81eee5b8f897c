//! What has to be settled before fans are taken over.
//!
//! `prepare_set` and `prepare_run` are functions of the facts gathered so far: they say
//! which fact to gather next, why the task is refused, or with what it can start.
use crate::binary64::Binary64;
use crate::daemon::Outcome;
use crate::fans::{clamp_rpm, FanReading};
use crate::margin::is_apart;
use crate::probe::{ModeKeyCasing, Probe};
use crate::report::{fixed_piece, plain_piece, text_piece, Piece, NOT_ROOT_EXIT_CODE};
use crate::selection::FanSelection;
use crate::smc::KeyInfo;
use crate::text::push_decimal;
use vstd::prelude::*;
use vstd::string::*;

verus! {

/// Why a command is not carried out.
#[derive(Debug, Clone)]
pub enum CliError {
    RpmNotFinite { rpm: Binary64 },
    FanOutOfRange { fan: u8, fan_count: u8 },
    NotControllable { fan: u8 },
    NoControllableFan,
    NotRead { fan: u8 },
    NoFans,
    NoCalibration,
    LaunchFailed,
}

impl CliError {
    /// The message that describes the error.
    pub open spec fn words(self) -> Seq<char> {
        match self {
            CliError::RpmNotFinite { rpm } => "rpm must be a finite number (got "@
                + crate::error::non_finite_name(rpm) + ")"@,
            CliError::FanOutOfRange { fan, fan_count } => "fan "@ + crate::text::decimal(fan as nat)
                + " out of range (probe reports fan_count="@ + crate::text::decimal(
                fan_count as nat,
            ) + ")"@,
            CliError::NotControllable { fan } => "fan "@ + crate::text::decimal(fan as nat)
                + " not controllable: Md/Tg/casing missing in probe"@,
            CliError::NoControllableFan => "no fan is controllable"@,
            CliError::NotRead { fan } => "fan "@ + crate::text::decimal(fan as nat)
                + " not found in read_fans"@,
            CliError::NoFans => "read_fans returned 0 fans"@,
            CliError::NoCalibration =>
                "no calibration found; run `msf calibrate add <sensor>` first"@,
            CliError::LaunchFailed => "both `launchctl bootstrap` and `launchctl load` failed"@,
        }
    }

    /// The message that describes the error.
    pub fn message(&self) -> (r: String)
        ensures
            r@ == self.words(),
    {
        let mut out = String::new();
        match self {
            CliError::RpmNotFinite { rpm } => {
                out.append("rpm must be a finite number (got ");
                if rpm.is_nan() {
                    out.append("NaN");
                } else if rpm.is_negative() {
                    out.append("-inf");
                } else {
                    out.append("inf");
                }
                out.append(")");
            },
            CliError::FanOutOfRange { fan, fan_count } => {
                out.append("fan ");
                push_decimal(&mut out, *fan as u64);
                out.append(" out of range (probe reports fan_count=");
                push_decimal(&mut out, *fan_count as u64);
                out.append(")");
            },
            CliError::NotControllable { fan } => {
                out.append("fan ");
                push_decimal(&mut out, *fan as u64);
                out.append(" not controllable: Md/Tg/casing missing in probe");
            },
            CliError::NoControllableFan => {
                out.append("no fan is controllable");
            },
            CliError::NotRead { fan } => {
                out.append("fan ");
                push_decimal(&mut out, *fan as u64);
                out.append(" not found in read_fans");
            },
            CliError::NoFans => {
                out.append("read_fans returned 0 fans");
            },
            CliError::NoCalibration => {
                out.append("no calibration found; run `msf calibrate add <sensor>` first");
            },
            CliError::LaunchFailed => {
                out.append("both `launchctl bootstrap` and `launchctl load` failed");
            },
        }
        assert(out@ =~= self.words());
        out
    }
}

/// Something that the user is told on the way.
#[derive(Debug)]
pub enum Notice {
    /// The target is outside the range that the fan is built for.
    OutsideSpec { rpm: Binary64, min_rpm: Binary64, max_rpm: Binary64 },
    /// The target was moved into that range.
    Clamped { from: Binary64, to: Binary64 },
    /// The list of sensors was made on another machine.
    HostMismatch,
    /// There is no list of sensors.
    NoCalibration,
    /// The probe found fans that cannot be controlled.
    HostNotControllable { reason: String },
    /// The probe and the readings speak of different numbers of fans.
    CountMismatch { probed: u8, read: usize },
}

pub ghost enum NoticeView {
    OutsideSpec { rpm: Binary64, min_rpm: Binary64, max_rpm: Binary64 },
    Clamped { from: Binary64, to: Binary64 },
    HostMismatch,
    NoCalibration,
    HostNotControllable { reason: Seq<char> },
    CountMismatch { probed: u8, read: usize },
}

impl View for Notice {
    type V = NoticeView;

    open spec fn view(&self) -> NoticeView {
        match *self {
            Notice::OutsideSpec { rpm, min_rpm, max_rpm } => NoticeView::OutsideSpec {
                rpm,
                min_rpm,
                max_rpm,
            },
            Notice::Clamped { from, to } => NoticeView::Clamped { from, to },
            Notice::HostMismatch => NoticeView::HostMismatch,
            Notice::NoCalibration => NoticeView::NoCalibration,
            Notice::HostNotControllable { reason } => NoticeView::HostNotControllable {
                reason: reason@,
            },
            Notice::CountMismatch { probed, read } => NoticeView::CountMismatch { probed, read },
        }
    }
}

/// An optional notice, over its view.
pub open spec fn maybe_notice(n: Option<Notice>) -> Option<NoticeView> {
    match n {
        Some(n) => Some(n@),
        None => None,
    }
}

impl NoticeView {
    /// The line that a notice is shown as.
    pub open spec fn line(self) -> Seq<crate::report::PieceView> {
        match self {
            NoticeView::OutsideSpec { rpm, min_rpm, max_rpm } => seq![
                crate::report::PieceView::Text("warning: --no-clamp; target "@),
                crate::report::plain(rpm),
                crate::report::PieceView::Text(" outside spec ["@),
                crate::report::plain(min_rpm),
                crate::report::PieceView::Text(", "@),
                crate::report::plain(max_rpm),
                crate::report::PieceView::Text("]"@),
            ],
            NoticeView::Clamped { from, to } => seq![
                crate::report::PieceView::Text("clamped target from "@),
                crate::report::plain(from),
                crate::report::PieceView::Text(" to "@),
                crate::report::plain(to),
                crate::report::PieceView::Text(" RPM"@),
            ],
            NoticeView::HostMismatch => seq![
                crate::report::PieceView::Text(
                    "warning: calibration host mismatch; degraded trip \u{2014} scanning all HID sensors"@,
                ),
            ],
            NoticeView::NoCalibration => seq![
                crate::report::PieceView::Text(
                    "warning: no calibration; degraded trip \u{2014} scanning all HID sensors"@,
                ),
            ],
            NoticeView::HostNotControllable { reason } => seq![
                crate::report::PieceView::Text(
                    "warning: host probed as not-controllable: "@ + reason,
                ),
            ],
            NoticeView::CountMismatch { probed, read } => seq![
                crate::report::PieceView::Text(
                    "warning: probe fan_count="@ + crate::text::decimal(probed as nat)
                        + " disagrees with read_fans count="@ + crate::text::decimal(read as nat),
                ),
            ],
        }
    }
}

impl Notice {
    /// The line that the notice is shown as.
    pub fn describe(&self) -> (r: Vec<Piece>)
        ensures
            crate::report::line_view(r@) == self@.line(),
    {
        let mut line: Vec<Piece> = Vec::new();
        match self {
            Notice::OutsideSpec { rpm, min_rpm, max_rpm } => {
                line.push(text_piece("warning: --no-clamp; target "));
                line.push(plain_piece(*rpm));
                line.push(text_piece(" outside spec ["));
                line.push(plain_piece(*min_rpm));
                line.push(text_piece(", "));
                line.push(plain_piece(*max_rpm));
                line.push(text_piece("]"));
            },
            Notice::Clamped { from, to } => {
                line.push(text_piece("clamped target from "));
                line.push(plain_piece(*from));
                line.push(text_piece(" to "));
                line.push(plain_piece(*to));
                line.push(text_piece(" RPM"));
            },
            Notice::HostMismatch => {
                line.push(
                    text_piece(
                        "warning: calibration host mismatch; degraded trip \u{2014} scanning all HID sensors",
                    ),
                );
            },
            Notice::NoCalibration => {
                line.push(
                    text_piece(
                        "warning: no calibration; degraded trip \u{2014} scanning all HID sensors",
                    ),
                );
            },
            Notice::HostNotControllable { reason } => {
                let mut s = "warning: host probed as not-controllable: ".to_owned();
                s.append(reason.as_str());
                line.push(Piece::Text(s));
            },
            Notice::CountMismatch { probed, read } => {
                let mut s = "warning: probe fan_count=".to_owned();
                push_decimal(&mut s, *probed as u64);
                s.append(" disagrees with read_fans count=");
                push_decimal(&mut s, *read as u64);
                line.push(Piece::Text(s));
            },
        }
        assert(crate::report::line_view(line@) =~= self@.line());
        line
    }
}

/// The keys by which a fan is controlled.
#[derive(Debug)]
pub struct FanPlan {
    pub index: u8,
    pub casing: ModeKeyCasing,
    pub md: KeyInfo,
    pub tg: KeyInfo,
}

pub ghost struct FanPlanView {
    pub index: u8,
    pub casing: ModeKeyCasing,
    pub md: crate::smc::KeyInfoView,
    pub tg: crate::smc::KeyInfoView,
}

impl View for FanPlan {
    type V = FanPlanView;

    open spec fn view(&self) -> FanPlanView {
        FanPlanView { index: self.index, casing: self.casing, md: self.md@, tg: self.tg@ }
    }
}

/// The keys of fan number `fan`, or why it cannot be controlled.
pub open spec fn planned(probe: crate::probe::ProbeView, fan: u8) -> Result<FanPlanView, CliError> {
    if fan >= probe.fan_count {
        Err(CliError::FanOutOfRange { fan, fan_count: probe.fan_count })
    } else {
        let f = probe.fans[fan as int];
        if f.md is Some && f.tg is Some && f.mode_key_casing is Some {
            Ok(
                FanPlanView {
                    index: fan,
                    casing: f.mode_key_casing->0,
                    md: f.md->0,
                    tg: f.tg->0,
                },
            )
        } else {
            Err(CliError::NotControllable { fan })
        }
    }
}

/// A plan or an error, over the plan's view.
pub open spec fn plan_view(r: Result<FanPlan, CliError>) -> Result<FanPlanView, CliError> {
    match r {
        Ok(p) => Ok(p@),
        Err(e) => Err(e),
    }
}

/// The keys by which fan number `fan` is controlled.
pub fn plan_fan(probe: &Probe, fan: u8) -> (r: Result<FanPlan, CliError>)
    requires
        probe.fans@.len() >= probe.fan_count,
    ensures
        plan_view(r) == planned(probe@, fan),
{
    if fan >= probe.fan_count {
        return Err(CliError::FanOutOfRange { fan, fan_count: probe.fan_count });
    }
    let fp = &probe.fans[fan as usize];
    assert(probe@.fans[fan as int] == fp@);
    match (&fp.md, &fp.tg, fp.mode_key_casing) {
        (Some(md), Some(tg), Some(casing)) => Ok(
            FanPlan { index: fan, casing, md: md.duplicate(), tg: tg.duplicate() },
        ),
        _ => Err(CliError::NotControllable { fan }),
    }
}

/// A list without what occurs in it before.
pub open spec fn without_repeats(list: Seq<u8>) -> Seq<u8>
    decreases list.len(),
{
    if list.len() == 0 {
        seq![]
    } else {
        let front = without_repeats(list.drop_last());
        if front.contains(list.last()) {
            front
        } else {
            front.push(list.last())
        }
    }
}

/// The plans for the fans of a list, each once; the first refusal ends it.
pub open spec fn planned_list(probe: crate::probe::ProbeView, list: Seq<u8>) -> Result<
    Seq<FanPlanView>,
    CliError,
>
    decreases list.len(),
{
    if list.len() == 0 {
        Ok(seq![])
    } else {
        match planned_list(probe, list.drop_last()) {
            Err(e) => Err(e),
            Ok(front) => if without_repeats(list.drop_last()).contains(list.last()) {
                Ok(front)
            } else {
                match planned(probe, list.last()) {
                    Ok(p) => Ok(front.push(p)),
                    Err(e) => Err(e),
                }
            },
        }
    }
}

/// The plans for all fans before `n` that can be controlled.
pub open spec fn planned_all(probe: crate::probe::ProbeView, n: nat) -> Seq<FanPlanView>
    decreases n,
{
    if n == 0 {
        seq![]
    } else {
        let front = planned_all(probe, (n - 1) as nat);
        match planned(probe, (n - 1) as u8) {
            Ok(p) => front.push(p),
            Err(_) => front,
        }
    }
}

/// The plans for the fans that are selected.
pub open spec fn planned_selection(
    probe: crate::probe::ProbeView,
    sel: crate::selection::FanSelectionView,
) -> Result<Seq<FanPlanView>, CliError> {
    match sel {
        crate::selection::FanSelectionView::Only(list) => planned_list(probe, list),
        crate::selection::FanSelectionView::All => {
            let all = planned_all(probe, probe.fan_count as nat);
            if all.len() == 0 {
                Err(CliError::NoControllableFan)
            } else {
                Ok(all)
            }
        },
    }
}

/// Plans, over their views.
pub open spec fn plans_view(plans: Seq<FanPlan>) -> Seq<FanPlanView> {
    Seq::new(plans.len(), |i: int| plans[i]@)
}

/// Plans or an error, over the plans' views.
pub open spec fn plan_list_view(r: Result<Vec<FanPlan>, CliError>) -> Result<
    Seq<FanPlanView>,
    CliError,
> {
    match r {
        Ok(v) => Ok(plans_view(v@)),
        Err(e) => Err(e),
    }
}

fn occurs(list: &Vec<u8>, x: u8) -> (r: bool)
    ensures
        r == list@.contains(x),
{
    let mut i: usize = 0;
    while i < list.len()
        invariant
            i <= list@.len(),
            forall|k: int| 0 <= k < i ==> list@[k] != x,
        decreases list@.len() - i,
    {
        if list[i] == x {
            assert(list@[i as int] == x);
            return true;
        }
        i = i + 1;
    }
    false
}

fn plan_list(probe: &Probe, list: &Vec<u8>) -> (r: Result<Vec<FanPlan>, CliError>)
    requires
        probe.fans@.len() >= probe.fan_count,
    ensures
        plan_list_view(r) == planned_list(probe@, list@),
{
    let mut plans: Vec<FanPlan> = Vec::new();
    let mut seen: Vec<u8> = Vec::new();
    let mut i: usize = 0;
    assert(plans_view(plans@) =~= seq![]);
    while i < list.len()
        invariant
            i <= list@.len(),
            probe.fans@.len() >= probe.fan_count,
            seen@ == without_repeats(list@.take(i as int)),
            planned_list(probe@, list@.take(i as int)) == Ok::<Seq<FanPlanView>, CliError>(
                plans_view(plans@),
            ),
        decreases list@.len() - i,
    {
        proof {
            assert(list@.take(i + 1).drop_last() =~= list@.take(i as int));
        }
        let fan: u8 = list[i];
        if !occurs(&seen, fan) {
            match plan_fan(probe, fan) {
                Ok(p) => {
                    let ghost before = plans@;
                    plans.push(p);
                    seen.push(fan);
                    assert(plans_view(plans@) =~= plans_view(before).push(p@));
                },
                Err(e) => {
                    proof {
                        lemma_refused_list(probe@, list@, i + 1, e);
                    }
                    return Err(e);
                },
            }
        }
        i = i + 1;
    }
    assert(list@.take(i as int) =~= list@);
    Ok(plans)
}

/// A refusal early in a list is the refusal of the list.
proof fn lemma_refused_list(
    probe: crate::probe::ProbeView,
    list: Seq<u8>,
    k: int,
    e: CliError,
)
    requires
        0 <= k <= list.len(),
        planned_list(probe, list.take(k)) == Err::<Seq<FanPlanView>, CliError>(e),
    ensures
        planned_list(probe, list) == Err::<Seq<FanPlanView>, CliError>(e),
    decreases list.len(),
{
    if k == list.len() {
        assert(list.take(k) =~= list);
    } else {
        assert(list.drop_last().take(k) =~= list.take(k));
        lemma_refused_list(probe, list.drop_last(), k, e);
    }
}

/// The plans for the fans that are selected.
pub fn plan_selection(probe: &Probe, sel: &FanSelection) -> (r: Result<Vec<FanPlan>, CliError>)
    requires
        probe.fans@.len() >= probe.fan_count,
    ensures
        plan_list_view(r) == planned_selection(probe@, sel@),
{
    match sel {
        FanSelection::Only(list) => plan_list(probe, list),
        FanSelection::All => {
            let mut plans: Vec<FanPlan> = Vec::new();
            let mut i: u8 = 0;
            assert(plans_view(plans@) =~= seq![]);
            while i < probe.fan_count
                invariant
                    i <= probe.fan_count,
                    probe.fans@.len() >= probe.fan_count,
                    plans_view(plans@) == planned_all(probe@, i as nat),
                decreases probe.fan_count - i,
            {
                let ghost before = plans@;
                if let Ok(p) = plan_fan(probe, i) {
                    plans.push(p);
                    assert(plans_view(plans@) =~= plans_view(before).push(p@));
                }
                i = i + 1;
            }
            if plans.len() == 0 {
                Err(CliError::NoControllableFan)
            } else {
                Ok(plans)
            }
        },
    }
}

/// The first reading of a fan with the given index.
pub open spec fn reading_of(readings: Seq<FanReading>, fan: u8) -> Option<FanReading>
    decreases readings.len(),
{
    if readings.len() == 0 {
        None
    } else if readings[0].index == fan {
        Some(readings[0])
    } else {
        reading_of(readings.skip(1), fan)
    }
}

/// The first reading of a fan with the given index.
pub fn find_reading(readings: &Vec<FanReading>, fan: u8) -> (r: Option<FanReading>)
    ensures
        r == reading_of(readings@, fan),
{
    let mut i: usize = 0;
    assert(readings@.skip(0) =~= readings@);
    while i < readings.len()
        invariant
            i <= readings@.len(),
            reading_of(readings@, fan) == reading_of(readings@.skip(i as int), fan),
        decreases readings@.len() - i,
    {
        if readings[i].index == fan {
            return Some(readings[i]);
        }
        assert(readings@.skip(i as int).skip(1) =~= readings@.skip(i + 1));
        i = i + 1;
    }
    None
}

/// Holding one fan at a speed.
#[derive(Debug, Clone, Copy)]
pub struct SetTask {
    pub fan: u8,
    pub rpm: Binary64,
    pub no_clamp: bool,
}

/// The sensors that were marked as the ones that count.
#[derive(Debug)]
pub struct SensorList {
    /// Whether the list was made on this machine.
    pub matches_host: bool,
    pub sensors: Vec<String>,
}

/// What is known so far. What is not known yet is `None`.
#[derive(Debug)]
pub struct Facts {
    pub root: bool,
    pub probe: Option<Probe>,
    pub readings: Option<Vec<FanReading>>,
    /// The list of sensors, if there is one.
    pub calibration: Option<Option<SensorList>>,
}

/// With what fans are taken over.
#[derive(Debug)]
pub struct Start {
    pub fans: Vec<FanPlan>,
    /// The readings of these fans, in the same order.
    pub live: Vec<FanReading>,
    /// The speed to hold, where one is to be held.
    pub target: Option<Binary64>,
    /// The names of the sensors that count; every sensor does without them.
    pub allow: Option<Vec<String>>,
    pub notice: Option<Notice>,
}

/// What is needed next.
#[derive(Debug)]
pub enum Need {
    /// The rights of the root user, without which nothing is done.
    Root,
    Probe,
    Readings,
    /// The list of sensors. The user is told the notice first.
    Calibration { notice: Option<Notice> },
    Refused(CliError),
    /// All is well, but without the rights of the root user this is where it ends.
    Smoke { live: Vec<FanReading> },
    Ready(Start),
}

pub ghost struct StartView {
    pub fans: Seq<FanPlanView>,
    pub live: Seq<FanReading>,
    pub target: Option<Binary64>,
    pub allow: Option<Seq<Seq<char>>>,
    pub notice: Option<NoticeView>,
}

pub ghost enum NeedView {
    Root,
    Probe,
    Readings,
    Calibration { notice: Option<NoticeView> },
    Refused(CliError),
    Smoke { live: Seq<FanReading> },
    Ready(StartView),
}

impl View for Start {
    type V = StartView;

    open spec fn view(&self) -> StartView {
        StartView {
            fans: plans_view(self.fans@),
            live: self.live@,
            target: self.target,
            allow: crate::sensors::names_view(self.allow),
            notice: maybe_notice(self.notice),
        }
    }
}

impl View for Need {
    type V = NeedView;

    open spec fn view(&self) -> NeedView {
        match *self {
            Need::Root => NeedView::Root,
            Need::Probe => NeedView::Probe,
            Need::Readings => NeedView::Readings,
            Need::Calibration { notice } => NeedView::Calibration { notice: maybe_notice(notice) },
            Need::Refused(e) => NeedView::Refused(e),
            Need::Smoke { live } => NeedView::Smoke { live: live@ },
            Need::Ready(s) => NeedView::Ready(s@),
        }
    }
}

impl Need {
    /// The exit code of a task that ends at once: only for want of the rights of the
    /// root user.
    pub fn exit_code(&self) -> (r: Option<i32>)
        ensures
            r == if *self is Root {
                Some(NOT_ROOT_EXIT_CODE)
            } else {
                None
            },
    {
        match self {
            Need::Root => Some(NOT_ROOT_EXIT_CODE),
            _ => None,
        }
    }
}

impl Facts {
    /// A probe has a description for each fan that it counts.
    pub open spec fn well_formed(self) -> bool {
        self.probe matches Some(p) ==> p.fans@.len() >= p.fan_count
    }
}

/// The sensors that count: those on a list that was made on this machine, else all.
pub open spec fn allowed(calibration: Option<SensorList>) -> Option<Seq<Seq<char>>> {
    match calibration {
        Some(c) => if c.matches_host {
            Some(Seq::new(c.sensors@.len(), |i: int| c.sensors@[i]@))
        } else {
            None
        },
        None => None,
    }
}

/// What is said about a list of sensors that cannot be used.
pub open spec fn calibration_notice(calibration: Option<SensorList>) -> Option<NoticeView> {
    match calibration {
        Some(c) => if c.matches_host {
            None
        } else {
            Some(NoticeView::HostMismatch)
        },
        None => Some(NoticeView::NoCalibration),
    }
}

/// The speed that is held: within the fan's range, unless the user asked otherwise.
pub open spec fn chosen_target(task: SetTask, live: FanReading) -> Binary64 {
    if task.no_clamp {
        task.rpm
    } else {
        crate::fans::clamped(task.rpm, live.min_rpm, live.max_rpm)
    }
}

/// What is said about the speed that is held.
pub open spec fn target_notice(task: SetTask, live: FanReading) -> Option<NoticeView> {
    if task.no_clamp {
        if task.rpm.below(live.min_rpm) || live.max_rpm.below(task.rpm) {
            Some(
                NoticeView::OutsideSpec {
                    rpm: task.rpm,
                    min_rpm: live.min_rpm,
                    max_rpm: live.max_rpm,
                },
            )
        } else {
            None
        }
    } else if crate::margin::apart(chosen_target(task, live), task.rpm) {
        Some(NoticeView::Clamped { from: task.rpm, to: chosen_target(task, live) })
    } else {
        None
    }
}

/// What is needed next to hold a fan at a speed.
pub open spec fn set_need(task: SetTask, facts: Facts) -> NeedView {
    if !task.rpm.finite() {
        NeedView::Refused(CliError::RpmNotFinite { rpm: task.rpm })
    } else if !facts.root {
        NeedView::Root
    } else if facts.probe is None {
        NeedView::Probe
    } else {
        match planned(facts.probe->0@, task.fan) {
            Err(e) => NeedView::Refused(e),
            Ok(plan) => if facts.readings is None {
                NeedView::Readings
            } else {
                match reading_of(facts.readings->0@, task.fan) {
                    None => NeedView::Refused(CliError::NotRead { fan: task.fan }),
                    Some(live) => if facts.calibration is None {
                        NeedView::Calibration { notice: target_notice(task, live) }
                    } else {
                        NeedView::Ready(
                            StartView {
                                fans: seq![plan],
                                live: seq![live],
                                target: Some(chosen_target(task, live)),
                                allow: allowed(facts.calibration->0),
                                notice: calibration_notice(facts.calibration->0),
                            },
                        )
                    },
                }
            },
        }
    }
}

/// The readings of the planned fans, or the first fan that has none.
pub open spec fn live_of(readings: Seq<FanReading>, plans: Seq<FanPlanView>) -> Result<
    Seq<FanReading>,
    CliError,
>
    decreases plans.len(),
{
    if plans.len() == 0 {
        Ok(seq![])
    } else {
        match live_of(readings, plans.drop_last()) {
            Err(e) => Err(e),
            Ok(front) => match reading_of(readings, plans.last().index) {
                Some(r) => Ok(front.push(r)),
                None => Err(CliError::NotRead { fan: plans.last().index }),
            },
        }
    }
}

/// What is needed next to let fans follow a curve.
pub open spec fn run_need(sel: crate::selection::FanSelectionView, facts: Facts) -> NeedView {
    if facts.probe is None {
        NeedView::Probe
    } else {
        match planned_selection(facts.probe->0@, sel) {
            Err(e) => NeedView::Refused(e),
            Ok(plans) => if facts.readings is None {
                NeedView::Readings
            } else {
                match live_of(facts.readings->0@, plans) {
                    Err(e) => NeedView::Refused(e),
                    Ok(live) => if !facts.root {
                        NeedView::Smoke { live }
                    } else if facts.calibration is None {
                        NeedView::Calibration { notice: None }
                    } else {
                        NeedView::Ready(
                            StartView {
                                fans: plans,
                                live,
                                target: None,
                                allow: allowed(facts.calibration->0),
                                notice: calibration_notice(facts.calibration->0),
                            },
                        )
                    },
                }
            },
        }
    }
}

/// A list of names with the same names.
fn copy_names(v: &Vec<String>) -> (r: Vec<String>)
    ensures
        r@.len() == v@.len(),
        forall|i: int| 0 <= i < v@.len() ==> (#[trigger] r@[i])@ == v@[i]@,
{
    let mut out: Vec<String> = Vec::new();
    let mut i: usize = 0;
    while i < v.len()
        invariant
            i <= v@.len(),
            out@.len() == i,
            forall|k: int| 0 <= k < i ==> (#[trigger] out@[k])@ == v@[k]@,
        decreases v@.len() - i,
    {
        out.push(v[i].clone());
        i = i + 1;
    }
    out
}

/// The sensors that count, and what is said about them.
pub fn choose_sensors(calibration: &Option<SensorList>) -> (r: (
    Option<Vec<String>>,
    Option<Notice>,
))
    ensures
        crate::sensors::names_view(r.0) == allowed(*calibration),
        maybe_notice(r.1) == calibration_notice(*calibration),
{
    match calibration {
        Some(c) => if c.matches_host {
            let names = copy_names(&c.sensors);
            let r = Some(names);
            proof {
                assert(crate::sensors::names_view(r)->0 =~= allowed(*calibration)->0);
            }
            (r, None)
        } else {
            (None, Some(Notice::HostMismatch))
        },
        None => (None, Some(Notice::NoCalibration)),
    }
}

/// What is needed next to hold a fan at a speed.
pub fn prepare_set(task: &SetTask, facts: &Facts) -> (r: Need)
    requires
        facts.well_formed(),
    ensures
        r@ == set_need(*task, *facts),
{
    if !task.rpm.is_finite() {
        return Need::Refused(CliError::RpmNotFinite { rpm: task.rpm });
    }
    if !facts.root {
        return Need::Root;
    }
    let probe = match &facts.probe {
        Some(p) => p,
        None => return Need::Probe,
    };
    let plan = match plan_fan(probe, task.fan) {
        Ok(p) => p,
        Err(e) => return Need::Refused(e),
    };
    let readings = match &facts.readings {
        Some(r) => r,
        None => return Need::Readings,
    };
    let live: FanReading = match find_reading(readings, task.fan) {
        Some(f) => f,
        None => return Need::Refused(CliError::NotRead { fan: task.fan }),
    };
    let mut target: Binary64 = task.rpm;
    let mut notice: Option<Notice> = None;
    if task.no_clamp {
        if task.rpm.lt(&live.min_rpm) || live.max_rpm.lt(&task.rpm) {
            notice = Some(
                Notice::OutsideSpec {
                    rpm: task.rpm,
                    min_rpm: live.min_rpm,
                    max_rpm: live.max_rpm,
                },
            );
        }
    } else {
        target = clamp_rpm(task.rpm, live.min_rpm, live.max_rpm);
        if is_apart(&target, &task.rpm) {
            notice = Some(Notice::Clamped { from: task.rpm, to: target });
        }
    }
    let calibration = match &facts.calibration {
        Some(c) => c,
        None => return Need::Calibration { notice },
    };
    let (allow, warning) = choose_sensors(calibration);
    let mut fans: Vec<FanPlan> = Vec::new();
    fans.push(plan);
    let mut lives: Vec<FanReading> = Vec::new();
    lives.push(live);
    let start = Start { fans, live: lives, target: Some(target), allow, notice: warning };
    proof {
        assert(start@.fans =~= seq![plan@]);
        assert(start@.live =~= seq![live]);
    }
    Need::Ready(start)
}

fn find_live(readings: &Vec<FanReading>, plans: &Vec<FanPlan>) -> (r: Result<
    Vec<FanReading>,
    CliError,
>)
    ensures
        match r {
            Ok(v) => live_of(readings@, plans_view(plans@)) == Ok::<Seq<FanReading>, CliError>(v@),
            Err(e) => live_of(readings@, plans_view(plans@)) == Err::<Seq<FanReading>, CliError>(e),
        },
{
    let ghost all = plans_view(plans@);
    let mut out: Vec<FanReading> = Vec::new();
    let mut i: usize = 0;
    while i < plans.len()
        invariant
            i <= plans@.len(),
            all == plans_view(plans@),
            live_of(readings@, all.take(i as int)) == Ok::<Seq<FanReading>, CliError>(out@),
        decreases plans@.len() - i,
    {
        proof {
            assert(all.take(i + 1).drop_last() =~= all.take(i as int));
        }
        let index: u8 = plans[i].index;
        match find_reading(readings, index) {
            Some(f) => out.push(f),
            None => {
                proof {
                    lemma_missing_reading(
                        readings@,
                        all,
                        i + 1,
                        CliError::NotRead { fan: index },
                    );
                }
                return Err(CliError::NotRead { fan: index });
            },
        }
        i = i + 1;
    }
    assert(all.take(i as int) =~= all);
    Ok(out)
}

/// A fan without a reading early in a list refuses the list.
proof fn lemma_missing_reading(
    readings: Seq<FanReading>,
    plans: Seq<FanPlanView>,
    k: int,
    e: CliError,
)
    requires
        0 <= k <= plans.len(),
        live_of(readings, plans.take(k)) == Err::<Seq<FanReading>, CliError>(e),
    ensures
        live_of(readings, plans) == Err::<Seq<FanReading>, CliError>(e),
    decreases plans.len(),
{
    if k == plans.len() {
        assert(plans.take(k) =~= plans);
    } else {
        assert(plans.drop_last().take(k) =~= plans.take(k));
        lemma_missing_reading(readings, plans.drop_last(), k, e);
    }
}

/// What is needed next to let fans follow a curve.
pub fn prepare_run(sel: &FanSelection, facts: &Facts) -> (r: Need)
    requires
        facts.well_formed(),
    ensures
        r@ == run_need(sel@, *facts),
{
    let probe = match &facts.probe {
        Some(p) => p,
        None => return Need::Probe,
    };
    let plans = match plan_selection(probe, sel) {
        Ok(p) => p,
        Err(e) => return Need::Refused(e),
    };
    let readings = match &facts.readings {
        Some(r) => r,
        None => return Need::Readings,
    };
    let live = match find_live(readings, &plans) {
        Ok(v) => v,
        Err(e) => return Need::Refused(e),
    };
    if !facts.root {
        return Need::Smoke { live };
    }
    let calibration = match &facts.calibration {
        Some(c) => c,
        None => return Need::Calibration { notice: None },
    };
    let (allow, warning) = choose_sensors(calibration);
    Need::Ready(Start { fans: plans, live, target: None, allow, notice: warning })
}

/// What is shown for a fan that could follow a curve, if the user were root.
pub open spec fn smoke_words(points: usize, live: FanReading) -> Seq<crate::report::PieceView> {
    seq![
        crate::report::PieceView::Text(
            "smoke OK: curve has "@ + crate::text::decimal(points as nat) + " points, fan "@
                + crate::text::decimal(live.index as nat) + " controllable (Mn="@,
        ),
        crate::report::fixed(live.min_rpm, 0),
        crate::report::PieceView::Text("/Mx="@),
        crate::report::fixed(live.max_rpm, 0),
        crate::report::PieceView::Text("). Re-run with sudo to activate."@),
    ]
}

/// What is shown for a fan that could follow a curve, if the user were root.
pub fn smoke_line(points: usize, live: &FanReading) -> (r: Vec<Piece>)
    ensures
        crate::report::line_view(r@) == smoke_words(points, *live),
{
    let mut s = "smoke OK: curve has ".to_owned();
    push_decimal(&mut s, points as u64);
    s.append(" points, fan ");
    push_decimal(&mut s, live.index as u64);
    s.append(" controllable (Mn=");
    let mut line: Vec<Piece> = Vec::new();
    line.push(Piece::Text(s));
    line.push(fixed_piece(live.min_rpm, 0));
    line.push(text_piece("/Mx="));
    line.push(fixed_piece(live.max_rpm, 0));
    line.push(text_piece("). Re-run with sudo to activate."));
    assert(crate::report::line_view(line@) =~= smoke_words(points, *live));
    line
}

/// What a user who is not root is told when a fan is to be held.
pub open spec fn set_root_words(task: SetTask) -> Seq<crate::report::PieceView> {
    seq![
        crate::report::PieceView::Text(
            "msf set requires root (writes SMC keys). Re-run with: sudo msf set "@
                + crate::text::decimal(task.fan as nat) + " "@,
        ),
        crate::report::plain(task.rpm),
    ]
}

/// What a user who is not root is told when a fan is to be held.
pub fn set_root_line(task: &SetTask) -> (r: Vec<Piece>)
    ensures
        crate::report::line_view(r@) == set_root_words(*task),
{
    let mut s = "msf set requires root (writes SMC keys). Re-run with: sudo msf set ".to_owned();
    push_decimal(&mut s, task.fan as u64);
    s.append(" ");
    let mut line: Vec<Piece> = Vec::new();
    line.push(Piece::Text(s));
    line.push(plain_piece(task.rpm));
    assert(crate::report::line_view(line@) =~= set_root_words(*task));
    line
}

/// The next step towards a profile.
#[derive(Debug, Clone, Copy, PartialEq, Eq, Structural)]
pub enum InitStep {
    /// Find the usual place for a profile.
    FindPath,
    /// See that an older profile may be overwritten.
    CheckOverwrite,
    /// Find out which machine this is.
    DetectHost,
    Probe,
    ReadFans,
    /// See that there is a fan to make a profile for.
    CountFans,
    /// Make the directory that the profile goes to.
    MakeDirectory,
    WriteProfile,
    Written,
    /// There is no fan to make a profile for.
    NoFans,
    /// A step failed, and the error is its own.
    Aborted,
}

impl InitStep {
    /// The first step, where `given` says whether the user named a place.
    pub open spec fn beginning(given: bool) -> InitStep {
        if given {
            InitStep::CheckOverwrite
        } else {
            InitStep::FindPath
        }
    }

    /// The step that follows a step that was done.
    pub open spec fn next(self) -> InitStep {
        match self {
            InitStep::FindPath => InitStep::CheckOverwrite,
            InitStep::CheckOverwrite => InitStep::DetectHost,
            InitStep::DetectHost => InitStep::Probe,
            InitStep::Probe => InitStep::ReadFans,
            InitStep::ReadFans => InitStep::CountFans,
            InitStep::CountFans => InitStep::MakeDirectory,
            InitStep::MakeDirectory => InitStep::WriteProfile,
            InitStep::WriteProfile => InitStep::Written,
            _ => self,
        }
    }

    /// Nothing follows.
    pub open spec fn is_last(self) -> bool {
        self == InitStep::Written || self == InitStep::NoFans || self == InitStep::Aborted
    }

    /// The step that follows.
    pub open spec fn following(self, outcome: Outcome) -> InitStep {
        if self.is_last() {
            self
        } else if outcome == Outcome::Done {
            self.next()
        } else if self == InitStep::CountFans {
            InitStep::NoFans
        } else {
            InitStep::Aborted
        }
    }

    /// The first step, where `given` says whether the user named a place.
    pub fn first(given: bool) -> (r: InitStep)
        ensures
            r == InitStep::beginning(given),
    {
        if given {
            InitStep::CheckOverwrite
        } else {
            InitStep::FindPath
        }
    }

    /// The step that follows.
    pub fn after(&self, outcome: Outcome) -> (r: InitStep)
        ensures
            r == self.following(outcome),
    {
        let done: bool = match outcome {
            Outcome::Done => true,
            _ => false,
        };
        match self {
            InitStep::Written => InitStep::Written,
            InitStep::NoFans => InitStep::NoFans,
            InitStep::Aborted => InitStep::Aborted,
            InitStep::CountFans => if done {
                InitStep::MakeDirectory
            } else {
                InitStep::NoFans
            },
            _ => {
                if !done {
                    return InitStep::Aborted;
                }
                match self {
                    InitStep::FindPath => InitStep::CheckOverwrite,
                    InitStep::CheckOverwrite => InitStep::DetectHost,
                    InitStep::DetectHost => InitStep::Probe,
                    InitStep::Probe => InitStep::ReadFans,
                    InitStep::ReadFans => InitStep::CountFans,
                    InitStep::MakeDirectory => InitStep::WriteProfile,
                    _ => InitStep::Written,
                }
            },
        }
    }
}

/// The step that the making of a profile stands at after a row of outcomes.
pub open spec fn init_state(given: bool, outcomes: Seq<Outcome>) -> InitStep
    decreases outcomes.len(),
{
    if outcomes.len() == 0 {
        InitStep::beginning(given)
    } else {
        init_state(given, outcomes.drop_last()).following(outcomes.last())
    }
}

/// How many steps lie behind one that is on the way.
pub open spec fn init_steps_behind(given: bool, step: InitStep) -> int {
    let n: int = match step {
        InitStep::FindPath => 0,
        InitStep::CheckOverwrite => 1,
        InitStep::DetectHost => 2,
        InitStep::Probe => 3,
        InitStep::ReadFans => 4,
        InitStep::CountFans => 5,
        InitStep::MakeDirectory => 6,
        InitStep::WriteProfile => 7,
        _ => 8,
    };
    if given {
        n - 1
    } else {
        n
    }
}

/// Nothing is touched after a refusal: a step on the way has every step before it done,
/// in order. So the machine is looked at only if a profile may be written, and a
/// directory is made and a profile written only if all was looked at and a fan was found.
pub proof fn no_profile_after_a_refusal(given: bool, outcomes: Seq<Outcome>)
    ensures
        ({
            let step = init_state(given, outcomes);
            &&& !step.is_last() ==> outcomes.len() == init_steps_behind(given, step)
                && forall|i: int|
                0 <= i < outcomes.len() ==> #[trigger] outcomes[i] == Outcome::Done
            &&& step == InitStep::Written ==> outcomes.len() >= init_steps_behind(given, step)
                && forall|i: int|
                0 <= i < init_steps_behind(given, step) ==> #[trigger] outcomes[i]
                    == Outcome::Done
        }),
    decreases outcomes.len(),
{
    if outcomes.len() > 0 {
        let rest = outcomes.drop_last();
        no_profile_after_a_refusal(given, rest);
        assert forall|i: int| 0 <= i < rest.len() implies #[trigger] outcomes[i] == rest[i] by {}
    }
}

/// A refusal or a failure is the end: nothing follows it.
pub proof fn a_refusal_is_final(step: InitStep, outcome: Outcome, later: Outcome)
    requires
        outcome != Outcome::Done,
        !step.is_last(),
    ensures
        step.following(outcome).is_last(),
        step.following(outcome) != InitStep::Written,
        step.following(outcome).following(later) == step.following(outcome),
{
}

/// What is said about a probe before a profile is made.
pub fn init_probe_notice(probe: &Probe) -> (r: Option<Notice>)
    ensures
        maybe_notice(r) == match probe@.complaint() {
            Some(reason) => Some(NoticeView::HostNotControllable { reason }),
            None => None,
        },
{
    match probe.not_controllable_reason() {
        Some(reason) => Some(Notice::HostNotControllable { reason }),
        None => None,
    }
}

/// The fan that a profile is made for, and what is said about the readings. Without a
/// reading no profile is made.
pub fn init_primary(fan_count: u8, fans: &Vec<FanReading>) -> (r: Result<
    (FanReading, Option<Notice>),
    CliError,
>)
    ensures
        match r {
            Err(e) => fans@.len() == 0 && e == CliError::NoFans,
            Ok((primary, notice)) => {
                &&& fans@.len() > 0
                &&& primary == fans@[0]
                &&& maybe_notice(notice) == if fans@.len() == fan_count {
                    None
                } else {
                    Some(NoticeView::CountMismatch { probed: fan_count, read: fans.len() })
                }
            },
        },
{
    if fans.len() == 0 {
        return Err(CliError::NoFans);
    }
    let notice = if fans.len() != fan_count as usize {
        Some(Notice::CountMismatch { probed: fan_count, read: fans.len() })
    } else {
        None
    };
    Ok((fans[0], notice))
}

/// What is shown after a profile was written.
pub open spec fn profile_words(path: Seq<char>, policy: Seq<char>) -> Seq<Seq<char>> {
    seq![
        "wrote "@ + path + " ("@ + policy + " policy)"@,
        "next:  sudo msf run --curve "@ + path + " --fan 0 --duration-secs 600"@,
    ]
}

/// What is shown after a profile was written.
pub fn profile_lines(path: &str, policy: &str) -> (r: Vec<String>)
    ensures
        crate::report::lines_view(r@) == profile_words(path@, policy@),
{
    let mut first = "wrote ".to_owned();
    first.append(path);
    first.append(" (");
    first.append(policy);
    first.append(" policy)");
    let mut second = "next:  sudo msf run --curve ".to_owned();
    second.append(path);
    second.append(" --fan 0 --duration-secs 600");
    let mut v: Vec<String> = Vec::new();
    v.push(first);
    v.push(second);
    assert(crate::report::lines_view(v@) =~= profile_words(path@, policy@));
    v
}

/// The filter of the monitor: the sensors on the list, where only those are asked for.
pub fn monitor_filter(selected: bool, sensors: Option<Vec<String>>) -> (r: Result<
    Option<Vec<String>>,
    CliError,
>)
    ensures
        match r {
            Err(e) => selected && sensors is None && e == CliError::NoCalibration,
            Ok(filter) => {
                &&& !(selected && sensors is None)
                &&& filter == if selected {
                    sensors
                } else {
                    None
                }
            },
        },
{
    if selected {
        match sensors {
            None => Err(CliError::NoCalibration),
            Some(v) => Ok(Some(v)),
        }
    } else {
        Ok(None)
    }
}

/// Nothing is taken over without the rights of the root user, a speed that is held is a
/// number, and each fan of a start has its own reading beside it.
pub proof fn starts_are_sound(task: SetTask, sel: crate::selection::FanSelectionView, facts: Facts)
    ensures
        set_need(task, facts) matches NeedView::Ready(s) ==> facts.root && task.rpm.finite()
            && s.fans.len() == 1 && s.live.len() == 1 && s.fans[0].index == task.fan
            && s.live[0].index == task.fan,
        run_need(sel, facts) matches NeedView::Ready(s) ==> facts.root && s.fans.len()
            == s.live.len() && forall|i: int|
            0 <= i < s.fans.len() ==> (#[trigger] s.live[i]).index == s.fans[i].index,
{
    if let NeedView::Ready(s) = set_need(task, facts) {
        lemma_reading_has_index(facts.readings->0@, task.fan);
    }
    if let NeedView::Ready(s) = run_need(sel, facts) {
        lemma_live_matches(facts.readings->0@, s.fans);
    }
}

/// A speed that is held lies within the range of its fan, unless the user asked that it be
/// left alone.
pub proof fn held_speeds_are_in_range(task: SetTask, facts: Facts)
    requires
        !task.no_clamp,
    ensures
        set_need(task, facts) matches NeedView::Ready(s) ==> crate::fans::is_range(
            s.live[0].min_rpm,
            s.live[0].max_rpm,
        ) ==> crate::fans::in_range(s.target->0, s.live[0].min_rpm, s.live[0].max_rpm),
{
}

proof fn lemma_reading_has_index(readings: Seq<FanReading>, fan: u8)
    ensures
        reading_of(readings, fan) matches Some(r) ==> r.index == fan,
    decreases readings.len(),
{
    if readings.len() > 0 {
        lemma_reading_has_index(readings.skip(1), fan);
    }
}

proof fn lemma_live_matches(readings: Seq<FanReading>, plans: Seq<FanPlanView>)
    ensures
        live_of(readings, plans) matches Ok(live) ==> live.len() == plans.len() && forall|i: int|
            0 <= i < plans.len() ==> (#[trigger] live[i]).index == plans[i].index,
    decreases plans.len(),
{
    if plans.len() > 0 {
        lemma_live_matches(readings, plans.drop_last());
        lemma_reading_has_index(readings, plans.last().index);
    }
}

} // verus!
