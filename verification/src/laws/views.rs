//! Nothing is lost between the values that the functions handle and what their
//! contracts say of them.
use crate::control::{Action, Controller, Event, FanLabel, Phase};
use crate::daemon::{PlistItem, PlistNode};
use crate::prepare::{FanPlan, Need, Notice, Start};
use crate::probe::{FanProbe, Probe};
use crate::report::{Piece, SetEvent};
use crate::selection::FanSelection;
use crate::sensors::{Reading, SensorReading};
use crate::session::{ManualFanSession, SavedTarget};
use crate::smc::{KeyInfo, KeyValue, Opening, SmcKeyData};
use vstd::prelude::*;

verus! {

/// A list is spoken of item by item: as long as it is, and each item in its place.
pub proof fn lists_keep_their_items(
    temps: Seq<SensorReading>,
    readings: Seq<Reading>,
    fans: Seq<FanLabel>,
    events: Seq<SetEvent>,
    plans: Seq<FanPlan>,
    i: int,
)
    ensures
        crate::sensors::temps_view(temps).len() == temps.len(),
        crate::sensors::temperature_names(crate::sensors::temps_view(temps)).len() == temps.len(),
        0 <= i < temps.len() ==> crate::sensors::temps_view(temps)[i] == temps[i]@
            && crate::sensors::temperature_names(crate::sensors::temps_view(temps))[i]
            == temps[i].name@,
        crate::sensors::readings_view(readings).len() == readings.len(),
        crate::sensors::reading_names(readings).len() == readings.len(),
        0 <= i < readings.len() ==> crate::sensors::readings_view(readings)[i] == readings[i]@
            && crate::sensors::reading_names(readings)[i] == readings[i].name@,
        crate::control::labels_view(fans).len() == fans.len(),
        0 <= i < fans.len() ==> crate::control::labels_view(fans)[i] == fans[i]@,
        crate::control::events_view(events).len() == events.len(),
        0 <= i < events.len() ==> crate::control::events_view(events)[i] == events[i]@,
        crate::prepare::plans_view(plans).len() == plans.len(),
        0 <= i < plans.len() ==> crate::prepare::plans_view(plans)[i] == plans[i]@,
{
}

/// Texts in lists are spoken of item by item, and what is not there is not there.
pub proof fn lists_keep_their_texts(
    lines: Seq<String>,
    pieces: Seq<Piece>,
    names: Option<Vec<String>>,
    args: Seq<Option<String>>,
    i: int,
)
    ensures
        crate::report::lines_view(lines).len() == lines.len(),
        0 <= i < lines.len() ==> crate::report::lines_view(lines)[i] == lines[i]@,
        crate::report::line_view(pieces).len() == pieces.len(),
        0 <= i < pieces.len() ==> crate::report::line_view(pieces)[i] == pieces[i]@,
        crate::sensors::names_view(names) is Some <==> names is Some,
        names matches Some(v) ==> crate::sensors::names_view(names)->0.len() == v@.len() && (0 <= i
            < v@.len() ==> crate::sensors::names_view(names)->0[i] == v@[i]@),
        crate::daemon::arguments_view(args).len() == args.len(),
        0 <= i < args.len() && args[i] is Some ==> crate::daemon::arguments_view(args)[i] == Some(
            args[i]->0@,
        ),
        0 <= i < args.len() && args[i] is None ==> crate::daemon::arguments_view(args)[i] is None,
{
}

/// Readings are spoken of with all that is in them.
pub proof fn readings_keep_their_parts(s: SensorReading, r: Reading, label: FanLabel)
    ensures
        s@.name == s.name@ && s@.celsius == s.celsius,
        r@.name == r.name@ && r@.source == r.source && r@.value == r.value,
        r@.unit == r.unit@ && r@.timestamp_ms == r.timestamp_ms,
        label@.index == label.index && label@.mode_key_type == label.mode_key_type@,
        label@.min_rpm == label.min_rpm && label@.max_rpm == label.max_rpm,
{
}

/// Keys and records are spoken of with all that is in them.
pub proof fn keys_keep_their_parts(k: KeyInfo, v: KeyValue, d: SmcKeyData)
    ensures
        k@.data_type == k.data_type@ && k@.data_size == k.data_size,
        k@.data_attributes == k.data_attributes,
        v@.info == v.info && v@.bytes == v.bytes@,
        d@.key == d.key && d@.vers == d.vers && d@.p_limit_data == d.p_limit_data,
        d@.key_info == d.key_info && d@.result == d.result && d@.status == d.status,
        d@.data8 == d.data8 && d@.data32 == d.data32 && d@.bytes == d.bytes@,
{
}

/// A key is there if it is spoken of, and is the same.
pub open spec fn same_key(a: Option<KeyInfo>, b: Option<crate::smc::KeyInfoView>) -> bool {
    &&& a is Some <==> b is Some
    &&& a is Some ==> a->0@ == b->0
}

/// Probes and plans are spoken of with all that is in them.
pub proof fn probes_keep_their_parts(f: FanProbe, p: Probe, plan: FanPlan, i: int)
    ensures
        f@.index == f.index && f@.mode_key_casing == f.mode_key_casing,
        same_key(f.md, f@.md) && same_key(f.tg, f@.tg),
        same_key(f.mn, f@.mn) && same_key(f.mx, f@.mx),
        p@.fan_count == p.fan_count && same_key(p.ftst, p@.ftst),
        p@.fans.len() == p.fans@.len(),
        0 <= i < p.fans@.len() ==> p@.fans[i] == p.fans@[i]@,
        plan@.index == plan.index && plan@.casing == plan.casing,
        plan@.md == plan.md@ && plan@.tg == plan.tg@,
{
}

/// Sessions are spoken of with all that is in them.
pub proof fn sessions_keep_their_parts(s: ManualFanSession, t: SavedTarget)
    ensures
        s@.fan_index == s.fan_index && s@.mode_key == s.mode_key,
        s@.mode_type == s.mode_type@ && s@.mode_size == s.mode_size,
        s@.armed == s.armed && s@.restored == s.restored,
        s@.previous is Some <==> s.previous is Some,
        s.previous is Some ==> s@.previous->0 == s.previous->0@,
        t@.data_type == t.data_type && t@.data == t.data@,
{
}

/// A start is spoken of with all that is in it, and so is what is needed before it.
pub proof fn needs_keep_their_parts(s: Start, n: Need)
    ensures
        s@.fans == crate::prepare::plans_view(s.fans@) && s@.live == s.live@,
        s@.target == s.target && s@.allow == crate::sensors::names_view(s.allow),
        s@.notice is Some <==> s.notice is Some,
        s.notice is Some ==> s@.notice->0 == s.notice->0@,
        match n {
            Need::Root => n@ is Root,
            Need::Probe => n@ is Probe,
            Need::Readings => n@ is Readings,
            Need::Calibration { notice } => {
                &&& n@ is Calibration
                &&& n@->notice is Some <==> notice is Some
                &&& notice is Some ==> n@->notice->0 == notice->0@
            },
            Need::Refused(e) => n@ == crate::prepare::NeedView::Refused(e),
            Need::Smoke { live } => n@ is Smoke && n@->Smoke_live == live@,
            Need::Ready(s) => n@ == crate::prepare::NeedView::Ready(s@),
        },
{
}

/// Notices are spoken of with all that is in them.
pub proof fn notices_keep_their_parts(n: Notice)
    ensures
        match n {
            Notice::OutsideSpec { rpm, min_rpm, max_rpm } => n@ == (
            crate::prepare::NoticeView::OutsideSpec { rpm, min_rpm, max_rpm }),
            Notice::Clamped { from, to } => n@ == (crate::prepare::NoticeView::Clamped {
                from,
                to,
            }),
            Notice::HostMismatch => n@ is HostMismatch,
            Notice::NoCalibration => n@ is NoCalibration,
            Notice::HostNotControllable { reason } => n@ == (
            crate::prepare::NoticeView::HostNotControllable { reason: reason@ }),
            Notice::CountMismatch { probed, read } => n@ == (
            crate::prepare::NoticeView::CountMismatch { probed, read }),
        },
{
}

/// A controller is spoken of with all that is in it, and its phase with it.
pub proof fn controllers_keep_their_parts(c: Controller, p: Phase)
    ensures
        c@.fans == crate::control::labels_view(c.fans@) && c@.job == c.job,
        c@.allow == crate::sensors::names_view(c.allow) && c@.phase == c.phase@,
        c@.failures == c.failures && c@.announced == c.announced,
        match p {
            Phase::Arming { next } => p@ is Arming && p@->next == next,
            Phase::Writing { heat, targets } => p@ == (crate::control::PhaseView::Writing {
                heat,
                targets: targets@,
            }),
            Phase::Polling => p@ is Polling,
            Phase::Watching => p@ is Watching,
            Phase::Smoothing { positions } => p@ is Smoothing && p@->positions == positions@,
            Phase::Checking { heat } => p@ == (crate::control::PhaseView::Checking { heat }),
            Phase::ReArming { heat, lost } => p@ == (crate::control::PhaseView::ReArming {
                heat,
                lost: lost@,
            }),
            Phase::Evaluating { heat } => p@ == (crate::control::PhaseView::Evaluating { heat }),
            Phase::Resting => p@ is Resting,
            Phase::Restoring { cause } => p@ == (crate::control::PhaseView::Restoring { cause }),
            Phase::Over { reason } => p@ == (crate::control::PhaseView::Over { reason }),
        },
{
}

/// Actions and what came of them are spoken of with all that is in them.
pub proof fn actions_and_events_keep_their_parts(a: Action, e: Event)
    ensures
        match a {
            Action::Arm { fan } => a@ is Arm && a@->fan == fan,
            Action::WriteTargets { targets } => a@ is WriteTargets && a@->targets == targets@,
            Action::Poll => a@ is Poll,
            Action::ReadTemps => a@ is ReadTemps,
            Action::Smooth { positions } => a@ is Smooth && a@->positions == positions@,
            Action::CheckModes => a@ is CheckModes,
            Action::ReArm { fans } => a@ is ReArm && a@->fans == fans@,
            Action::Evaluate { heat } => a@ is Evaluate && a@->heat == heat,
            Action::Sleep { ms } => a@ is Sleep && a@->ms == ms,
            Action::Restore => a@ is Restore,
            Action::Exit { code } => a@ is Exit && a@->code == code,
            Action::Fail => a@ is Fail,
        },
        match e {
            Event::Armed { ok } => e@ == (crate::control::EventView::Armed { ok }),
            Event::Written { ok, now_ms } => e@ == (crate::control::EventView::Written {
                ok,
                now_ms,
            }),
            Event::Polled { stop, expired } => e@ == (crate::control::EventView::Polled {
                stop,
                expired,
            }),
            Event::Temps { temps } => e@ is Temps && e@->temps == crate::sensors::temps_view(
                temps@,
            ),
            Event::Smoothed { values } => e@ is Smoothed && e@->values == values@,
            Event::Modes { modes } => e@ is Modes && e@->modes == modes@,
            Event::ReArmed { regained } => e@ is ReArmed && e@->regained == regained@,
            Event::Evaluated { rpm } => e@ == (crate::control::EventView::Evaluated { rpm }),
            Event::Slept => e@ is Slept,
            Event::Restored { outcomes, stop } => e@ == (crate::control::EventView::Restored {
                outcomes: outcomes@,
                stop,
            }),
        },
{
}

/// What a loop tells, and the pieces that it is shown in, are spoken of with all that
/// is in them.
pub proof fn tellings_keep_their_parts(e: SetEvent, p: Piece)
    ensures
        match e {
            SetEvent::Armed { fan, mode_key_type } => e@ == (crate::report::SetEventView::Armed {
                fan,
                mode_key_type: mode_key_type@,
            }),
            SetEvent::TargetWritten { fan, target_rpm } => e@ == (
            crate::report::SetEventView::TargetWritten { fan, target_rpm }),
            SetEvent::Tick { t, max_temp_c, target_rpm } => e@ == (
            crate::report::SetEventView::Tick { t, max_temp_c, target_rpm }),
            SetEvent::Trip { sensor, celsius } => e@ == (crate::report::SetEventView::Trip {
                sensor: sensor@,
                celsius,
            }),
            SetEvent::RestoreStarted => e@ is RestoreStarted,
            SetEvent::RestoreDone => e@ is RestoreDone,
            SetEvent::RestoreFailed => e@ is RestoreFailed,
            SetEvent::Exit { code, reason } => e@ == (crate::report::SetEventView::Exit {
                code,
                reason,
            }),
        },
        match p {
            Piece::Text(s) => p@ == crate::report::PieceView::Text(s@),
            Piece::Number { value, decimals, width } => p@ == (
            crate::report::PieceView::Number { value, decimals, width }),
        },
{
}

/// Selections, values of property lists and the opening of the service are spoken of
/// with all that is in them.
pub proof fn choices_keep_their_parts(
    s: FanSelection,
    item: PlistItem,
    node: PlistNode,
    o: Opening,
    i: int,
)
    ensures
        match s {
            FanSelection::All => s@ is All,
            FanSelection::Only(v) => s@ is Only && s@->Only_0 == v@,
        },
        match item {
            PlistItem::Text(t) => item@ == crate::daemon::NodeView::Text(t@),
            PlistItem::Flag(b) => item@ == crate::daemon::NodeView::Flag(b),
            PlistItem::Texts(v) => item@ is List && item@->List_0.len() == v@.len() && (0 <= i
                < v@.len() ==> item@->List_0[i] == Some(v@[i]@)),
        },
        match node {
            PlistNode::Text(t) => node@ == crate::daemon::NodeView::Text(t@),
            PlistNode::Flag(b) => node@ == crate::daemon::NodeView::Flag(b),
            PlistNode::List(v) => node@ == crate::daemon::NodeView::List(
                crate::daemon::arguments_view(v@),
            ),
            PlistNode::Other => node@ is Other,
        },
        match o {
            Opening::Match => o@ is Match,
            Opening::Find => o@ is Find,
            Opening::Open { service } => o@ is Open && o@->service == service,
            Opening::Ready(c) => o@ == crate::smc::OpeningView::Ready(c),
            Opening::Failed(e) => o@ == crate::smc::OpeningView::Failed(e@),
        },
{
}

} // verus!
