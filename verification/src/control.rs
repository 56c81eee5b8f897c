//! The loop that holds fans: what to do next, and what becomes of each outcome.
//!
//! A controller never touches a machine. `action` says what is to be done, and `step`
//! takes in what came of it. Fans that were taken over are given back whatever happens
//! on the way.
use crate::binary64::Binary64;
use crate::fans::clamp_rpm;
use crate::report::{ExitReason, SetEvent};
use crate::sensors::{find_trip, hottest, scope_of, SensorReading};
use vstd::prelude::*;
use vstd::string::*;

verus! {

/// How long a loop rests between two rounds.
pub const REST_MS: u64 = 1000;

/// How many failures in a row to take a fan over again end a loop.
pub const FAILURES_TO_GIVE_UP: u8 = 3;

/// What the fans are to do.
#[derive(Debug, Clone, Copy, PartialEq, Eq, Structural)]
pub enum Job {
    /// Keep one speed.
    Hold { target: Binary64 },
    /// Follow the temperature.
    Follow,
}

/// A fan as it is spoken of in events, and the range that it is built for.
#[derive(Debug)]
pub struct FanLabel {
    pub index: u8,
    pub mode_key_type: String,
    pub min_rpm: Binary64,
    pub max_rpm: Binary64,
}

/// Why the fans are given back.
#[derive(Debug, Clone, Copy, PartialEq, Eq, Structural)]
pub enum Cause {
    /// A sensor got too hot.
    Trip,
    /// Manual mode was lost and could not be had again.
    ModeLost,
    /// The user stopped the loop or the time was up.
    Finished,
    /// A fan could not be taken over or steered.
    Broken,
}

/// Where a controller stands.
#[derive(Debug)]
pub enum Phase {
    /// The fans before `next` are taken over.
    Arming { next: usize },
    /// The targets are about to be written.
    Writing { heat: Binary64, targets: Vec<Binary64> },
    Polling,
    /// Waits for the temperatures.
    Watching,
    /// Waits for the smoothed temperatures at these positions.
    Smoothing { positions: Vec<usize> },
    /// Waits for the modes of the fans.
    Checking { heat: Binary64 },
    /// These fans are about to be taken over again.
    ReArming { heat: Binary64, lost: Vec<usize> },
    /// Waits for the speeds that go with the temperature.
    Evaluating { heat: Binary64 },
    Resting,
    Restoring { cause: Cause },
    /// All is over, for this reason; without one for an error on the way.
    Over { reason: Option<ExitReason> },
}

/// What is to be done next.
#[derive(Debug)]
pub enum Action {
    Arm { fan: usize },
    WriteTargets { targets: Vec<Binary64> },
    Poll,
    ReadTemps,
    Smooth { positions: Vec<usize> },
    CheckModes,
    ReArm { fans: Vec<usize> },
    Evaluate { heat: Binary64 },
    Sleep { ms: u64 },
    Restore,
    Exit { code: i32 },
    /// End with the error that came up on the way.
    Fail,
}

/// What came of an action.
#[derive(Debug)]
pub enum Event {
    Armed { ok: bool },
    Written { ok: bool, now_ms: u64 },
    Polled { stop: bool, expired: bool },
    Temps { temps: Vec<SensorReading> },
    /// The smoothed temperatures, in the order of the positions.
    Smoothed { values: Vec<Binary64> },
    /// The mode of each fan, where it could be read.
    Modes { modes: Vec<Option<Binary64>> },
    /// Whether each of the lost fans could be taken over again.
    ReArmed { regained: Vec<bool> },
    /// The speed that goes with the temperature.
    Evaluated { rpm: Binary64 },
    Slept,
    /// What came of giving each fan back (nothing where the attempt failed), and whether
    /// the user had stopped the loop.
    Restored { outcomes: Vec<Option<bool>>, stop: bool },
}

/// A control loop.
#[derive(Debug)]
pub struct Controller {
    pub fans: Vec<FanLabel>,
    pub job: Job,
    /// The names of the sensors that count; every sensor does without them.
    pub allow: Option<Vec<String>>,
    pub phase: Phase,
    /// The failures in a row to take fans over again.
    pub failures: u8,
    /// Whether the first targets were spoken of.
    pub announced: bool,
}

pub ghost struct FanLabelView {
    pub index: u8,
    pub mode_key_type: Seq<char>,
    pub min_rpm: Binary64,
    pub max_rpm: Binary64,
}

pub ghost enum PhaseView {
    Arming { next: nat },
    Writing { heat: Binary64, targets: Seq<Binary64> },
    Polling,
    Watching,
    Smoothing { positions: Seq<usize> },
    Checking { heat: Binary64 },
    ReArming { heat: Binary64, lost: Seq<usize> },
    Evaluating { heat: Binary64 },
    Resting,
    Restoring { cause: Cause },
    Over { reason: Option<ExitReason> },
}

pub ghost enum ActionView {
    Arm { fan: nat },
    WriteTargets { targets: Seq<Binary64> },
    Poll,
    ReadTemps,
    Smooth { positions: Seq<usize> },
    CheckModes,
    ReArm { fans: Seq<usize> },
    Evaluate { heat: Binary64 },
    Sleep { ms: u64 },
    Restore,
    Exit { code: i32 },
    Fail,
}

pub ghost enum EventView {
    Armed { ok: bool },
    Written { ok: bool, now_ms: u64 },
    Polled { stop: bool, expired: bool },
    Temps { temps: Seq<crate::sensors::SensorReadingView> },
    Smoothed { values: Seq<Binary64> },
    Modes { modes: Seq<Option<Binary64>> },
    ReArmed { regained: Seq<bool> },
    Evaluated { rpm: Binary64 },
    Slept,
    Restored { outcomes: Seq<Option<bool>>, stop: bool },
}

pub ghost struct ControllerView {
    pub fans: Seq<FanLabelView>,
    pub job: Job,
    pub allow: Option<Seq<Seq<char>>>,
    pub phase: PhaseView,
    pub failures: u8,
    pub announced: bool,
}

impl View for FanLabel {
    type V = FanLabelView;

    open spec fn view(&self) -> FanLabelView {
        FanLabelView {
            index: self.index,
            mode_key_type: self.mode_key_type@,
            min_rpm: self.min_rpm,
            max_rpm: self.max_rpm,
        }
    }
}

impl View for Phase {
    type V = PhaseView;

    open spec fn view(&self) -> PhaseView {
        match *self {
            Phase::Arming { next } => PhaseView::Arming { next: next as nat },
            Phase::Writing { heat, targets } => PhaseView::Writing { heat, targets: targets@ },
            Phase::Polling => PhaseView::Polling,
            Phase::Watching => PhaseView::Watching,
            Phase::Smoothing { positions } => PhaseView::Smoothing { positions: positions@ },
            Phase::Checking { heat } => PhaseView::Checking { heat },
            Phase::ReArming { heat, lost } => PhaseView::ReArming { heat, lost: lost@ },
            Phase::Evaluating { heat } => PhaseView::Evaluating { heat },
            Phase::Resting => PhaseView::Resting,
            Phase::Restoring { cause } => PhaseView::Restoring { cause },
            Phase::Over { reason } => PhaseView::Over { reason },
        }
    }
}

impl View for Action {
    type V = ActionView;

    open spec fn view(&self) -> ActionView {
        match *self {
            Action::Arm { fan } => ActionView::Arm { fan: fan as nat },
            Action::WriteTargets { targets } => ActionView::WriteTargets { targets: targets@ },
            Action::Poll => ActionView::Poll,
            Action::ReadTemps => ActionView::ReadTemps,
            Action::Smooth { positions } => ActionView::Smooth { positions: positions@ },
            Action::CheckModes => ActionView::CheckModes,
            Action::ReArm { fans } => ActionView::ReArm { fans: fans@ },
            Action::Evaluate { heat } => ActionView::Evaluate { heat },
            Action::Sleep { ms } => ActionView::Sleep { ms },
            Action::Restore => ActionView::Restore,
            Action::Exit { code } => ActionView::Exit { code },
            Action::Fail => ActionView::Fail,
        }
    }
}

impl View for Event {
    type V = EventView;

    open spec fn view(&self) -> EventView {
        match *self {
            Event::Armed { ok } => EventView::Armed { ok },
            Event::Written { ok, now_ms } => EventView::Written { ok, now_ms },
            Event::Polled { stop, expired } => EventView::Polled { stop, expired },
            Event::Temps { temps } => EventView::Temps {
                temps: crate::sensors::temps_view(temps@),
            },
            Event::Smoothed { values } => EventView::Smoothed { values: values@ },
            Event::Modes { modes } => EventView::Modes { modes: modes@ },
            Event::ReArmed { regained } => EventView::ReArmed { regained: regained@ },
            Event::Evaluated { rpm } => EventView::Evaluated { rpm },
            Event::Slept => EventView::Slept,
            Event::Restored { outcomes, stop } => EventView::Restored {
                outcomes: outcomes@,
                stop,
            },
        }
    }
}

/// The fans, over their views.
pub open spec fn labels_view(fans: Seq<FanLabel>) -> Seq<FanLabelView> {
    Seq::new(fans.len(), |i: int| fans[i]@)
}

/// The events, over their views.
pub open spec fn events_view(events: Seq<SetEvent>) -> Seq<crate::report::SetEventView> {
    Seq::new(events.len(), |i: int| events[i]@)
}

impl View for Controller {
    type V = ControllerView;

    open spec fn view(&self) -> ControllerView {
        ControllerView {
            fans: labels_view(self.fans@),
            job: self.job,
            allow: crate::sensors::names_view(self.allow),
            phase: self.phase@,
            failures: self.failures,
            announced: self.announced,
        }
    }
}

/// What follows once the fans before `next` are taken over.
pub open spec fn after_arming(job: Job, n: nat, next: nat) -> PhaseView {
    if next < n {
        PhaseView::Arming { next }
    } else {
        match job {
            Job::Hold { target } => PhaseView::Writing {
                heat: crate::sensors::minus_infinity(),
                targets: Seq::new(n, |i: int| target),
            },
            Job::Follow => PhaseView::Polling,
        }
    }
}

/// A controller that has done nothing yet.
pub open spec fn fresh(
    fans: Seq<FanLabelView>,
    job: Job,
    allow: Option<Seq<Seq<char>>>,
) -> ControllerView {
    ControllerView {
        fans,
        job,
        allow,
        phase: after_arming(job, fans.len(), 0),
        failures: 0,
        announced: false,
    }
}

/// A mode that reads as on.
pub open spec fn mode_is_on(modes: Seq<Option<Binary64>>, i: int) -> bool {
    i < modes.len() && modes[i] is Some && modes[i]->0.reaches(crate::session::half())
}

/// Those of the first `n` fans whose mode does not read as on, in order.
pub open spec fn lost_fans(modes: Seq<Option<Binary64>>, n: nat) -> Seq<usize>
    decreases n,
{
    if n == 0 {
        seq![]
    } else if mode_is_on(modes, n - 1) {
        lost_fans(modes, (n - 1) as nat)
    } else {
        lost_fans(modes, (n - 1) as nat).push((n - 1) as usize)
    }
}

/// The speed of each fan that goes with a speed of the curve: within the fan's range.
pub open spec fn followed_targets(fans: Seq<FanLabelView>, rpm: Binary64) -> Seq<Binary64> {
    Seq::new(
        fans.len(),
        |i: int| crate::fans::clamped(rpm, fans[i].min_rpm, fans[i].max_rpm),
    )
}

/// All fans were given back: each attempt came to its end, and well.
pub open spec fn every_one_back(outcomes: Seq<Option<bool>>) -> bool {
    forall|i: int| 0 <= i < outcomes.len() ==> outcomes[i] == Some(true)
}

/// The targets of the first `n` fans, as they are spoken of.
pub open spec fn target_events(
    fans: Seq<FanLabelView>,
    targets: Seq<Binary64>,
    n: nat,
) -> Seq<crate::report::SetEventView> {
    Seq::new(
        n,
        |i: int|
            crate::report::SetEventView::TargetWritten {
                fan: fans[i].index,
                target_rpm: targets[i],
            },
    )
}

/// The ticks of the first `n` fans.
pub open spec fn tick_events(
    t: u64,
    heat: Binary64,
    targets: Seq<Binary64>,
    n: nat,
) -> Seq<crate::report::SetEventView> {
    Seq::new(
        n,
        |i: int|
            crate::report::SetEventView::Tick { t, max_temp_c: heat, target_rpm: targets[i] },
    )
}

/// The sensor that a controller trips on: the first one that is too hot for a fan that
/// is held, the last one for fans that follow the temperature.
pub open spec fn trip_in(
    c: ControllerView,
    temps: Seq<crate::sensors::SensorReadingView>,
) -> Option<int> {
    match c.job {
        Job::Hold { .. } => crate::sensors::first_trip(c.allow, temps),
        Job::Follow => crate::sensors::last_trip(c.allow, temps),
    }
}

/// Why a loop ended that gave its fans back.
pub open spec fn ending(cause: Cause, ok: bool, stop: bool) -> ExitReason {
    if !ok {
        ExitReason::RestoreFailed
    } else if cause == Cause::Trip {
        ExitReason::SensorTrip
    } else if cause == Cause::ModeLost {
        ExitReason::ModeLost
    } else if stop {
        ExitReason::Sigint
    } else {
        ExitReason::Ttl
    }
}

/// A controller in another phase.
pub open spec fn moved(c: ControllerView, phase: PhaseView) -> ControllerView {
    ControllerView { phase, ..c }
}

/// What follows once it is known which fans were lost in a round.
pub open spec fn after_check(c: ControllerView, heat: Binary64) -> ControllerView {
    ControllerView {
        phase: if heat.finite() {
            PhaseView::Evaluating { heat }
        } else {
            PhaseView::Resting
        },
        failures: 0,
        ..c
    }
}

/// What becomes of a controller that stands at taking fans over.
pub open spec fn armed_one(c: ControllerView, next: nat, ok: bool) -> (
    ControllerView,
    Seq<crate::report::SetEventView>,
) {
    if ok && next < c.fans.len() {
        (
            moved(c, after_arming(c.job, c.fans.len(), next + 1)),
            seq![
                crate::report::SetEventView::Armed {
                    fan: c.fans[next as int].index,
                    mode_key_type: c.fans[next as int].mode_key_type,
                },
            ],
        )
    } else if next == 0 {
        (moved(c, PhaseView::Over { reason: None }), seq![])
    } else {
        (moved(c, PhaseView::Restoring { cause: Cause::Broken }), seq![])
    }
}

/// What becomes of a controller that wrote its targets.
pub open spec fn wrote_targets(
    c: ControllerView,
    heat: Binary64,
    targets: Seq<Binary64>,
    ok: bool,
    now_ms: u64,
) -> (ControllerView, Seq<crate::report::SetEventView>) {
    if !ok {
        (moved(c, PhaseView::Restoring { cause: Cause::Broken }), seq![])
    } else {
        let n = if targets.len() < c.fans.len() {
            targets.len()
        } else {
            c.fans.len()
        };
        match c.job {
            Job::Hold { .. } => (
                ControllerView { phase: PhaseView::Polling, announced: true, ..c },
                target_events(c.fans, targets, n),
            ),
            Job::Follow => (
                ControllerView { phase: PhaseView::Resting, announced: true, ..c },
                if c.announced {
                    tick_events(now_ms, heat, targets, n)
                } else {
                    target_events(c.fans, targets, n) + tick_events(now_ms, heat, targets, n)
                },
            ),
        }
    }
}

/// What becomes of a controller that got the temperatures.
pub open spec fn saw_temps(
    c: ControllerView,
    temps: Seq<crate::sensors::SensorReadingView>,
    positions: Seq<usize>,
) -> (ControllerView, Seq<crate::report::SetEventView>) {
    match trip_in(c, temps) {
        Some(i) => (
            moved(c, PhaseView::Restoring { cause: Cause::Trip }),
            seq![
                crate::report::SetEventView::Trip {
                    sensor: temps[i].name,
                    celsius: temps[i].celsius,
                },
                crate::report::SetEventView::RestoreStarted,
            ],
        ),
        None => match c.job {
            Job::Hold { .. } => (moved(c, PhaseView::Resting), seq![]),
            Job::Follow => (moved(c, PhaseView::Smoothing { positions }), seq![]),
        },
    }
}

/// What becomes of a controller that tried to take lost fans over again.
pub open spec fn tried_again(
    c: ControllerView,
    heat: Binary64,
    lost: Seq<usize>,
    ok: Seq<bool>,
) -> (ControllerView, Seq<crate::report::SetEventView>) {
    if ok.len() == lost.len() && forall|i: int| 0 <= i < ok.len() ==> ok[i] {
        (after_check(c, heat), seq![])
    } else if c.failures + 1 >= FAILURES_TO_GIVE_UP {
        (
            ControllerView {
                phase: PhaseView::Restoring { cause: Cause::ModeLost },
                failures: FAILURES_TO_GIVE_UP,
                ..c
            },
            seq![crate::report::SetEventView::RestoreStarted],
        )
    } else {
        (
            ControllerView { phase: PhaseView::Resting, failures: (c.failures + 1) as u8, ..c },
            seq![],
        )
    }
}

/// What becomes of a controller that gave its fans back.
pub open spec fn gave_back(c: ControllerView, cause: Cause, ok: bool, stop: bool) -> (
    ControllerView,
    Seq<crate::report::SetEventView>,
) {
    if cause == Cause::Broken {
        (moved(c, PhaseView::Over { reason: None }), seq![])
    } else {
        let reason = ending(cause, ok, stop);
        (
            moved(c, PhaseView::Over { reason: Some(reason) }),
            seq![
                if ok {
                    crate::report::SetEventView::RestoreDone
                } else {
                    crate::report::SetEventView::RestoreFailed
                },
                crate::report::SetEventView::Exit { code: reason.exit_code(), reason },
            ],
        )
    }
}

/// What becomes of a controller when something came of its action, and what it tells.
/// What no action asked for changes nothing.
pub open spec fn advanced(c: ControllerView, e: EventView) -> (
    ControllerView,
    Seq<crate::report::SetEventView>,
) {
    match (c.phase, e) {
        (PhaseView::Arming { next }, EventView::Armed { ok }) => armed_one(c, next, ok),
        (PhaseView::Writing { heat, targets }, EventView::Written { ok, now_ms }) => wrote_targets(
            c,
            heat,
            targets,
            ok,
            now_ms,
        ),
        (PhaseView::Polling, EventView::Polled { stop, expired }) => if stop || expired {
            (
                moved(c, PhaseView::Restoring { cause: Cause::Finished }),
                seq![crate::report::SetEventView::RestoreStarted],
            )
        } else {
            (moved(c, PhaseView::Watching), seq![])
        },
        (PhaseView::Watching, EventView::Temps { temps }) => saw_temps(
            c,
            temps,
            crate::sensors::positions_that_count(
                crate::sensors::temperature_names(temps),
                c.allow,
            ),
        ),
        (PhaseView::Smoothing { .. }, EventView::Smoothed { values }) => (
            moved(c, PhaseView::Checking { heat: crate::sensors::hottest_of(values) }),
            seq![],
        ),
        (PhaseView::Checking { heat }, EventView::Modes { modes }) => {
            let lost = lost_fans(modes, c.fans.len());
            if lost.len() == 0 {
                (after_check(c, heat), seq![])
            } else {
                (moved(c, PhaseView::ReArming { heat, lost }), seq![])
            }
        },
        (PhaseView::ReArming { heat, lost }, EventView::ReArmed { regained }) => tried_again(
            c,
            heat,
            lost,
            regained,
        ),
        (PhaseView::Evaluating { heat }, EventView::Evaluated { rpm }) => (
            moved(c, PhaseView::Writing { heat, targets: followed_targets(c.fans, rpm) }),
            seq![],
        ),
        (PhaseView::Resting, EventView::Slept) => (moved(c, PhaseView::Polling), seq![]),
        (PhaseView::Restoring { cause }, EventView::Restored { outcomes, stop }) => gave_back(
            c,
            cause,
            outcomes.len() == c.fans.len() && every_one_back(outcomes),
            stop,
        ),
        _ => (c, seq![]),
    }
}

impl ControllerView {
    /// What is to be done next.
    pub open spec fn action(self) -> ActionView {
        match self.phase {
            PhaseView::Arming { next } => ActionView::Arm { fan: next },
            PhaseView::Writing { targets, .. } => ActionView::WriteTargets { targets },
            PhaseView::Polling => ActionView::Poll,
            PhaseView::Watching => ActionView::ReadTemps,
            PhaseView::Smoothing { positions } => ActionView::Smooth { positions },
            PhaseView::Checking { .. } => ActionView::CheckModes,
            PhaseView::ReArming { lost, .. } => ActionView::ReArm { fans: lost },
            PhaseView::Evaluating { heat } => ActionView::Evaluate { heat },
            PhaseView::Resting => ActionView::Sleep { ms: REST_MS },
            PhaseView::Restoring { .. } => ActionView::Restore,
            PhaseView::Over { reason } => match reason {
                Some(r) => ActionView::Exit { code: r.exit_code() },
                None => ActionView::Fail,
            },
        }
    }
}

fn same_targets(v: &Vec<Binary64>) -> (r: Vec<Binary64>)
    ensures
        r@ == v@,
{
    let mut out: Vec<Binary64> = Vec::new();
    let mut i: usize = 0;
    while i < v.len()
        invariant
            i <= v@.len(),
            out@ == v@.take(i as int),
        decreases v@.len() - i,
    {
        out.push(v[i]);
        i = i + 1;
        assert(v@.take(i as int) =~= v@.take(i - 1).push(v@[i - 1]));
    }
    assert(v@.take(i as int) =~= v@);
    out
}

fn same_positions(v: &Vec<usize>) -> (r: Vec<usize>)
    ensures
        r@ == v@,
{
    let mut out: Vec<usize> = Vec::new();
    let mut i: usize = 0;
    while i < v.len()
        invariant
            i <= v@.len(),
            out@ == v@.take(i as int),
        decreases v@.len() - i,
    {
        out.push(v[i]);
        i = i + 1;
        assert(v@.take(i as int) =~= v@.take(i - 1).push(v@[i - 1]));
    }
    assert(v@.take(i as int) =~= v@);
    out
}

/// What follows once the fans before `next` are taken over.
fn phase_after_arming(job: Job, n: usize, next: usize) -> (r: Phase)
    ensures
        r@ == after_arming(job, n as nat, next as nat),
{
    if next < n {
        return Phase::Arming { next };
    }
    match job {
        Job::Hold { target } => {
            let mut targets: Vec<Binary64> = Vec::new();
            let mut i: usize = 0;
            while i < n
                invariant
                    i <= n,
                    targets@ == Seq::new(i as nat, |k: int| target),
                decreases n - i,
            {
                targets.push(target);
                i = i + 1;
                assert(targets@ =~= Seq::new(i as nat, |k: int| target));
            }
            Phase::Writing { heat: Binary64 { bits: 0xfff0_0000_0000_0000 }, targets }
        },
        Job::Follow => Phase::Polling,
    }
}

/// The fans whose mode does not read as on.
fn find_lost(modes: &Vec<Option<Binary64>>, n: usize) -> (r: Vec<usize>)
    ensures
        r@ == lost_fans(modes@, n as nat),
{
    let mut lost: Vec<usize> = Vec::new();
    let mut i: usize = 0;
    while i < n
        invariant
            i <= n,
            lost@ == lost_fans(modes@, i as nat),
        decreases n - i,
    {
        let mut on: bool = false;
        if i < modes.len() {
            if let Some(v) = &modes[i] {
                on = v.ge(&Binary64 { bits: 0x3fe0_0000_0000_0000 });
            }
        }
        assert(on == mode_is_on(modes@, i as int));
        if !on {
            lost.push(i);
        }
        i = i + 1;
    }
    lost
}

fn all_true(v: &Vec<bool>) -> (r: bool)
    ensures
        r == forall|i: int| 0 <= i < v@.len() ==> v@[i],
{
    let mut i: usize = 0;
    while i < v.len()
        invariant
            i <= v@.len(),
            forall|k: int| 0 <= k < i ==> v@[k],
        decreases v@.len() - i,
    {
        if !v[i] {
            assert(!v@[i as int]);
            return false;
        }
        i = i + 1;
    }
    true
}

impl Controller {
    /// A controller that has done nothing yet.
    pub fn new(fans: Vec<FanLabel>, job: Job, allow: Option<Vec<String>>) -> (r: Controller)
        ensures
            r@ == fresh(labels_view(fans@), job, crate::sensors::names_view(allow)),
    {
        let phase = phase_after_arming(job, fans.len(), 0);
        Controller { fans, job, allow, phase, failures: 0, announced: false }
    }

    /// What is to be done next.
    pub fn action(&self) -> (r: Action)
        ensures
            r@ == self@.action(),
    {
        match &self.phase {
            Phase::Arming { next } => Action::Arm { fan: *next },
            Phase::Writing { targets, .. } => Action::WriteTargets {
                targets: same_targets(targets),
            },
            Phase::Polling => Action::Poll,
            Phase::Watching => Action::ReadTemps,
            Phase::Smoothing { positions } => Action::Smooth {
                positions: same_positions(positions),
            },
            Phase::Checking { .. } => Action::CheckModes,
            Phase::ReArming { lost, .. } => Action::ReArm { fans: same_positions(lost) },
            Phase::Evaluating { heat } => Action::Evaluate { heat: *heat },
            Phase::Resting => Action::Sleep { ms: REST_MS },
            Phase::Restoring { .. } => Action::Restore,
            Phase::Over { reason } => match reason {
                Some(r) => Action::Exit { code: r.code() },
                None => Action::Fail,
            },
        }
    }

    /// Takes in what came of an action, and tells what happened. What no action asked
    /// for changes nothing.
    pub fn step(&mut self, event: &Event) -> (r: Vec<SetEvent>)
        ensures
            (final(self)@, events_view(r@)) == advanced(old(self)@, event@),
            old(self).phase is Smoothing && event is Smoothed ==> final(self).phase is Checking
                && crate::laws::steering::highest(
                final(self).phase->Checking_heat,
                event->values@,
            ),
            old(self).phase is Evaluating && event is Evaluated ==> final(self).phase is Writing
                && final(self).phase->targets@.len() == old(self).fans@.len() && forall|i: int|
                0 <= i < old(self).fans@.len() ==> crate::laws::steering::moved_into(
                    #[trigger] final(self).phase->targets@[i],
                    event->rpm,
                    old(self).fans@[i].min_rpm,
                    old(self).fans@[i].max_rpm,
                ),
    {
        let mut told: Vec<SetEvent> = Vec::new();
        let n: usize = self.fans.len();
        match (&self.phase, event) {
            (Phase::Arming { next }, Event::Armed { ok }) => {
                let k: usize = *next;
                if *ok && k < n {
                    told.push(
                        SetEvent::Armed {
                            fan: self.fans[k].index,
                            mode_key_type: self.fans[k].mode_key_type.clone(),
                        },
                    );
                    self.phase = phase_after_arming(self.job, n, k + 1);
                } else if k == 0 {
                    self.phase = Phase::Over { reason: None };
                } else {
                    self.phase = Phase::Restoring { cause: Cause::Broken };
                }
            },
            (Phase::Writing { heat, targets }, Event::Written { ok, now_ms }) => {
                if !*ok {
                    self.phase = Phase::Restoring { cause: Cause::Broken };
                } else {
                    match self.job {
                        Job::Hold { .. } => {
                            told = tell_targets(&self.fans, targets);
                            self.phase = Phase::Polling;
                        },
                        Job::Follow => {
                            if !self.announced {
                                told = tell_targets(&self.fans, targets);
                            }
                            tell_ticks(&mut told, *now_ms, *heat, targets, n);
                            self.phase = Phase::Resting;
                        },
                    }
                    self.announced = true;
                }
            },
            (Phase::Polling, Event::Polled { stop, expired }) => {
                if *stop || *expired {
                    told.push(SetEvent::RestoreStarted);
                    self.phase = Phase::Restoring { cause: Cause::Finished };
                } else {
                    self.phase = Phase::Watching;
                }
            },
            (Phase::Watching, Event::Temps { temps }) => {
                let holds: bool = match self.job {
                    Job::Hold { .. } => true,
                    Job::Follow => false,
                };
                match find_trip(temps, &self.allow, !holds) {
                    Some(i) => {
                        told.push(
                            SetEvent::Trip {
                                sensor: temps[i].name.clone(),
                                celsius: temps[i].celsius,
                            },
                        );
                        told.push(SetEvent::RestoreStarted);
                        self.phase = Phase::Restoring { cause: Cause::Trip };
                    },
                    None => {
                        if holds {
                            self.phase = Phase::Resting;
                        } else {
                            let positions = scope_of(temps, &self.allow);
                            self.phase = Phase::Smoothing { positions };
                        }
                    },
                }
            },
            (Phase::Smoothing { .. }, Event::Smoothed { values }) => {
                self.phase = Phase::Checking { heat: hottest(values) };
            },
            (Phase::Checking { heat }, Event::Modes { modes }) => {
                let h: Binary64 = *heat;
                let lost = find_lost(modes, n);
                if lost.len() == 0 {
                    self.go_on(h);
                } else {
                    self.phase = Phase::ReArming { heat: h, lost };
                }
            },
            (Phase::ReArming { heat, lost }, Event::ReArmed { regained }) => {
                let h: Binary64 = *heat;
                if regained.len() == lost.len() && all_true(regained) {
                    self.go_on(h);
                } else if self.failures >= FAILURES_TO_GIVE_UP - 1 {
                    told.push(SetEvent::RestoreStarted);
                    self.failures = FAILURES_TO_GIVE_UP;
                    self.phase = Phase::Restoring { cause: Cause::ModeLost };
                } else {
                    self.failures = self.failures + 1;
                    self.phase = Phase::Resting;
                }
            },
            (Phase::Evaluating { heat }, Event::Evaluated { rpm }) => {
                self.phase = Phase::Writing { heat: *heat, targets: follow(&self.fans, *rpm) };
            },
            (Phase::Resting, Event::Slept) => {
                self.phase = Phase::Polling;
            },
            (Phase::Restoring { cause }, Event::Restored { outcomes, stop }) => {
                let c: Cause = *cause;
                let ok: bool = outcomes.len() == n && all_given_back(outcomes);
                if c == Cause::Broken {
                    self.phase = Phase::Over { reason: None };
                } else {
                    let reason: ExitReason = why_ended(c, ok, *stop);
                    if ok {
                        told.push(SetEvent::RestoreDone);
                    } else {
                        told.push(SetEvent::RestoreFailed);
                    }
                    told.push(SetEvent::Exit { code: reason.code(), reason });
                    self.phase = Phase::Over { reason: Some(reason) };
                }
            },
            _ => {},
        }
        proof {
            let expected = advanced(old(self)@, event@);
            assert(events_view(told@) =~= expected.1);
            assert(self@.fans =~= expected.0.fans);
            if let Event::Smoothed { values } = event {
                crate::laws::steering::lemma_highest(values@);
            }
            if old(self).phase is Evaluating && event is Evaluated {
                let fans = old(self).fans@;
                let targets = self.phase->targets@;
                assert(targets == expected.0.phase->Writing_targets);
                assert forall|i: int| 0 <= i < fans.len() implies crate::laws::steering::moved_into(
                    #[trigger] targets[i],
                    event->rpm,
                    fans[i].min_rpm,
                    fans[i].max_rpm,
                ) by {
                    assert(labels_view(fans)[i] == fans[i]@);
                }
            }
        }
        told
    }

    /// Goes on with a round in which all fans are held.
    fn go_on(&mut self, heat: Binary64)
        ensures
            final(self)@ == after_check(old(self)@, heat),
    {
        self.failures = 0;
        self.phase = if heat.is_finite() {
            Phase::Evaluating { heat }
        } else {
            Phase::Resting
        };
    }
}

/// Whether all fans were given back: each attempt came to its end, and well.
pub fn all_given_back(outcomes: &Vec<Option<bool>>) -> (r: bool)
    ensures
        r == forall|i: int| 0 <= i < outcomes@.len() ==> outcomes@[i] == Some(true),
{
    let mut i: usize = 0;
    while i < outcomes.len()
        invariant
            i <= outcomes@.len(),
            forall|k: int| 0 <= k < i ==> outcomes@[k] == Some(true),
        decreases outcomes@.len() - i,
    {
        match outcomes[i] {
            Some(true) => {},
            _ => {
                assert(outcomes@[i as int] != Some(true));
                return false;
            },
        }
        i = i + 1;
    }
    true
}

/// The speed of each fan that goes with a speed of the curve.
fn follow(fans: &Vec<FanLabel>, rpm: Binary64) -> (r: Vec<Binary64>)
    ensures
        r@ == followed_targets(labels_view(fans@), rpm),
{
    let ghost labels = labels_view(fans@);
    let mut targets: Vec<Binary64> = Vec::new();
    let mut i: usize = 0;
    while i < fans.len()
        invariant
            i <= fans@.len(),
            labels == labels_view(fans@),
            targets@ == followed_targets(labels, rpm).take(i as int),
        decreases fans@.len() - i,
    {
        targets.push(clamp_rpm(rpm, fans[i].min_rpm, fans[i].max_rpm));
        i = i + 1;
        assert(targets@ =~= followed_targets(labels, rpm).take(i as int));
    }
    assert(targets@ =~= followed_targets(labels, rpm));
    targets
}

/// Why a loop ended that gave its fans back.
fn why_ended(cause: Cause, ok: bool, stop: bool) -> (r: ExitReason)
    ensures
        r == ending(cause, ok, stop),
{
    if !ok {
        ExitReason::RestoreFailed
    } else if cause == Cause::Trip {
        ExitReason::SensorTrip
    } else if cause == Cause::ModeLost {
        ExitReason::ModeLost
    } else if stop {
        ExitReason::Sigint
    } else {
        ExitReason::Ttl
    }
}

/// Speaks of the targets that were written.
fn tell_targets(fans: &Vec<FanLabel>, targets: &Vec<Binary64>) -> (r: Vec<SetEvent>)
    ensures
        events_view(r@) == target_events(
            labels_view(fans@),
            targets@,
            if targets@.len() < fans@.len() {
                targets@.len()
            } else {
                fans@.len()
            },
        ),
{
    let ghost labels = labels_view(fans@);
    let mut told: Vec<SetEvent> = Vec::new();
    let mut i: usize = 0;
    while i < fans.len() && i < targets.len()
        invariant
            i <= fans@.len(),
            i <= targets@.len(),
            labels == labels_view(fans@),
            events_view(told@) == target_events(labels, targets@, i as nat),
        decreases fans@.len() - i,
    {
        let ghost before = told@;
        told.push(SetEvent::TargetWritten { fan: fans[i].index, target_rpm: targets[i] });
        i = i + 1;
        assert(events_view(told@) =~= events_view(before).push(told@.last()@));
        assert(events_view(told@) =~= target_events(labels, targets@, i as nat));
    }
    told
}

/// Speaks of a round.
fn tell_ticks(told: &mut Vec<SetEvent>, t: u64, heat: Binary64, targets: &Vec<Binary64>, n: usize)
    ensures
        events_view(final(told)@) == events_view(old(told)@) + tick_events(
            t,
            heat,
            targets@,
            if targets@.len() < n {
                targets@.len()
            } else {
                n as nat
            },
        ),
{
    let ghost before = events_view(told@);
    let mut i: usize = 0;
    assert(events_view(told@) =~= before + tick_events(t, heat, targets@, 0));
    while i < n && i < targets.len()
        invariant
            i <= n,
            i <= targets@.len(),
            events_view(told@) == before + tick_events(t, heat, targets@, i as nat),
        decreases n - i,
    {
        let ghost so_far = told@;
        told.push(SetEvent::Tick { t, max_temp_c: heat, target_rpm: targets[i] });
        i = i + 1;
        assert(events_view(told@) =~= events_view(so_far).push(told@.last()@));
        assert(events_view(told@) =~= before + tick_events(t, heat, targets@, i as nat));
    }
}

/// What becomes of a controller by a row of outcomes, and all that it tells.
pub open spec fn ran(c: ControllerView, es: Seq<EventView>) -> (
    ControllerView,
    Seq<crate::report::SetEventView>,
)
    decreases es.len(),
{
    if es.len() == 0 {
        (c, seq![])
    } else {
        let before = ran(c, es.drop_last());
        let after = advanced(before.0, es.last());
        (after.0, before.1 + after.1)
    }
}

/// A loop that is over stays so, and tells nothing more.
pub proof fn over_is_final(c: ControllerView, e: EventView)
    requires
        c.phase is Over,
    ensures
        advanced(c, e) == (c, Seq::<crate::report::SetEventView>::empty()),
{
}

/// The fans were given back at step `k` of a run.
pub open spec fn given_back_at(c: ControllerView, es: Seq<EventView>, k: int) -> bool {
    &&& 0 <= k < es.len()
    &&& es[k] is Restored
    &&& ran(c, es.take(k)).0.phase is Restoring
}

/// However a run ends: either no fan was ever taken over, or the fans were given back.
pub proof fn every_run_gives_fans_back(
    fans: Seq<FanLabelView>,
    job: Job,
    allow: Option<Seq<Seq<char>>>,
    es: Seq<EventView>,
)
    ensures
        ran(fresh(fans, job, allow), es).0.phase is Over ==> ran(fresh(fans, job, allow), es).1
            == Seq::<crate::report::SetEventView>::empty() || exists|k: int|
            #[trigger] given_back_at(fresh(fans, job, allow), es, k),
{
    lemma_run(fans, job, allow, es);
}

/// What holds of every run, in each phase.
proof fn lemma_run(
    fans: Seq<FanLabelView>,
    job: Job,
    allow: Option<Seq<Seq<char>>>,
    es: Seq<EventView>,
)
    ensures
        ({
            let c = fresh(fans, job, allow);
            let (now, log) = ran(c, es);
            &&& now.fans == fans && now.job == job && now.allow == allow
            &&& now.failures <= FAILURES_TO_GIVE_UP
            &&& now.phase == (PhaseView::Arming { next: 0 }) ==> log.len() == 0
            &&& now.phase is Over ==> log.len() == 0 || exists|k: int|
                #[trigger] given_back_at(c, es, k)
            &&& !(now.phase is Restoring) && !(now.phase is Over) ==> now.failures
                < FAILURES_TO_GIVE_UP
        }),
    decreases es.len(),
{
    let c = fresh(fans, job, allow);
    if es.len() > 0 {
        let rest = es.drop_last();
        lemma_run(fans, job, allow, rest);
        let before = ran(c, rest);
        let now = ran(c, es);
        assert(es.take(es.len() - 1) =~= rest);
        if now.0.phase is Over {
            if before.0.phase is Restoring && es.last() is Restored {
                assert(given_back_at(c, es, es.len() - 1));
            } else if before.0.phase is Over && before.1.len() > 0 {
                let k = choose|k: int| #[trigger] given_back_at(c, rest, k);
                assert(es.take(k) =~= rest.take(k));
                assert(given_back_at(c, es, k));
            }
        }
    }
}

/// The last thing that a loop tells is how it exits, and it tells so once, with the code
/// that goes with the reason.
pub proof fn exit_is_told_last(
    fans: Seq<FanLabelView>,
    job: Job,
    allow: Option<Seq<Seq<char>>>,
    es: Seq<EventView>,
)
    ensures
        ({
            let (now, log) = ran(fresh(fans, job, allow), es);
            &&& now.phase matches PhaseView::Over { reason: Some(reason) } ==> log.len() > 0
                && log.last() == (crate::report::SetEventView::Exit {
                code: reason.exit_code(),
                reason,
            })
            &&& forall|i: int|
                0 <= i < log.len() && #[trigger] log[i] is Exit ==> i == log.len() - 1
                    && now.phase is Over && now.phase->reason is Some
        }),
    decreases es.len(),
{
    if es.len() > 0 {
        let c = fresh(fans, job, allow);
        let rest = es.drop_last();
        exit_is_told_last(fans, job, allow, rest);
        let before = ran(c, rest);
        let after = advanced(before.0, es.last());
        let log = before.1 + after.1;
        assert forall|i: int| 0 <= i < log.len() && #[trigger] log[i] is Exit implies i
            == log.len() - 1 && after.0.phase is Over && after.0.phase->reason is Some by {
            if i < before.1.len() {
                assert(before.1[i] is Exit);
            } else {
                assert(after.1[i - before.1.len()] is Exit);
            }
        }
        if before.0.phase is Over {
            assert(log =~= before.1);
        }
    }
}

/// What an exit code tells: 3 that a fan was not given back; 4 that all were, after a
/// sensor got too hot or manual mode was lost; 0 that all were, and nothing went wrong.
pub proof fn exit_codes_tell(cause: Cause, ok: bool, stop: bool)
    requires
        cause != Cause::Broken,
    ensures
        ending(cause, ok, stop).exit_code() == 3 <==> !ok,
        ending(cause, ok, stop).exit_code() == 4 <==> ok && cause != Cause::Finished,
        ending(cause, ok, stop).exit_code() == 0 <==> ok && cause == Cause::Finished,
{
}

/// A loop that watches the temperatures starts to give its fans back as soon as a sensor
/// that counts is above the threshold, and on no other temperatures; it names a sensor
/// that is.
pub proof fn hot_sensors_stop_the_loop(
    c: ControllerView,
    temps: Seq<crate::sensors::SensorReadingView>,
)
    requires
        c.phase is Watching,
    ensures
        ({
            let (next, told) = advanced(c, EventView::Temps { temps });
            let hot = exists|i: int|
                0 <= i < temps.len() && crate::sensors::trips(c.allow, #[trigger] temps[i]);
            &&& hot <==> next.phase == (PhaseView::Restoring { cause: Cause::Trip })
            &&& hot ==> next.action() is Restore && exists|i: int|
                0 <= i < temps.len() && crate::sensors::trips(c.allow, #[trigger] temps[i])
                    && told[0] == (crate::report::SetEventView::Trip {
                    sensor: temps[i].name,
                    celsius: temps[i].celsius,
                })
            &&& !hot ==> told.len() == 0
        }),
{
    crate::sensors::trips_are_found(c.allow, temps);
    match trip_in(c, temps) {
        Some(i) => {
            assert(crate::sensors::trips(c.allow, temps[i]));
        },
        None => {},
    }
}

/// A loop that is told to stop, or whose time is up, gives its fans back and does
/// nothing else before.
pub proof fn stopping_gives_back(c: ControllerView, stop: bool, expired: bool)
    requires
        c.phase is Polling,
        stop || expired,
    ensures
        advanced(c, EventView::Polled { stop, expired }).0.action() is Restore,
{
}

/// The lost fans are those whose mode does not read as on, in order, and no others.
pub proof fn lost_fans_are_exact(modes: Seq<Option<Binary64>>, n: nat)
    requires
        n <= usize::MAX,
    ensures
        forall|i: usize| #[trigger]
            lost_fans(modes, n).contains(i) <==> i < n && !mode_is_on(modes, i as int),
        forall|i: int, j: int|
            0 <= i < j < lost_fans(modes, n).len() ==> lost_fans(modes, n)[i] < lost_fans(
                modes,
                n,
            )[j],
    decreases n,
{
    if n > 0 {
        let m = (n - 1) as nat;
        let rest = lost_fans(modes, m);
        let all = lost_fans(modes, n);
        lost_fans_are_exact(modes, m);
        assert forall|i: usize| #[trigger] all.contains(i) <==> i < n && !mode_is_on(
            modes,
            i as int,
        ) by {
            if rest.contains(i) {
                let p = choose|p: int| 0 <= p < rest.len() && rest[p] == i;
                assert(all[p] == i);
            }
            if all.contains(i) {
                let p = choose|p: int| 0 <= p < all.len() && all[p] == i;
                if p < rest.len() {
                    assert(rest[p] == i);
                    assert(rest.contains(i));
                }
            }
            if i == m && !mode_is_on(modes, m as int) {
                assert(all[rest.len() as int] == i);
            }
        }
        assert forall|i: int, j: int| 0 <= i < j < all.len() implies all[i] < all[j] by {
            if j == rest.len() {
                assert(rest.contains(rest[i]));
            } else {
                assert(rest[i] < rest[j]);
            }
        }
    }
}

/// A round of a loop that follows the temperature, from the check of the modes on, in
/// which a fan was lost and not all could be had again.
pub open spec fn failed_round(
    fans: nat,
    modes: Seq<Option<Binary64>>,
    regained: Seq<bool>,
) -> bool {
    let lost = lost_fans(modes, fans);
    &&& lost.len() > 0
    &&& regained.len() == lost.len()
    &&& exists|i: int| 0 <= i < regained.len() && !#[trigger] regained[i]
}

/// A failed round counts one failure more, and the third one in a row ends the loop: it
/// gives its fans back.
pub proof fn failures_in_a_row_add_up(
    c: ControllerView,
    modes: Seq<Option<Binary64>>,
    regained: Seq<bool>,
)
    requires
        c.phase is Checking,
        c.failures < FAILURES_TO_GIVE_UP,
        failed_round(c.fans.len(), modes, regained),
    ensures
        ({
            let next = advanced(
                advanced(c, EventView::Modes { modes }).0,
                EventView::ReArmed { regained },
            ).0;
            &&& next.failures == c.failures + 1
            &&& next.phase == if c.failures == 2 {
                PhaseView::Restoring { cause: Cause::ModeLost }
            } else {
                PhaseView::Resting
            }
        }),
{
    let i = choose|i: int| 0 <= i < regained.len() && !#[trigger] regained[i];
    assert(!regained[i]);
}

/// A round in which all fans are held, or had again, starts the count of failures anew.
pub proof fn a_good_round_forgets_failures(
    c: ControllerView,
    modes: Seq<Option<Binary64>>,
    regained: Seq<bool>,
)
    requires
        c.phase is Checking,
        regained.len() == lost_fans(modes, c.fans.len()).len(),
        forall|i: int| 0 <= i < regained.len() ==> regained[i],
    ensures
        ({
            let checked = advanced(c, EventView::Modes { modes }).0;
            let next = if lost_fans(modes, c.fans.len()).len() == 0 {
                checked
            } else {
                advanced(checked, EventView::ReArmed { regained }).0
            };
            next.failures == 0 && (next.phase is Evaluating || next.phase is Resting)
        }),
{
}

/// Nothing but the outcome of a check changes the count of failures.
pub proof fn only_checks_count_failures(c: ControllerView, e: EventView)
    requires
        !(c.phase is Checking),
        !(c.phase is ReArming),
    ensures
        advanced(c, e).0.failures == c.failures,
{
}

/// What was seen in a round of a loop that follows the temperature.
pub ghost struct Round {
    pub temps: Seq<crate::sensors::SensorReadingView>,
    pub smoothed: Seq<Binary64>,
    pub modes: Seq<Option<Binary64>>,
    pub regained: Seq<bool>,
}

/// What becomes of a controller by a round in which fans are lost, from one poll to the
/// next.
pub open spec fn after_round(c: ControllerView, r: Round) -> ControllerView {
    ran(
        c,
        seq![
            EventView::Polled { stop: false, expired: false },
            EventView::Temps { temps: r.temps },
            EventView::Smoothed { values: r.smoothed },
            EventView::Modes { modes: r.modes },
            EventView::ReArmed { regained: r.regained },
            EventView::Slept,
        ],
    ).0
}

/// Three failed rounds in a row end a loop that had no failure before: it starts to give
/// its fans back, for the loss of manual mode. Two do not.
pub proof fn three_failed_rounds_end_the_loop(c: ControllerView, a: Round, b: Round, d: Round)
    requires
        c.phase is Polling,
        c.job is Follow,
        c.failures == 0,
        forall|r: Round| #![trigger failed_round(c.fans.len(), r.modes, r.regained)]
            r == a || r == b || r == d ==> failed_round(c.fans.len(), r.modes, r.regained)
                && crate::sensors::last_trip(c.allow, r.temps) is None,
    ensures
        after_round(c, a).phase is Polling,
        after_round(after_round(c, a), b).phase is Polling,
        after_round(after_round(after_round(c, a), b), d).phase == (PhaseView::Restoring {
            cause: Cause::ModeLost,
        }),
{
    assert(failed_round(c.fans.len(), a.modes, a.regained));
    assert(failed_round(c.fans.len(), b.modes, b.regained));
    assert(failed_round(c.fans.len(), d.modes, d.regained));
    lemma_failed_round(c, a);
    lemma_failed_round(after_round(c, a), b);
    lemma_failed_round(after_round(after_round(c, a), b), d);
}

proof fn lemma_failed_round(c: ControllerView, r: Round)
    requires
        c.phase is Polling,
        c.job is Follow,
        c.failures < FAILURES_TO_GIVE_UP,
        failed_round(c.fans.len(), r.modes, r.regained),
        crate::sensors::last_trip(c.allow, r.temps) is None,
    ensures
        after_round(c, r).phase == if c.failures == 2 {
            PhaseView::Restoring { cause: Cause::ModeLost }
        } else {
            PhaseView::Polling
        },
        after_round(c, r).failures == c.failures + 1,
        after_round(c, r).fans == c.fans,
        after_round(c, r).job == c.job,
        after_round(c, r).allow == c.allow,
{
    let e0 = EventView::Polled { stop: false, expired: false };
    let e1 = EventView::Temps { temps: r.temps };
    let e2 = EventView::Smoothed { values: r.smoothed };
    let e3 = EventView::Modes { modes: r.modes };
    let e4 = EventView::ReArmed { regained: r.regained };
    let e5 = EventView::Slept;
    let es = seq![e0, e1, e2, e3, e4, e5];
    assert(es.drop_last() =~= seq![e0, e1, e2, e3, e4]);
    assert(seq![e0, e1, e2, e3, e4].drop_last() =~= seq![e0, e1, e2, e3]);
    assert(seq![e0, e1, e2, e3].drop_last() =~= seq![e0, e1, e2]);
    assert(seq![e0, e1, e2].drop_last() =~= seq![e0, e1]);
    assert(seq![e0, e1].drop_last() =~= seq![e0]);
    assert(seq![e0].drop_last() =~= Seq::<EventView>::empty());
    reveal_with_fuel(ran, 7);
    let c1 = advanced(c, e0).0;
    let c2 = advanced(c1, e1).0;
    let c3 = advanced(c2, e2).0;
    failures_in_a_row_add_up(c3, r.modes, r.regained);
    let c5 = advanced(advanced(c3, e3).0, e4).0;
    assert(after_round(c, r) == advanced(c5, e5).0);
}

/// The phases in which all fans are held.
pub open spec fn holds_all(phase: PhaseView) -> bool {
    !(phase is Arming) && !(phase is Restoring) && !(phase is Over)
}

/// The first events of a log tell of taking the first `n` fans over, one after the other.
pub open spec fn armed_in_order(
    fans: Seq<FanLabelView>,
    log: Seq<crate::report::SetEventView>,
    n: nat,
) -> bool {
    &&& log.len() >= n
    &&& forall|i: int|
        0 <= i < n ==> #[trigger] log[i] == (crate::report::SetEventView::Armed {
            fan: fans[i].index,
            mode_key_type: fans[i].mode_key_type,
        })
}

/// Fans are watched and steered only once all of them are held, and were taken over in
/// order. What a controller asks for is about fans that it has: one target for each of
/// them, and positions below their number.
pub proof fn only_held_fans_are_steered(
    fans: Seq<FanLabelView>,
    job: Job,
    allow: Option<Seq<Seq<char>>>,
    es: Seq<EventView>,
)
    requires
        fans.len() <= usize::MAX,
    ensures
        ({
            let (now, log) = ran(fresh(fans, job, allow), es);
            &&& holds_all(now.phase) ==> armed_in_order(fans, log, fans.len())
            &&& now.phase matches PhaseView::Arming { next } ==> next < fans.len()
                && log.len() == next && armed_in_order(fans, log, next)
            &&& now.action() matches ActionView::WriteTargets { targets } ==> targets.len()
                == fans.len()
            &&& now.action() matches ActionView::ReArm { fans: lost } ==> forall|i: int|
                0 <= i < lost.len() ==> #[trigger] lost[i] < fans.len()
        }),
    decreases es.len(),
{
    let c = fresh(fans, job, allow);
    if es.len() > 0 {
        let rest = es.drop_last();
        only_held_fans_are_steered(fans, job, allow, rest);
        lemma_run(fans, job, allow, rest);
        let before = ran(c, rest);
        let after = advanced(before.0, es.last());
        if let (PhaseView::Checking { .. }, EventView::Modes { modes }) = (
            before.0.phase,
            es.last(),
        ) {
            lost_fans_are_exact(modes, fans.len());
            let lost = lost_fans(modes, fans.len());
            assert forall|i: int| 0 <= i < lost.len() implies #[trigger] lost[i] < fans.len() by {
                assert(lost.contains(lost[i]));
            }
        }
        let log = before.1 + after.1;
        if let (PhaseView::Arming { next }, EventView::Armed { ok: true }) = (
            before.0.phase,
            es.last(),
        ) {
            assert forall|i: int| 0 <= i < next + 1 implies #[trigger] log[i] == (
            crate::report::SetEventView::Armed {
                fan: fans[i].index,
                mode_key_type: fans[i].mode_key_type,
            }) by {
                if i < next {
                    assert(log[i] == before.1[i]);
                }
            }
        } else if before.0.phase is Arming {
            assert(log =~= before.1);
        } else if holds_all(before.0.phase) {
            assert forall|i: int| 0 <= i < fans.len() implies #[trigger] log[i]
                == before.1[i] by {}
        }
    }
}

/// A loop that follows the temperature writes no speed outside of a fan's range, whatever
/// the curve gives; only what is no number stays as it is, and is refused when written.
pub proof fn followed_speeds_are_in_range(
    fans: Seq<FanLabelView>,
    allow: Option<Seq<Seq<char>>>,
    es: Seq<EventView>,
)
    requires
        forall|i: int|
            0 <= i < fans.len() ==> crate::fans::is_range(
                (#[trigger] fans[i]).min_rpm,
                fans[i].max_rpm,
            ),
    ensures
        ran(fresh(fans, Job::Follow, allow), es).0.action() matches ActionView::WriteTargets {
            targets,
        } ==> targets.len() == fans.len() && forall|i: int|
            0 <= i < fans.len() ==> (#[trigger] targets[i]).nan() || crate::fans::in_range(
                targets[i],
                fans[i].min_rpm,
                fans[i].max_rpm,
            ),
    decreases es.len(),
{
    if es.len() > 0 {
        let c = fresh(fans, Job::Follow, allow);
        let rest = es.drop_last();
        followed_speeds_are_in_range(fans, allow, rest);
        lemma_run(fans, Job::Follow, allow, rest);
        if let EventView::Evaluated { rpm } = es.last() {
            let targets = followed_targets(fans, rpm);
            assert forall|i: int| 0 <= i < fans.len() implies (#[trigger] targets[i]).nan()
                || crate::fans::in_range(targets[i], fans[i].min_rpm, fans[i].max_rpm) by {
                if !rpm.nan() {
                    crate::fans::clamped_speeds_are_in_range(
                        rpm,
                        fans[i].min_rpm,
                        fans[i].max_rpm,
                    );
                }
            }
        }
    }
}

/// The positions that are to be smoothed are places in the temperatures that were read.
pub proof fn only_read_temperatures_are_smoothed(
    c: ControllerView,
    temps: Seq<crate::sensors::SensorReadingView>,
)
    requires
        c.phase is Watching,
        temps.len() <= usize::MAX,
    ensures
        advanced(c, EventView::Temps { temps }).0.action() matches ActionView::Smooth { positions }
            ==> crate::sensors::selects(
            crate::sensors::temperature_names(temps),
            c.allow,
            positions,
        ),
{
    crate::sensors::filtering_is_exact(crate::sensors::temperature_names(temps), c.allow);
}

} // verus!
