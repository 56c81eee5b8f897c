//! What the control loops do, step by step and over whole runs.
use crate::binary64::Binary64;
use crate::control::{Cause, Job};
use crate::report::ExitReason;
use vstd::arithmetic::power2::*;
use vstd::prelude::*;

verus! {

/// A mode that reads as on: it was read, and is one half or more.
pub open spec fn reads_on(mode: Option<Binary64>) -> bool {
    mode is Some && !mode->0.nan() && 2 * mode->0.value() >= pow2(1074)
}

/// Fan `i` of those whose modes were read is on.
pub open spec fn is_on(modes: Seq<Option<Binary64>>, i: int) -> bool {
    0 <= i < modes.len() && reads_on(modes[i])
}

/// The modes of `n` fans all read as on.
pub open spec fn all_on(modes: Seq<Option<Binary64>>, n: nat) -> bool {
    forall|i: int| 0 <= i < n ==> #[trigger] is_on(modes, i)
}

/// `heat` is the highest of the values: a number that none of them is above, and one
/// of them, unless none of them is above minus infinity.
pub open spec fn highest(heat: Binary64, values: Seq<Binary64>) -> bool {
    &&& !heat.nan()
    &&& forall|i: int|
        0 <= i < values.len() ==> (#[trigger] values[i]).nan() || values[i].value()
            <= heat.value()
    &&& values.contains(heat) || (heat.bits == 0xfff0_0000_0000_0000 && forall|i: int|
        0 <= i < values.len() ==> (#[trigger] values[i]).nan() || values[i].value()
            == heat.value())
}

/// `r` is `rpm` moved into a range: the bound that it is beyond, else itself. A bound
/// that is no number moves nothing.
pub open spec fn moved_into(r: Binary64, rpm: Binary64, lo: Binary64, hi: Binary64) -> bool {
    let too_low = !rpm.nan() && !lo.nan() && rpm.value() < lo.value();
    let too_high = !rpm.nan() && !hi.nan() && hi.value() < rpm.value();
    &&& too_low ==> r == lo
    &&& !too_low && too_high ==> r == hi
    &&& !too_low && !too_high ==> r == rpm
}

/// Clamping moves a speed to the bound of the range that it is beyond, and leaves any
/// other speed alone.
pub proof fn clamping_moves_to_the_bound(rpm: Binary64, lo: Binary64, hi: Binary64)
    ensures
        moved_into(crate::fans::clamped(rpm, lo, hi), rpm, lo, hi),
{
}

proof fn lemma_on(modes: Seq<Option<Binary64>>, i: int)
    requires
        0 <= i,
    ensures
        crate::control::mode_is_on(modes, i) == is_on(modes, i),
{
    crate::session::lemma_mode_numbers();
}

proof fn lemma_lost(modes: Seq<Option<Binary64>>, n: nat)
    requires
        n <= usize::MAX,
    ensures
        crate::control::lost_fans(modes, n).len() == 0 <==> all_on(modes, n),
        forall|k: usize|
            k < n ==> (#[trigger] crate::control::lost_fans(modes, n).contains(k) <==> !is_on(
                modes,
                k as int,
            )),
        forall|j: int|
            0 <= j < crate::control::lost_fans(modes, n).len()
                ==> #[trigger] crate::control::lost_fans(modes, n)[j] < n,
        forall|i: int, j: int|
            0 <= i < j < crate::control::lost_fans(modes, n).len() ==> crate::control::lost_fans(
                modes,
                n,
            )[i] < crate::control::lost_fans(modes, n)[j],
    decreases n,
{
    if n > 0 {
        let m = (n - 1) as nat;
        lemma_lost(modes, m);
        lemma_on(modes, n - 1);
        let front = crate::control::lost_fans(modes, m);
        let all = crate::control::lost_fans(modes, n);
        if is_on(modes, n - 1) {
            assert(all == front);
            assert forall|k: usize| k < n implies (#[trigger] all.contains(k) <==> !is_on(
                modes,
                k as int,
            )) by {
                if k == n - 1 {
                    if front.contains(k) {
                        let j = choose|j: int| 0 <= j < front.len() && front[j] == k;
                        assert(front[j] < m);
                    }
                }
            }
        } else {
            let last = (n - 1) as usize;
            assert(all == front.push(last));
            assert(all[all.len() - 1] == last);
            assert forall|k: usize| k < n implies (#[trigger] all.contains(k) <==> !is_on(
                modes,
                k as int,
            )) by {
                if k < m {
                    if front.contains(k) {
                        let j = choose|j: int| 0 <= j < front.len() && front[j] == k;
                        assert(all[j] == k);
                    }
                    if all.contains(k) {
                        let j = choose|j: int| 0 <= j < all.len() && all[j] == k;
                        assert(front[j] == k);
                    }
                }
            }
            assert(!is_on(modes, n - 1));
        }
    }
}

pub proof fn lemma_highest(values: Seq<Binary64>)
    ensures
        highest(crate::sensors::hottest_of(values), values),
{
    crate::sensors::hottest_is_largest(values);
    let heat = crate::sensors::hottest_of(values);
    assert forall|i: int| 0 <= i < values.len() implies (#[trigger] values[i]).nan()
        || values[i].value() <= heat.value() by {
        assert(!heat.below(values[i]));
    }
    if heat == crate::sensors::minus_infinity() {
        assert forall|i: int| 0 <= i < values.len() implies (#[trigger] values[i]).nan()
            || values[i].value() == heat.value() by {
            assert(!heat.below(values[i]));
            let m = values[i].magnitude();
            if !values[i].nan() && m < 0x7ff0_0000_0000_0000 {
                crate::binary64::lemma_units_increase(52, m, 0x7ff0_0000_0000_0000);
            }
        }
    }
}

/// A round of a loop that follows the temperature is steered by the highest of all
/// the smoothed values: it alone is carried on, unchanged, to the curve, whether or
/// not fans have to be taken over again on the way. Where it is no finite number, no
/// speed is asked for.
pub proof fn the_highest_temperature_steers(
    c: crate::control::ControllerView,
    values: Seq<Binary64>,
    modes: Seq<Option<Binary64>>,
    regained: Seq<bool>,
)
    requires
        c.phase is Smoothing,
        c.fans.len() <= usize::MAX,
    ensures
        ({
            let (checking, told) = crate::control::advanced(
                c,
                crate::control::EventView::Smoothed { values },
            );
            let (checked, told_too) = crate::control::advanced(
                checking,
                crate::control::EventView::Modes { modes },
            );
            let (again, _) = crate::control::advanced(
                checked,
                crate::control::EventView::ReArmed { regained },
            );
            let heat = checking.phase->Checking_heat;
            &&& checking.action() is CheckModes
            &&& told.len() == 0 && told_too.len() == 0
            &&& highest(heat, values)
            &&& all_on(modes, c.fans.len()) && heat.finite() ==> checked.action() == (
            crate::control::ActionView::Evaluate { heat })
            &&& all_on(modes, c.fans.len()) && !heat.finite() ==> checked.action() is Sleep
            &&& !all_on(modes, c.fans.len()) ==> {
                &&& checked.action() is ReArm
                &&& regained.len() == checked.action()->ReArm_fans.len() && (forall|i: int|
                    0 <= i < regained.len() ==> regained[i]) ==> {
                    &&& heat.finite() ==> again.action() == (
                    crate::control::ActionView::Evaluate { heat })
                    &&& !heat.finite() ==> again.action() is Sleep
                    &&& again.failures == 0
                }
                &&& regained.len() == checked.action()->ReArm_fans.len() && (exists|i: int|
                    0 <= i < regained.len() && !regained[i]) ==> !(again.action() is Evaluate)
            }
        }),
{
    lemma_highest(values);
    lemma_lost(modes, c.fans.len());
}

/// The fans that are to be taken over again are those whose mode does not read as on,
/// each once and in order, and no others.
pub proof fn lost_fans_alone_are_taken_over_again(
    c: crate::control::ControllerView,
    modes: Seq<Option<Binary64>>,
    k: usize,
)
    requires
        c.phase is Checking,
        c.fans.len() <= usize::MAX,
        k < c.fans.len(),
    ensures
        ({
            let action = crate::control::advanced(
                c,
                crate::control::EventView::Modes { modes },
            ).0.action();
            &&& action is ReArm <==> !all_on(modes, c.fans.len())
            &&& action matches crate::control::ActionView::ReArm { fans } ==> {
                &&& fans.contains(k) <==> !is_on(modes, k as int)
                &&& forall|i: int, j: int| 0 <= i < j < fans.len() ==> fans[i] < fans[j]
                &&& forall|j: int| 0 <= j < fans.len() ==> #[trigger] fans[j] < c.fans.len()
            }
        }),
{
    lemma_lost(modes, c.fans.len());
}

/// Each fan that follows the temperature is sent the speed of the curve, or the bound
/// of its own range that this speed is beyond.
pub proof fn each_fan_gets_the_speed_of_the_curve(
    c: crate::control::ControllerView,
    rpm: Binary64,
    i: int,
)
    requires
        c.phase is Evaluating,
        0 <= i < c.fans.len(),
    ensures
        ({
            let (next, told) = crate::control::advanced(
                c,
                crate::control::EventView::Evaluated { rpm },
            );
            &&& told.len() == 0
            &&& next.action() is WriteTargets
            &&& next.action()->targets.len() == c.fans.len()
            &&& moved_into(
                next.action()->targets[i],
                rpm,
                c.fans[i].min_rpm,
                c.fans[i].max_rpm,
            )
            &&& next.phase->Writing_heat == c.phase->Evaluating_heat
        }),
{
}

/// The first that a loop does is to take its first fan over; without fans there is
/// nothing to take over.
pub proof fn loops_start_by_taking_over(
    fans: Seq<crate::control::FanLabelView>,
    job: Job,
    allow: Option<Seq<Seq<char>>>,
)
    ensures
        ({
            let c = crate::control::fresh(fans, job, allow);
            &&& c.fans == fans && c.job == job && c.allow == allow
            &&& c.failures == 0 && !c.announced
            &&& fans.len() > 0 ==> c.action() == (crate::control::ActionView::Arm { fan: 0 })
        }),
{
}

/// Fans are taken over one after the other, and each one is told of when it is. Behind
/// the last one a loop that holds a speed writes just that speed for every fan; a loop
/// that follows the temperature goes on to its first round. Where a fan cannot be
/// taken over, those before it are given back.
pub proof fn taking_over_goes_fan_by_fan(c: crate::control::ControllerView, next: nat, ok: bool)
    requires
        c.phase == (crate::control::PhaseView::Arming { next }),
        next < c.fans.len(),
    ensures
        ({
            let (d, told) = crate::control::advanced(c, crate::control::EventView::Armed { ok });
            &&& c.action() == (crate::control::ActionView::Arm { fan: next })
            &&& ok ==> told == seq![
                crate::report::SetEventView::Armed {
                    fan: c.fans[next as int].index,
                    mode_key_type: c.fans[next as int].mode_key_type,
                },
            ]
            &&& !ok ==> told.len() == 0
            &&& ok && next + 1 < c.fans.len() ==> d.action() == (crate::control::ActionView::Arm {
                fan: next + 1,
            })
            &&& ok && next + 1 == c.fans.len() ==> match c.job {
                Job::Follow => d.action() is Poll,
                Job::Hold { target } => {
                    &&& d.action() is WriteTargets
                    &&& d.action()->targets.len() == c.fans.len()
                    &&& forall|i: int|
                        0 <= i < c.fans.len() ==> #[trigger] d.action()->targets[i] == target
                },
            }
            &&& !ok && next == 0 ==> d.action() is Fail
            &&& !ok && next > 0 ==> d.action() is Restore
        }),
{
}

/// What is told of written targets. The first time each fan is named with its target,
/// in order; a loop that follows the temperature tells of a tick for each fan every
/// time, with the temperature that the targets go with. Then the loop polls, or rests.
/// Where the targets could not be written the fans are given back.
pub proof fn written_targets_are_told(
    c: crate::control::ControllerView,
    ok: bool,
    now_ms: u64,
    i: int,
)
    requires
        c.phase is Writing,
        c.phase->Writing_targets.len() == c.fans.len(),
        0 <= i < c.fans.len(),
    ensures
        ({
            let targets = c.phase->Writing_targets;
            let (d, told) = crate::control::advanced(
                c,
                crate::control::EventView::Written { ok, now_ms },
            );
            let named = crate::report::SetEventView::TargetWritten {
                fan: c.fans[i].index,
                target_rpm: targets[i],
            };
            let tick = crate::report::SetEventView::Tick {
                t: now_ms,
                max_temp_c: c.phase->Writing_heat,
                target_rpm: targets[i],
            };
            let n = c.fans.len();
            &&& c.action() == (crate::control::ActionView::WriteTargets { targets })
            &&& !ok ==> told.len() == 0 && d.action() is Restore
            &&& ok ==> d.announced
            &&& ok && c.job is Hold ==> told.len() == n && told[i] == named && d.action() is Poll
            &&& ok && c.job is Follow && c.announced ==> told.len() == n && told[i] == tick
            &&& ok && c.job is Follow && !c.announced ==> told.len() == 2 * n && told[i] == named
                && told[n + i] == tick
            &&& ok && c.job is Follow ==> d.action() == (crate::control::ActionView::Sleep {
                ms: 1000,
            })
        }),
{
}

/// A loop that is neither told to stop nor out of time reads the temperatures, and one
/// that is gives its fans back and says so first.
pub proof fn polling_decides(c: crate::control::ControllerView, stop: bool, expired: bool)
    requires
        c.phase is Polling,
    ensures
        ({
            let (d, told) = crate::control::advanced(
                c,
                crate::control::EventView::Polled { stop, expired },
            );
            &&& c.action() is Poll
            &&& !stop && !expired ==> d.action() is ReadTemps && told.len() == 0
            &&& stop || expired ==> d.action() is Restore && told == seq![
                crate::report::SetEventView::RestoreStarted,
            ]
        }),
{
}

/// A sensor that counts: one on the list, or any where there is no list.
pub open spec fn on_list(allow: Option<Seq<Seq<char>>>, name: Seq<char>) -> bool {
    allow is Some ==> exists|j: int| 0 <= j < allow->0.len() && allow->0[j] == name
}

/// A sensor that counts and is hotter than ninety degrees.
pub open spec fn too_hot(
    allow: Option<Seq<Seq<char>>>,
    s: crate::sensors::SensorReadingView,
) -> bool {
    on_list(allow, s.name) && !s.celsius.nan() && s.celsius.value() > 90 * pow2(1074)
}

pub proof fn lemma_too_hot(allow: Option<Seq<Seq<char>>>, s: crate::sensors::SensorReadingView)
    ensures
        crate::sensors::trips(allow, s) == too_hot(allow, s),
{
    crate::binary64::lemma_cuts();
    assert(0x4056_8000_0000_0000nat / 0x10_0000_0000_0000nat == 1029);
    assert(0x4056_8000_0000_0000nat % 0x10_0000_0000_0000nat == 0x6_8000_0000_0000);
    assert(crate::sensors::trip_threshold().value() == 0x16_8000_0000_0000 * pow2(1028));
    lemma_pow2_adds(46, 1028);
    lemma_pow2_46();
    assert(0x16_8000_0000_0000 * pow2(1028) == 90 * (0x4000_0000_0000 * pow2(1028)));
}

proof fn lemma_pow2_46()
    ensures
        pow2(46) == 0x4000_0000_0000,
{
    lemma2_to64();
    lemma_pow2_adds(32, 14);
}

/// A loop stops for the temperatures exactly if a sensor that counts is too hot. It
/// then tells of such a sensor, the first one where a speed is held, the last one
/// where fans follow the temperature, and gives its fans back. Else it rests, or goes
/// on to smooth just the temperatures that count, in order.
pub proof fn temperatures_decide(
    c: crate::control::ControllerView,
    temps: Seq<crate::sensors::SensorReadingView>,
)
    requires
        c.phase is Watching,
        temps.len() <= usize::MAX,
    ensures
        ({
            let (d, told) = crate::control::advanced(
                c,
                crate::control::EventView::Temps { temps },
            );
            let hot = exists|i: int|
                0 <= i < temps.len() && too_hot(c.allow, #[trigger] temps[i]);
            &&& c.action() is ReadTemps
            &&& hot ==> {
                &&& d.action() is Restore
                &&& d.phase->cause == Cause::Trip
                &&& told.len() == 2 && told[1] is RestoreStarted
                &&& exists|i: int|
                    {
                        &&& 0 <= i < temps.len()
                        &&& too_hot(c.allow, #[trigger] temps[i])
                        &&& told[0] == (crate::report::SetEventView::Trip {
                            sensor: temps[i].name,
                            celsius: temps[i].celsius,
                        })
                        &&& c.job is Hold ==> forall|k: int|
                            0 <= k < i ==> !too_hot(c.allow, #[trigger] temps[k])
                        &&& c.job is Follow ==> forall|k: int|
                            i < k < temps.len() ==> !too_hot(c.allow, #[trigger] temps[k])
                    }
            }
            &&& !hot ==> told.len() == 0
            &&& !hot && c.job is Hold ==> d.action() == (crate::control::ActionView::Sleep {
                ms: 1000,
            })
            &&& !hot && c.job is Follow ==> {
                let positions = d.action()->positions;
                &&& d.action() is Smooth
                &&& forall|k: usize|
                    k < temps.len() ==> (#[trigger] positions.contains(k) <==> on_list(
                        c.allow,
                        temps[k as int].name,
                    ))
                &&& forall|i: int| 0 <= i < positions.len() ==> #[trigger] positions[i]
                    < temps.len()
                &&& forall|i: int, j: int|
                    0 <= i < j < positions.len() ==> positions[i] < positions[j]
            }
        }),
{
    assert forall|i: int| 0 <= i < temps.len() implies crate::sensors::trips(
        c.allow,
        #[trigger] temps[i],
    ) == too_hot(c.allow, temps[i]) by {
        lemma_too_hot(c.allow, temps[i]);
    }
    crate::sensors::trips_are_found(c.allow, temps);
    crate::sensors::filtering_is_exact(crate::sensors::temperature_names(temps), c.allow);
    if let Some(i) = crate::control::trip_in(c, temps) {
        assert(too_hot(c.allow, temps[i]));
        assert forall|k: int| 0 <= k < i && c.job is Hold implies !too_hot(
            c.allow,
            #[trigger] temps[k],
        ) by {
            assert(!crate::sensors::trips(c.allow, temps[k]));
        }
        assert forall|k: int| i < k < temps.len() && c.job is Follow implies !too_hot(
            c.allow,
            #[trigger] temps[k],
        ) by {
            assert(!crate::sensors::trips(c.allow, temps[k]));
        }
    }
}

/// How a loop ends once it tried to give its fans back. After an error on the way it
/// fails and tells nothing. Else it tells whether every fan is back, then the code and
/// the reason: 3 where a fan is not back; 4 where all are and a sensor was too hot or
/// manual mode was lost; 0 where the user stopped the loop or its time was up.
pub proof fn endings_are_told(
    c: crate::control::ControllerView,
    cause: Cause,
    outcomes: Seq<Option<bool>>,
    stop: bool,
)
    requires
        c.phase == (crate::control::PhaseView::Restoring { cause }),
    ensures
        ({
            let (d, told) = crate::control::advanced(
                c,
                crate::control::EventView::Restored { outcomes, stop },
            );
            let back = outcomes.len() == c.fans.len() && forall|i: int|
                0 <= i < outcomes.len() ==> outcomes[i] == Some(true);
            let reason = if !back {
                ExitReason::RestoreFailed
            } else {
                match cause {
                    Cause::Trip => ExitReason::SensorTrip,
                    Cause::ModeLost => ExitReason::ModeLost,
                    _ => if stop {
                        ExitReason::Sigint
                    } else {
                        ExitReason::Ttl
                    },
                }
            };
            let code: i32 = match reason {
                ExitReason::RestoreFailed => 3,
                ExitReason::SensorTrip => 4,
                ExitReason::ModeLost => 4,
                ExitReason::Sigint => 0,
                ExitReason::Ttl => 0,
            };
            &&& c.action() is Restore
            &&& cause == Cause::Broken ==> d.action() is Fail && told.len() == 0
            &&& cause != Cause::Broken ==> {
                &&& d.action() == (crate::control::ActionView::Exit { code })
                &&& told.len() == 2
                &&& back ==> told[0] is RestoreDone
                &&& !back ==> told[0] is RestoreFailed
                &&& told[1] == (crate::report::SetEventView::Exit { code, reason })
            }
        }),
{
}

/// A rest lasts a second, and polling follows it.
pub proof fn rests_last_a_second(c: crate::control::ControllerView)
    requires
        c.phase is Resting,
    ensures
        c.action() == (crate::control::ActionView::Sleep { ms: 1000 }),
        crate::control::advanced(c, crate::control::EventView::Slept).0.action() is Poll,
        crate::control::advanced(c, crate::control::EventView::Slept).1.len() == 0,
{
}

/// An event answers an action.
pub open spec fn is_answer(
    a: crate::control::ActionView,
    e: crate::control::EventView,
) -> bool {
    match e {
        crate::control::EventView::Armed { .. } => a is Arm,
        crate::control::EventView::Written { .. } => a is WriteTargets,
        crate::control::EventView::Polled { .. } => a is Poll,
        crate::control::EventView::Temps { .. } => a is ReadTemps,
        crate::control::EventView::Smoothed { .. } => a is Smooth,
        crate::control::EventView::Modes { .. } => a is CheckModes,
        crate::control::EventView::ReArmed { .. } => a is ReArm,
        crate::control::EventView::Evaluated { .. } => a is Evaluate,
        crate::control::EventView::Slept => a is Sleep,
        crate::control::EventView::Restored { .. } => a is Restore,
    }
}

/// What no action asked for changes nothing and is not told of; and whatever happens,
/// a loop keeps its fans, its job and its sensors.
pub proof fn only_answers_count(c: crate::control::ControllerView, e: crate::control::EventView)
    ensures
        !is_answer(c.action(), e) ==> crate::control::advanced(c, e).0 == c
            && crate::control::advanced(c, e).1.len() == 0,
        crate::control::advanced(c, e).0.fans == c.fans,
        crate::control::advanced(c, e).0.job == c.job,
        crate::control::advanced(c, e).0.allow == c.allow,
        c.announced ==> crate::control::advanced(c, e).0.announced,
        crate::control::advanced(c, e).0.announced && !c.announced ==> e is Written,
{
}

/// A failed attempt to take lost fans over again is counted. The third one in a row
/// ends the loop, which says that it gives its fans back; before that it rests.
pub proof fn failed_attempts_are_counted(
    c: crate::control::ControllerView,
    regained: Seq<bool>,
)
    requires
        c.phase is ReArming,
        c.failures <= 2,
        regained.len() == c.phase->lost.len(),
        exists|i: int| 0 <= i < regained.len() && !regained[i],
    ensures
        ({
            let (d, told) = crate::control::advanced(
                c,
                crate::control::EventView::ReArmed { regained },
            );
            &&& d.failures == c.failures + 1
            &&& c.failures < 2 ==> d.action() == (crate::control::ActionView::Sleep { ms: 1000 })
                && told.len() == 0
            &&& c.failures == 2 ==> d.action() is Restore && d.phase->cause == Cause::ModeLost
                && told == seq![crate::report::SetEventView::RestoreStarted]
        }),
{
}

/// A loop that holds a speed writes that speed, for every fan, and no other in all its
/// run.
pub proof fn a_held_speed_never_changes(
    fans: Seq<crate::control::FanLabelView>,
    target: Binary64,
    allow: Option<Seq<Seq<char>>>,
    es: Seq<crate::control::EventView>,
    i: int,
)
    requires
        0 <= i < fans.len(),
    ensures
        ({
            let now = crate::control::ran(
                crate::control::fresh(fans, Job::Hold { target }, allow),
                es,
            ).0;
            &&& now.fans == fans && now.job == (Job::Hold { target })
            &&& !(now.action() is Evaluate) && !(now.action() is Smooth)
            &&& !(now.action() is CheckModes) && !(now.action() is ReArm)
            &&& now.action() is WriteTargets ==> now.action()->targets.len() == fans.len()
                && now.action()->targets[i] == target
        }),
    decreases es.len(),
{
    if es.len() > 0 {
        a_held_speed_never_changes(fans, target, allow, es.drop_last(), i);
    }
}

/// The targets of fans are told of at most once in a run.
pub proof fn targets_are_named_once(
    fans: Seq<crate::control::FanLabelView>,
    job: Job,
    allow: Option<Seq<Seq<char>>>,
    es: Seq<crate::control::EventView>,
)
    ensures
        ({
            let (now, log) = crate::control::ran(crate::control::fresh(fans, job, allow), es);
            &&& now.announced <==> exists|k: int|
                0 <= k < es.len() && written_at(fans, job, allow, es, k)
            &&& !now.announced ==> forall|i: int|
                0 <= i < log.len() ==> !(#[trigger] log[i] is TargetWritten) && !(log[i] is Tick)
        }),
    decreases es.len(),
{
    let c = crate::control::fresh(fans, job, allow);
    if es.len() > 0 {
        let rest = es.drop_last();
        targets_are_named_once(fans, job, allow, rest);
        let before = crate::control::ran(c, rest);
        let after = crate::control::advanced(before.0, es.last());
        let now = crate::control::ran(c, es);
        assert(es.take(es.len() - 1) =~= rest);
        assert forall|k: int| 0 <= k < rest.len() implies written_at(fans, job, allow, es, k)
            == #[trigger] written_at(fans, job, allow, rest, k) by {
            assert(es.take(k) =~= rest.take(k));
        }
        if now.0.announced {
            if before.0.announced {
                let k = choose|k: int|
                    0 <= k < rest.len() && written_at(fans, job, allow, rest, k);
                assert(written_at(fans, job, allow, es, k));
            } else {
                assert(written_at(fans, job, allow, es, es.len() - 1));
            }
        }
        if exists|k: int| 0 <= k < es.len() && written_at(fans, job, allow, es, k) {
            let k = choose|k: int| 0 <= k < es.len() && written_at(fans, job, allow, es, k);
            if k < rest.len() {
                assert(written_at(fans, job, allow, rest, k));
            }
        }
        if !now.0.announced {
            assert forall|i: int| 0 <= i < now.1.len() implies !(#[trigger] now.1[i] is TargetWritten)
                && !(now.1[i] is Tick) by {
                if i < before.1.len() {
                    assert(now.1[i] == before.1[i]);
                } else {
                    assert(now.1[i] == after.1[i - before.1.len()]);
                }
            }
        }
    }
}

/// Targets were written at step `k` of a run.
pub open spec fn written_at(
    fans: Seq<crate::control::FanLabelView>,
    job: Job,
    allow: Option<Seq<Seq<char>>>,
    es: Seq<crate::control::EventView>,
    k: int,
) -> bool {
    &&& es[k] matches crate::control::EventView::Written { ok: true, .. }
    &&& crate::control::ran(crate::control::fresh(fans, job, allow), es.take(k)).0.action() is WriteTargets
}

} // verus!
