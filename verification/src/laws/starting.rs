//! What is decided before fans are taken over.
use crate::binary64::Binary64;
use crate::daemon::Outcome;
use crate::fans::FanReading;
use crate::laws::steering::moved_into;
use crate::prepare::{CliError, Facts, InitStep, SensorList, SetTask};
use vstd::arithmetic::power2::*;
use vstd::prelude::*;

verus! {

/// The probe found what it takes to control a fan.
pub open spec fn can_control(probe: crate::probe::ProbeView, fan: int) -> bool {
    &&& 0 <= fan < probe.fan_count
    &&& probe.fans[fan].md is Some
    &&& probe.fans[fan].tg is Some
    &&& probe.fans[fan].mode_key_casing is Some
}

/// A plan is for a fan, by the keys that the probe found for it.
pub open spec fn plans_for(
    probe: crate::probe::ProbeView,
    fan: int,
    plan: crate::prepare::FanPlanView,
) -> bool {
    &&& plan.index == fan
    &&& Some(plan.casing) == probe.fans[fan].mode_key_casing
    &&& Some(plan.md) == probe.fans[fan].md
    &&& Some(plan.tg) == probe.fans[fan].tg
}

/// A fan is planned with exactly if it can be controlled, by its own keys; else the
/// refusal names it, and the number of fans where it is none of them.
pub proof fn plans_are_the_probes(probe: crate::probe::ProbeView, fan: u8)
    ensures
        crate::prepare::planned(probe, fan) is Ok <==> can_control(probe, fan as int),
        crate::prepare::planned(probe, fan) matches Ok(plan) ==> plans_for(
            probe,
            fan as int,
            plan,
        ),
        fan >= probe.fan_count ==> crate::prepare::planned(probe, fan) == Err::<
            crate::prepare::FanPlanView,
            CliError,
        >(CliError::FanOutOfRange { fan, fan_count: probe.fan_count }),
        fan < probe.fan_count && !can_control(probe, fan as int) ==> crate::prepare::planned(
            probe,
            fan,
        ) == Err::<crate::prepare::FanPlanView, CliError>(CliError::NotControllable { fan }),
{
}

/// The plans are for the fans before `n` that can be controlled: each is for such a
/// fan, they are in order, and none of these fans is left out.
pub open spec fn plans_for_all(
    probe: crate::probe::ProbeView,
    plans: Seq<crate::prepare::FanPlanView>,
    n: int,
) -> bool {
    &&& forall|k: int|
        0 <= k < plans.len() ==> (#[trigger] plans[k]).index < n && can_control(
            probe,
            plans[k].index as int,
        ) && plans_for(probe, plans[k].index as int, plans[k])
    &&& forall|j: int, k: int| 0 <= j < k < plans.len() ==> plans[j].index < plans[k].index
    &&& forall|i: int|
        0 <= i < n && #[trigger] can_control(probe, i) ==> exists|k: int|
            0 <= k < plans.len() && (#[trigger] plans[k]).index == i
}

proof fn lemma_planned_all(probe: crate::probe::ProbeView, n: nat)
    requires
        n <= probe.fan_count,
    ensures
        plans_for_all(probe, crate::prepare::planned_all(probe, n), n as int),
    decreases n,
{
    if n > 0 {
        let m = (n - 1) as nat;
        lemma_planned_all(probe, m);
        plans_are_the_probes(probe, m as u8);
        let front = crate::prepare::planned_all(probe, m);
        let all = crate::prepare::planned_all(probe, n);
        assert forall|i: int| 0 <= i < n && #[trigger] can_control(probe, i) implies exists|k: int|
            0 <= k < all.len() && (#[trigger] all[k]).index == i by {
            if i < m {
                let k = choose|k: int| 0 <= k < front.len() && (#[trigger] front[k]).index == i;
                assert(all[k].index == i);
            } else {
                assert(all[all.len() - 1].index == i);
            }
        }
    }
}

/// Selecting all fans selects those that can be controlled, in order, each by its own
/// keys; it is refused only where there is none.
pub proof fn all_selects_what_can_be_controlled(probe: crate::probe::ProbeView)
    ensures
        match crate::prepare::planned_selection(
            probe,
            crate::selection::FanSelectionView::All,
        ) {
            Ok(plans) => plans.len() > 0 && plans_for_all(probe, plans, probe.fan_count as int),
            Err(e) => e == CliError::NoControllableFan && forall|i: int| !can_control(probe, i),
        },
{
    lemma_planned_all(probe, probe.fan_count as nat);
    let all = crate::prepare::planned_all(probe, probe.fan_count as nat);
    assert forall|i: int| all.len() == 0 implies !#[trigger] can_control(probe, i) by {
        if can_control(probe, i) {
            let k = choose|k: int| 0 <= k < all.len() && (#[trigger] all[k]).index == i;
        }
    }
}

/// `x` stands in a list at place `i`, and nowhere before.
pub open spec fn first_at(list: Seq<u8>, x: u8, i: int) -> bool {
    &&& 0 <= i < list.len()
    &&& list[i] == x
    &&& forall|j: int| 0 <= j < i ==> #[trigger] list[j] != x
}

/// The plans follow a list: place `places[k]` is where fan of plan `k` is first named.
pub open spec fn plans_along(
    probe: crate::probe::ProbeView,
    list: Seq<u8>,
    plans: Seq<crate::prepare::FanPlanView>,
    places: Seq<int>,
) -> bool {
    &&& places.len() == plans.len()
    &&& forall|j: int, k: int| 0 <= j < k < places.len() ==> places[j] < places[k]
    &&& forall|k: int|
        0 <= k < plans.len() ==> first_at(list, (#[trigger] plans[k]).index, places[k])
            && can_control(probe, plans[k].index as int) && plans_for(
            probe,
            plans[k].index as int,
            plans[k],
        )
    &&& forall|i: int| 0 <= i < list.len() ==> has_plan(plans, #[trigger] list[i])
}

/// There is a plan for a fan.
pub open spec fn has_plan(plans: Seq<crate::prepare::FanPlanView>, fan: u8) -> bool {
    exists|k: int| 0 <= k < plans.len() && (#[trigger] plans[k]).index == fan
}

/// A list that goes on with a fan that it named before.
proof fn lemma_named_again(
    probe: crate::probe::ProbeView,
    rest: Seq<u8>,
    last: u8,
    front: Seq<crate::prepare::FanPlanView>,
    places: Seq<int>,
)
    requires
        plans_along(probe, rest, front, places),
        rest.contains(last),
    ensures
        plans_along(probe, rest.push(last), front, places),
{
    let list = rest.push(last);
    let m = choose|m: int| 0 <= m < rest.len() && rest[m] == last;
    assert(has_plan(front, rest[m]));
    assert forall|i: int| 0 <= i < list.len() implies has_plan(front, #[trigger] list[i]) by {
        if i < rest.len() {
            assert(has_plan(front, rest[i]));
        }
    }
    assert forall|k: int| 0 <= k < front.len() implies first_at(
        list,
        (#[trigger] front[k]).index,
        places[k],
    ) by {
        lemma_first_stays(rest, last, front[k].index, places[k]);
    }
}

proof fn lemma_first_stays(rest: Seq<u8>, last: u8, x: u8, i: int)
    requires
        first_at(rest, x, i),
    ensures
        first_at(rest.push(last), x, i),
{
    let list = rest.push(last);
    assert forall|j: int| 0 <= j < i implies #[trigger] list[j] != x by {
        assert(rest[j] == list[j]);
    }
}

/// A list that goes on with a fan that it did not name before.
proof fn lemma_named_anew(
    probe: crate::probe::ProbeView,
    rest: Seq<u8>,
    last: u8,
    front: Seq<crate::prepare::FanPlanView>,
    places: Seq<int>,
    p: crate::prepare::FanPlanView,
)
    requires
        plans_along(probe, rest, front, places),
        !rest.contains(last),
        can_control(probe, last as int),
        plans_for(probe, last as int, p),
    ensures
        plans_along(probe, rest.push(last), front.push(p), places.push(rest.len() as int)),
{
    let list = rest.push(last);
    let all = front.push(p);
    let more = places.push(rest.len() as int);
    assert forall|i: int| 0 <= i < list.len() implies has_plan(all, #[trigger] list[i]) by {
        if i < rest.len() {
            assert(has_plan(front, rest[i]));
            let k = choose|k: int| 0 <= k < front.len() && (#[trigger] front[k]).index == rest[i];
            assert(all[k].index == list[i]);
        } else {
            assert(all[front.len() as int].index == list[i]);
        }
    }
    assert forall|k: int| 0 <= k < front.len() implies places[k] < rest.len() by {
        assert(first_at(rest, front[k].index, places[k]));
    }
    assert forall|k: int| 0 <= k < all.len() implies first_at(
        list,
        (#[trigger] all[k]).index,
        more[k],
    ) && can_control(probe, all[k].index as int) && plans_for(
        probe,
        all[k].index as int,
        all[k],
    ) by {
        if k < front.len() {
            assert(all[k] == front[k]);
            lemma_first_stays(rest, last, front[k].index, places[k]);
        } else {
            assert forall|j: int| 0 <= j < rest.len() implies #[trigger] list[j] != last by {
                assert(rest[j] == list[j]);
            }
        }
    }
}

proof fn lemma_without_repeats(list: Seq<u8>)
    ensures
        forall|x: u8|
            #[trigger] crate::prepare::without_repeats(list).contains(x) <==> list.contains(x),
    decreases list.len(),
{
    if list.len() > 0 {
        let rest = list.drop_last();
        lemma_without_repeats(rest);
        let front = crate::prepare::without_repeats(rest);
        let all = crate::prepare::without_repeats(list);
        assert forall|x: u8| #[trigger] all.contains(x) <==> list.contains(x) by {
            if list.contains(x) {
                let i = choose|i: int| 0 <= i < list.len() && list[i] == x;
                if i < rest.len() {
                    assert(rest[i] == x);
                    assert(front.contains(x));
                    let j = choose|j: int| 0 <= j < front.len() && front[j] == x;
                    assert(all[j] == x);
                } else if !front.contains(x) {
                    assert(all[all.len() - 1] == x);
                }
            }
            if all.contains(x) {
                let j = choose|j: int| 0 <= j < all.len() && all[j] == x;
                if j < front.len() {
                    assert(front[j] == x);
                    assert(front.contains(x));
                    let i = choose|i: int| 0 <= i < rest.len() && rest[i] == x;
                    assert(list[i] == x);
                } else {
                    assert(list[list.len() - 1] == x);
                }
            }
        }
    }
}

/// All fans of a list can be controlled.
pub open spec fn all_can(probe: crate::probe::ProbeView, list: Seq<u8>) -> bool {
    forall|i: int| 0 <= i < list.len() ==> can_control(probe, #[trigger] list[i] as int)
}

/// What comes of a list of fans: a plan for each of them, where all can be controlled;
/// else the refusal of the first one that cannot.
pub open spec fn follows_list(
    probe: crate::probe::ProbeView,
    list: Seq<u8>,
    r: Result<Seq<crate::prepare::FanPlanView>, CliError>,
) -> bool {
    match r {
        Ok(plans) => all_can(probe, list) && exists|places: Seq<int>|
            #[trigger] plans_along(probe, list, plans, places),
        Err(e) => exists|i: int| #[trigger] refused_at(probe, list, i, e),
    }
}

proof fn lemma_follows(
    probe: crate::probe::ProbeView,
    list: Seq<u8>,
    plans: Seq<crate::prepare::FanPlanView>,
    places: Seq<int>,
)
    requires
        all_can(probe, list),
        plans_along(probe, list, plans, places),
    ensures
        follows_list(probe, list, Ok(plans)),
{
    let r: Result<Seq<crate::prepare::FanPlanView>, CliError> = Ok(plans);
    assert(r->Ok_0 == plans);
    assert(exists|p: Seq<int>| #[trigger] plans_along(probe, list, plans, p));
}

proof fn lemma_planned_list(probe: crate::probe::ProbeView, list: Seq<u8>)
    ensures
        follows_list(probe, list, crate::prepare::planned_list(probe, list)),
    decreases list.len(),
{
    if list.len() == 0 {
        lemma_follows(probe, list, seq![], seq![]);
    } else {
        let rest = list.drop_last();
        let last = list.last();
        lemma_planned_list(probe, rest);
        lemma_without_repeats(rest);
        plans_are_the_probes(probe, last);
        assert(crate::prepare::without_repeats(rest).contains(last) <==> rest.contains(last));
        match crate::prepare::planned_list(probe, rest) {
            Err(e) => {
                let i = choose|i: int| #[trigger] refused_at(probe, rest, i, e);
                assert(refused_at(probe, list, i, e)) by {
                    assert forall|k: int| 0 <= k < i implies can_control(
                        probe,
                        #[trigger] list[k] as int,
                    ) by {
                        assert(rest[k] == list[k]);
                    }
                }
            },
            Ok(front) => {
                let places = choose|places: Seq<int>| plans_along(probe, rest, front, places);
                assert forall|k: int| 0 <= k < rest.len() implies can_control(
                    probe,
                    #[trigger] list[k] as int,
                ) by {
                    assert(rest[k] == list[k]);
                }
                assert(rest.push(last) =~= list);
                if rest.contains(last) {
                    let m = choose|m: int| 0 <= m < rest.len() && rest[m] == last;
                    assert(can_control(probe, rest[m] as int));
                    lemma_named_again(probe, rest, last, front, places);
                    lemma_follows(probe, list, front, places);
                } else if crate::prepare::planned(probe, last) is Ok {
                    let p = crate::prepare::planned(probe, last)->Ok_0;
                    lemma_named_anew(probe, rest, last, front, places, p);
                    lemma_follows(probe, list, front.push(p), places.push(rest.len() as int));
                } else {
                    let e = crate::prepare::planned(probe, last)->Err_0;
                    assert(refused_at(probe, list, list.len() - 1, e));
                }
            },
        }
    }
}

/// The fan at place `i` of a list is the first one that cannot be controlled, and `e`
/// is why.
pub open spec fn refused_at(
    probe: crate::probe::ProbeView,
    list: Seq<u8>,
    i: int,
    e: CliError,
) -> bool {
    &&& 0 <= i < list.len()
    &&& forall|k: int| 0 <= k < i ==> can_control(probe, #[trigger] list[k] as int)
    &&& !can_control(probe, list[i] as int)
    &&& e == if list[i] >= probe.fan_count {
        CliError::FanOutOfRange { fan: list[i], fan_count: probe.fan_count }
    } else {
        CliError::NotControllable { fan: list[i] }
    }
}

/// Selecting fans by a list selects each of them once, in the order in which they are
/// first named, each by its own keys. It is refused exactly if one of them cannot be
/// controlled, and the first such fan is the reason.
pub proof fn a_list_selects_its_fans(probe: crate::probe::ProbeView, list: Seq<u8>)
    ensures
        follows_list(
            probe,
            list,
            crate::prepare::planned_selection(
                probe,
                crate::selection::FanSelectionView::Only(list),
            ),
        ),
{
    lemma_planned_list(probe, list);
}

/// `r` is the first reading of a fan.
pub open spec fn first_reading(readings: Seq<FanReading>, fan: u8, r: FanReading) -> bool {
    exists|i: int|
        {
            &&& 0 <= i < readings.len()
            &&& #[trigger] readings[i] == r
            &&& r.index == fan
            &&& forall|k: int| 0 <= k < i ==> (#[trigger] readings[k]).index != fan
        }
}

/// There is no reading of a fan.
pub open spec fn not_read(readings: Seq<FanReading>, fan: u8) -> bool {
    forall|k: int| 0 <= k < readings.len() ==> (#[trigger] readings[k]).index != fan
}

/// The reading of a fan is the first one with its index.
pub proof fn readings_are_found(readings: Seq<FanReading>, fan: u8)
    ensures
        match crate::prepare::reading_of(readings, fan) {
            Some(r) => first_reading(readings, fan, r),
            None => not_read(readings, fan),
        },
    decreases readings.len(),
{
    if readings.len() > 0 {
        let rest = readings.skip(1);
        if readings[0].index != fan {
            readings_are_found(rest, fan);
            match crate::prepare::reading_of(readings, fan) {
                Some(r) => {
                    let i = choose|i: int|
                        {
                            &&& 0 <= i < rest.len()
                            &&& #[trigger] rest[i] == r
                            &&& r.index == fan
                            &&& forall|k: int| 0 <= k < i ==> (#[trigger] rest[k]).index != fan
                        };
                    assert(readings[i + 1] == r);
                    assert forall|k: int| 0 <= k < i + 1 implies (#[trigger] readings[k]).index
                        != fan by {
                        if k > 0 {
                            assert(rest[k - 1] == readings[k]);
                        }
                    }
                },
                None => {
                    assert forall|k: int| 0 <= k < readings.len() implies (
                    #[trigger] readings[k]).index != fan by {
                        if k > 0 {
                            assert(rest[k - 1] == readings[k]);
                        }
                    }
                },
            }
        } else {
            assert(readings[0].index == fan);
        }
    }
}

/// The sensors that count are those on the list if it was made on this machine; else
/// all count, and the user is told why.
pub open spec fn sensors_chosen(
    calibration: Option<SensorList>,
    allow: Option<Seq<Seq<char>>>,
    notice: Option<crate::prepare::NoticeView>,
) -> bool {
    match calibration {
        None => allow is None && notice == Some(crate::prepare::NoticeView::NoCalibration),
        Some(c) => if c.matches_host {
            &&& notice is None
            &&& allow is Some
            &&& allow->0.len() == c.sensors@.len()
            &&& forall|i: int|
                0 <= i < c.sensors@.len() ==> #[trigger] allow->0[i] == c.sensors@[i]@
        } else {
            allow is None && notice == Some(crate::prepare::NoticeView::HostMismatch)
        },
    }
}

/// What a speed is held with. It is finite, the user is root, the fan is planned by its
/// own keys and comes with its own reading, and the sensors are the chosen ones. The
/// speed is the one that was asked for, or the bound of the fan's range that it is
/// beyond; just the one that was asked for where the user wants no clamping.
pub proof fn a_speed_is_held_as_asked(task: SetTask, facts: Facts)
    ensures
        crate::prepare::set_need(task, facts) matches crate::prepare::NeedView::Ready(start) ==> {
            &&& task.rpm.finite() && facts.root
            &&& facts.probe is Some && facts.readings is Some && facts.calibration is Some
            &&& start.fans.len() == 1 && start.live.len() == 1
            &&& can_control(facts.probe->0@, task.fan as int)
            &&& plans_for(facts.probe->0@, task.fan as int, start.fans[0])
            &&& first_reading(facts.readings->0@, task.fan, start.live[0])
            &&& sensors_chosen(facts.calibration->0, start.allow, start.notice)
            &&& start.target is Some
            &&& task.no_clamp ==> start.target == Some(task.rpm)
            &&& !task.no_clamp ==> moved_into(
                start.target->0,
                task.rpm,
                start.live[0].min_rpm,
                start.live[0].max_rpm,
            )
        },
{
    if facts.readings is Some {
        readings_are_found(facts.readings->0@, task.fan);
    }
    if facts.probe is Some {
        plans_are_the_probes(facts.probe->0@, task.fan);
    }
}

/// A speed is held as soon as all is known, unless it is no number, the user is not
/// root, or the fan cannot be controlled or was not read; and what is missing is asked
/// for in order, each thing only once all before it are there.
pub proof fn holding_a_speed_asks_in_order(task: SetTask, facts: Facts)
    ensures
        ({
            let need = crate::prepare::set_need(task, facts);
            let asked = task.rpm.finite() && facts.root;
            let controlled = facts.probe is Some && can_control(
                facts.probe->0@,
                task.fan as int,
            );
            let read = facts.readings is Some && !not_read(facts.readings->0@, task.fan);
            &&& !task.rpm.finite() <==> need == crate::prepare::NeedView::Refused(
                CliError::RpmNotFinite { rpm: task.rpm },
            )
            &&& need is Root <==> task.rpm.finite() && !facts.root
            &&& need is Probe <==> asked && facts.probe is None
            &&& need is Readings <==> asked && controlled && facts.readings is None
            &&& need is Calibration <==> asked && controlled && read && facts.calibration is None
            &&& need is Ready <==> asked && controlled && read && facts.calibration is Some
            &&& !(need is Smoke)
            &&& asked && facts.probe is Some && task.fan >= facts.probe->0@.fan_count ==> need
                == crate::prepare::NeedView::Refused(
                CliError::FanOutOfRange {
                    fan: task.fan,
                    fan_count: facts.probe->0@.fan_count,
                },
            )
            &&& asked && facts.probe is Some && task.fan < facts.probe->0@.fan_count
                && !controlled ==> need == crate::prepare::NeedView::Refused(
                CliError::NotControllable { fan: task.fan },
            )
            &&& asked && controlled && facts.readings is Some && !read ==> need
                == crate::prepare::NeedView::Refused(CliError::NotRead { fan: task.fan })
        }),
{
    if facts.readings is Some {
        readings_are_found(facts.readings->0@, task.fan);
    }
    if facts.probe is Some {
        plans_are_the_probes(facts.probe->0@, task.fan);
    }
}

/// The user is told of the speed that is held before it is: where it was moved, of the
/// one that was asked for and of the one that is held; where it was left alone, of its
/// lying outside of the fan's range. What is told is what is held afterwards.
pub proof fn the_user_is_told_of_the_speed(task: SetTask, facts: Facts, known: Option<SensorList>)
    requires
        crate::prepare::set_need(task, facts) is Calibration,
    ensures
        ({
            let notice = crate::prepare::set_need(task, facts)->notice;
            let later = Facts { calibration: Some(known), ..facts };
            let start = crate::prepare::set_need(task, later)->Ready_0;
            let target = start.target->0;
            let (lo, hi) = (start.live[0].min_rpm, start.live[0].max_rpm);
            &&& crate::prepare::set_need(task, later) is Ready
            &&& start.target is Some
            &&& task.no_clamp && ((!lo.nan() && task.rpm.value() < lo.value()) || (!hi.nan()
                && hi.value() < task.rpm.value())) ==> notice == Some(
                crate::prepare::NoticeView::OutsideSpec {
                    rpm: task.rpm,
                    min_rpm: lo,
                    max_rpm: hi,
                },
            )
            &&& task.no_clamp && !(!lo.nan() && task.rpm.value() < lo.value()) && !(!hi.nan()
                && hi.value() < task.rpm.value()) ==> notice is None
            &&& !task.no_clamp && crate::margin::apart(target, task.rpm) ==> notice == Some(
                crate::prepare::NoticeView::Clamped { from: task.rpm, to: target },
            )
            &&& !task.no_clamp && !crate::margin::apart(target, task.rpm) ==> notice is None
            &&& !task.no_clamp && target == task.rpm ==> notice is None
        }),
{
    lemma_margin_is_positive();
}

proof fn lemma_margin_is_positive()
    ensures
        crate::margin::margin_units() > 0,
{
    lemma_pow2_pos(1014);
    vstd::arithmetic::mul::lemma_mul_strictly_positive(
        crate::margin::MARGIN as int,
        pow2(1014) as int,
    );
}

/// Two finite numbers are apart as soon as they differ by a ninety-ninth, and are not
/// where they differ by no more than a hundredth; it does not matter which is which.
pub proof fn a_hundredth_is_no_difference(a: Binary64, b: Binary64)
    requires
        a.finite() && b.finite(),
    ensures
        crate::margin::apart(a, b) == crate::margin::apart(b, a),
        -pow2(1074) <= 100 * (a.value() - b.value()) <= pow2(1074) ==> !crate::margin::apart(
            a,
            b,
        ),
        99 * (a.value() - b.value()) >= pow2(1074) ==> crate::margin::apart(a, b),
        99 * (b.value() - a.value()) >= pow2(1074) ==> crate::margin::apart(a, b),
{
    lemma_pow2_adds(60, 1014);
    lemma2_to64();
    lemma_pow2_adds(32, 28);
    let w = pow2(1014) as int;
    lemma_pow2_pos(1014);
    assert(pow2(60) == 0x1000_0000_0000_0000);
    assert(pow2(1074) == 0x1000_0000_0000_0000 * w);
    assert(crate::margin::margin_units() == 0x28_f5c2_8f5c_28f7 * w);
}

/// What is no number is not apart from anything, and an infinity is apart from all but
/// itself.
pub proof fn infinities_are_apart(a: Binary64, b: Binary64)
    ensures
        a.nan() || b.nan() ==> !crate::margin::apart(a, b),
        !a.nan() && !b.nan() && (!a.finite() || !b.finite()) ==> (crate::margin::apart(a, b)
            <==> a.value() != b.value()),
{
    if !a.nan() && !b.nan() && (!a.finite() || !b.finite()) && a.value() == b.value() {
        if a.magnitude() < b.magnitude() {
            crate::binary64::lemma_units_increase(52, a.magnitude(), b.magnitude());
        }
        if b.magnitude() < a.magnitude() {
            crate::binary64::lemma_units_increase(52, b.magnitude(), a.magnitude());
        }
        assert(a.units() == b.units());
        crate::binary64::lemma_units_increase(52, 0, 0x7ff0_0000_0000_0000);
        crate::binary64::value_identifies_number(a, b);
    }
}

/// The readings are those of the planned fans, in their order.
pub open spec fn readings_beside(
    readings: Seq<FanReading>,
    plans: Seq<crate::prepare::FanPlanView>,
    live: Seq<FanReading>,
) -> bool {
    &&& live.len() == plans.len()
    &&& forall|i: int|
        0 <= i < plans.len() ==> first_reading(readings, (#[trigger] plans[i]).index, live[i])
}

proof fn lemma_live(readings: Seq<FanReading>, plans: Seq<crate::prepare::FanPlanView>)
    ensures
        match crate::prepare::live_of(readings, plans) {
            Ok(live) => readings_beside(readings, plans, live),
            Err(e) => exists|i: int|
                {
                    &&& 0 <= i < plans.len()
                    &&& not_read(readings, (#[trigger] plans[i]).index)
                    &&& e == (CliError::NotRead { fan: plans[i].index })
                    &&& forall|k: int|
                        0 <= k < i ==> !not_read(readings, (#[trigger] plans[k]).index)
                },
        },
    decreases plans.len(),
{
    if plans.len() > 0 {
        let rest = plans.drop_last();
        lemma_live(readings, rest);
        readings_are_found(readings, plans.last().index);
        match crate::prepare::live_of(readings, rest) {
            Ok(front) => {
                assert forall|k: int| 0 <= k < rest.len() implies first_reading(
                    readings,
                    (#[trigger] plans[k]).index,
                    front[k],
                ) by {
                    assert(rest[k] == plans[k]);
                }
                assert(plans[plans.len() - 1] == plans.last());
                if crate::prepare::reading_of(readings, plans.last().index) is None {
                    assert forall|k: int| 0 <= k < rest.len() implies !not_read(
                        readings,
                        (#[trigger] plans[k]).index,
                    ) by {
                        assert(first_reading(readings, plans[k].index, front[k]));
                    }
                }
            },
            Err(e) => {
                let i = choose|i: int|
                    {
                        &&& 0 <= i < rest.len()
                        &&& not_read(readings, (#[trigger] rest[i]).index)
                        &&& e == (CliError::NotRead { fan: rest[i].index })
                        &&& forall|k: int|
                            0 <= k < i ==> !not_read(readings, (#[trigger] rest[k]).index)
                    };
                assert(plans[i] == rest[i]);
                assert forall|k: int| 0 <= k < i implies !not_read(
                    readings,
                    (#[trigger] plans[k]).index,
                ) by {
                    assert(plans[k] == rest[k]);
                }
            },
        }
    }
}

/// What fans follow a curve with: the selected ones, each with its own reading beside
/// it, no speed to hold, and the chosen sensors. A user who is not root is shown the
/// same readings, and that is all.
pub proof fn a_curve_is_followed_by_the_selected_fans(
    sel: crate::selection::FanSelectionView,
    facts: Facts,
)
    ensures
        ({
            let need = crate::prepare::run_need(sel, facts);
            let plans = crate::prepare::planned_selection(facts.probe->0@, sel);
            &&& need is Probe <==> facts.probe is None
            &&& !(need is Root)
            &&& facts.probe is Some && plans is Err ==> need == crate::prepare::NeedView::Refused(
                plans->Err_0,
            )
            &&& need is Readings <==> facts.probe is Some && plans is Ok && facts.readings is None
            &&& need matches crate::prepare::NeedView::Smoke { live } ==> !facts.root
                && facts.readings is Some && readings_beside(
                facts.readings->0@,
                plans->Ok_0,
                live,
            )
            &&& need is Calibration ==> facts.root && facts.calibration is None
                && need->notice is None
            &&& need matches crate::prepare::NeedView::Ready(start) ==> {
                &&& facts.root && facts.readings is Some && facts.calibration is Some
                &&& plans == Ok::<Seq<crate::prepare::FanPlanView>, CliError>(start.fans)
                &&& readings_beside(facts.readings->0@, start.fans, start.live)
                &&& start.target is None
                &&& sensors_chosen(facts.calibration->0, start.allow, start.notice)
            }
            &&& facts.probe is Some && plans is Ok && facts.readings is Some && (forall|i: int|
                0 <= i < plans->Ok_0.len() ==> !not_read(
                    facts.readings->0@,
                    (#[trigger] plans->Ok_0[i]).index,
                )) ==> {
                &&& need is Smoke <==> !facts.root
                &&& need is Calibration <==> facts.root && facts.calibration is None
                &&& need is Ready <==> facts.root && facts.calibration is Some
            }
        }),
{
    if facts.probe is Some && facts.readings is Some {
        if let Ok(plans) = crate::prepare::planned_selection(facts.probe->0@, sel) {
            lemma_live(facts.readings->0@, plans);
        }
    }
}

/// The making of a profile goes through its steps in order as long as each is done:
/// finding a place where none was given, seeing that it may be written to, looking at
/// the machine, probing, reading and counting its fans, making the directory, writing
/// the profile.
pub proof fn profiles_are_made_step_by_step(given: bool, outcomes: Seq<Outcome>)
    requires
        forall|i: int| 0 <= i < outcomes.len() ==> #[trigger] outcomes[i] == Outcome::Done,
    ensures
        ({
            let step = crate::prepare::init_state(given, outcomes);
            let n = if given {
                outcomes.len() + 1
            } else {
                outcomes.len()
            };
            &&& n == 0 ==> step == InitStep::FindPath
            &&& n == 1 ==> step == InitStep::CheckOverwrite
            &&& n == 2 ==> step == InitStep::DetectHost
            &&& n == 3 ==> step == InitStep::Probe
            &&& n == 4 ==> step == InitStep::ReadFans
            &&& n == 5 ==> step == InitStep::CountFans
            &&& n == 6 ==> step == InitStep::MakeDirectory
            &&& n == 7 ==> step == InitStep::WriteProfile
            &&& n >= 8 ==> step == InitStep::Written
        }),
    decreases outcomes.len(),
{
    if outcomes.len() > 0 {
        let rest = outcomes.drop_last();
        assert forall|i: int| 0 <= i < rest.len() implies #[trigger] rest[i] == Outcome::Done by {
            assert(rest[i] == outcomes[i]);
        }
        profiles_are_made_step_by_step(given, rest);
        assert(outcomes.last() == outcomes[outcomes.len() - 1]);
    }
}

/// Where a step is not done the making ends: without a profile for want of fans where
/// they are counted, with the step's own error anywhere else.
pub proof fn a_step_that_fails_ends_the_making(given: bool, outcomes: Seq<Outcome>)
    requires
        outcomes.len() > 0,
        outcomes.last() != Outcome::Done,
        forall|i: int|
            0 <= i < outcomes.len() - 1 ==> #[trigger] outcomes[i] == Outcome::Done,
    ensures
        ({
            let end = crate::prepare::init_state(given, outcomes);
            let n = if given {
                outcomes.len() + 1
            } else {
                outcomes.len()
            };
            &&& n == 6 ==> end == InitStep::NoFans
            &&& n <= 8 && n != 6 ==> end == InitStep::Aborted
        }),
{
    let rest = outcomes.drop_last();
    assert forall|i: int| 0 <= i < rest.len() implies #[trigger] rest[i] == Outcome::Done by {
        assert(rest[i] == outcomes[i]);
    }
    profiles_are_made_step_by_step(given, rest);
}

} // verus!
