//! What a fan's session leaves behind in a machine that keeps what is written to it.
use crate::binary64::Binary64;
use crate::laws::machine::{of_fan, tells_refusal, Held};
use crate::laws::numbers::{gap, mode_typed, typed};
use crate::probe::ModeKeyCasing;
use crate::smc::Reply;
use vstd::arithmetic::power2::*;
use vstd::prelude::*;

verus! {

/// A machine takes a call about a key that it has; a write (command 6) only if it
/// gives the key's type and size.
pub open spec fn takes(keys: Map<u32, Held>, input: crate::smc::SmcKeyDataView) -> bool {
    &&& keys.dom().contains(input.key)
    &&& input.data8 == 6 ==> {
        &&& input.key_info.data_type == keys[input.key].info.data_type
        &&& input.key_info.data_size == keys[input.key].info.data_size
    }
}

/// What a machine holds after a call: what was written is kept.
pub open spec fn after_call(keys: Map<u32, Held>, input: crate::smc::SmcKeyDataView) -> Map<
    u32,
    Held,
> {
    if input.data8 == 6 && takes(keys, input) {
        keys.insert(input.key, Held { info: keys[input.key].info, bytes: input.bytes })
    } else {
        keys
    }
}

/// A reply is how a machine with these keys answers a call.
pub open spec fn replies(
    keys: Map<u32, Held>,
    input: crate::smc::SmcKeyDataView,
    reply: Reply,
) -> bool {
    &&& (reply.rc == 0 && reply.out.result == 0) <==> takes(keys, input)
    &&& takes(keys, input) && input.data8 == 9 ==> reply.out.key_info == keys[input.key].info
    &&& takes(keys, input) && input.data8 == 5 && input.key_info == keys[input.key].info
        ==> reply.out.bytes@ == keys[input.key].bytes
}

/// An exchange with a machine: what it holds before each call and after the last one,
/// and what it replies to the call that is due.
pub open spec fn served<V>(
    states: Seq<Map<u32, Held>>,
    exchange: spec_fn(Seq<Reply>) -> crate::smc::StepView<V>,
    t: Seq<Reply>,
) -> bool {
    &&& states.len() == t.len() + 1
    &&& forall|n: int|
        0 <= n < t.len() ==> {
            &&& #[trigger] exchange(t.take(n)) is Call
            &&& replies(states[n], exchange(t.take(n))->input, t[n])
            &&& states[n + 1] == after_call(states[n], exchange(t.take(n))->input)
        }
}

/// The mode key of a fan.
pub open spec fn mode_code(i: int, casing: ModeKeyCasing) -> u32 {
    match casing {
        ModeKeyCasing::Upper => of_fan(i, 'M', 'd'),
        ModeKeyCasing::Lower => of_fan(i, 'm', 'd'),
    }
}

/// The value that a machine holds under a key is the given number of whole ones.
pub open spec fn holds_number(keys: Map<u32, Held>, code: u32, n: int) -> bool {
    let d = crate::codec::decoded(keys[code].info, keys[code].bytes);
    &&& keys.dom().contains(code)
    &&& d is Some && !d->0.nan()
    &&& d->0.value() == n * pow2(1074)
}

/// Two machines differ in what they hold under one key at most, and not in its type.
pub open spec fn same_but(a: Map<u32, Held>, b: Map<u32, Held>, code: u32) -> bool {
    &&& a.dom() =~= b.dom()
    &&& forall|k: u32| a.dom().contains(k) ==> (#[trigger] a[k]).info == b[k].info
    &&& forall|k: u32| a.dom().contains(k) && k != code ==> #[trigger] a[k] == b[k]
}

pub proof fn lemma_session_codes(i: u8, casing: ModeKeyCasing)
    ensures
        crate::fourcc::fan_code(i, crate::probe::mode_suffix(casing)) == mode_code(
            i as int,
            casing,
        ),
        crate::probe::target_code(i) == of_fan(i as int, 'T', 'g'),
        mode_code(i as int, casing) != of_fan(i as int, 'T', 'g'),
{
}

/// Turning manual mode on or off in a machine that keeps what is written.
proof fn lemma_write_and_read_back(
    keys: Map<u32, Held>,
    key: u32,
    data_type: Seq<char>,
    data_size: u32,
    on: bool,
    t: Seq<Reply>,
)
    requires
        keys.dom().contains(key),
        mode_typed(data_type, data_size, keys[key].info),
        t.len() >= 3,
        ({
            let code = keys[key].info.data_type;
            let payload = crate::codec::mode_payload(data_type, data_size, on)->0;
            let input = crate::smc::write_request(key, code, payload);
            let later = after_call(keys, input);
            &&& replies(keys, input, t[0])
            &&& replies(later, crate::smc::info_request(key), t[1])
            &&& replies(later, crate::smc::bytes_request(key, t[1].out.key_info), t[2])
        }),
    ensures
        ({
            let code = keys[key].info.data_type;
            let payload = crate::codec::mode_payload(data_type, data_size, on)->0;
            let input = crate::smc::write_request(key, code, payload);
            let later = after_call(keys, input);
            let step = crate::smc::write_and_read_back(key, code, payload, t);
            &&& crate::fourcc::code_named(data_type) == Some(code)
            &&& crate::codec::mode_payload(data_type, data_size, on) is Some
            &&& payload.len() <= 32
            &&& crate::smc::refusal(t[0]) is None
            &&& crate::smc::refusal(t[1]) is None
            &&& crate::smc::refusal(t[2]) is None
            &&& holds_number(
                later,
                key,
                if on {
                    1
                } else {
                    0
                },
            )
            &&& same_but(keys, later, key)
            &&& step is Done
            &&& step->Done_0.number() is Some
            &&& step->Done_0.number()->0.below(crate::session::half()) == !on
            &&& step->Done_0.number()->0.reaches(crate::session::half()) == on
        }),
{
    crate::laws::numbers::modes_are_one_and_zero(data_type, data_size, keys[key].info, on);
    crate::session::lemma_mode_numbers();
    let code = keys[key].info.data_type;
    let payload = crate::codec::mode_payload(data_type, data_size, on)->0;
    let input = crate::smc::write_request(key, code, payload);
    let later = after_call(keys, input);
    assert(takes(keys, input));
    assert(t.skip(1)[0] == t[1] && t.skip(1)[1] == t[2]);
    assert(later[key].bytes == crate::smc::zero_filled(payload));
    assert(t[1].out.key_info == later[key].info);
    assert(t[2].out.bytes@ == later[key].bytes);
}

/// Taking a fan over succeeds where its mode key keeps what is written. The fan is
/// then in manual mode, nothing else has changed, and what its target key held is
/// remembered with its type, where there is one.
pub proof fn taking_over_sets_manual_mode(
    fan: u8,
    casing: ModeKeyCasing,
    info: crate::smc::KeyInfoView,
    states: Seq<Map<u32, Held>>,
    t: Seq<Reply>,
)
    requires
        served(states, |u: Seq<Reply>| crate::session::arming(fan, casing, info, u), t),
        !(crate::session::arming(fan, casing, info, t) is Call),
        states[0].dom().contains(mode_code(fan as int, casing)),
        mode_typed(
            info.data_type,
            info.data_size,
            states[0][mode_code(fan as int, casing)].info,
        ),
    ensures
        ({
            let target = of_fan(fan as int, 'T', 'g');
            let s = crate::session::arming(fan, casing, info, t)->Done_0;
            &&& crate::session::arming(fan, casing, info, t) is Done
            &&& holds_number(states.last(), mode_code(fan as int, casing), 1)
            &&& same_but(states[0], states.last(), mode_code(fan as int, casing))
            &&& s.armed && !s.restored
            &&& s.fan_index == fan
            &&& s.mode_key == mode_code(fan as int, casing)
            &&& s.mode_type == info.data_type && s.mode_size == info.data_size
            &&& s.previous is Some <==> states[0].dom().contains(target)
                && states[0][target].info.data_size <= 32
            &&& s.previous matches Some(old) ==> {
                &&& old.data_type == states[0][target].info.data_type
                &&& old.data == states[0][target].bytes.take(
                    states[0][target].info.data_size as int,
                )
            }
        }),
{
    let f = |u: Seq<Reply>| crate::session::arming(fan, casing, info, u);
    let target = of_fan(fan as int, 'T', 'g');
    let key = mode_code(fan as int, casing);
    let keys = states[0];
    lemma_session_codes(fan, casing);
    crate::laws::numbers::modes_are_one_and_zero(
        info.data_type,
        info.data_size,
        keys[key].info,
        true,
    );
    assert(t.len() > 0);
    assert(f(t.take(0)) is Call);
    let k: int = if keys.dom().contains(target) {
        2
    } else {
        1
    };
    assert(t.take(1)[0] == t[0]);
    if k == 2 {
        assert(t.len() > 1) by {
            if t.len() == 1 {
                assert(t.take(1) =~= t);
            }
        }
        assert(f(t.take(1)) is Call);
        assert(states[2] == keys);
    }
    lemma_mode_phase(f, states, t, k, fan, casing, info);
}

/// The part of taking over behind the target's reading.
proof fn lemma_mode_phase(
    f: spec_fn(Seq<Reply>) -> crate::smc::StepView<crate::session::SessionView>,
    states: Seq<Map<u32, Held>>,
    t: Seq<Reply>,
    k: int,
    fan: u8,
    casing: ModeKeyCasing,
    info: crate::smc::KeyInfoView,
)
    requires
        f == (|u: Seq<Reply>| crate::session::arming(fan, casing, info, u)),
        served(states, f, t),
        !(f(t) is Call),
        1 <= k <= 2,
        t.len() >= k,
        crate::smc::refusal(t[0]) is Some <==> k == 1,
        states[k].dom().contains(mode_code(fan as int, casing)),
        mode_typed(
            info.data_type,
            info.data_size,
            states[k][mode_code(fan as int, casing)].info,
        ),
    ensures
        t.len() == k + 3,
        f(t) is Done,
        f(t)->Done_0 == crate::session::taken_over(
            fan,
            casing,
            info,
            if k == 1 {
                None
            } else {
                crate::session::kept_target(t[0], t[1])
            },
        ),
        holds_number(states.last(), mode_code(fan as int, casing), 1),
        same_but(states[k], states.last(), mode_code(fan as int, casing)),
{
    lemma_session_codes(fan, casing);
    let key = mode_code(fan as int, casing);
    let keys = states[k];
    crate::laws::numbers::modes_are_one_and_zero(
        info.data_type,
        info.data_size,
        keys[key].info,
        true,
    );
    assert forall|n: int| k <= n <= t.len() implies (#[trigger] t.take(n)).skip(k)
        =~= t.skip(k).take(n - k) && t.take(n)[0] == t[0] && (k == 2 ==> t.take(n)[1] == t[1]) by {}
    assert(t.take(t.len() as int) =~= t);
    let rest = t.skip(k);
    if t.len() == k {
        assert(rest.len() == 0);
    }
    assert(t.len() > k);
    assert(f(t.take(k)) is Call);
    assert(t.take(k).skip(k).len() == 0);
    let payload = crate::codec::mode_payload(info.data_type, info.data_size, true)->0;
    let input = crate::smc::write_request(key, keys[key].info.data_type, payload);
    assert(f(t.take(k))->input == input);
    assert(states[k + 1] == after_call(keys, input));
    assert(takes(keys, input));
    assert(t.len() > k + 1) by {
        if t.len() == k + 1 {
            assert(rest[0] == t[k]);
            assert(rest.skip(1).len() == 0);
        }
    }
    assert(f(t.take(k + 1)) is Call);
    assert(t.take(k + 1).skip(k)[0] == t[k]);
    assert(t.take(k + 1).skip(k).skip(1).len() == 0);
    assert(f(t.take(k + 1))->input == crate::smc::info_request(key));
    assert(states[k + 2] == states[k + 1]);
    assert(t.len() > k + 2) by {
        if t.len() == k + 2 {
            assert(rest[0] == t[k]);
            assert(rest.skip(1)[0] == t[k + 1]);
            assert(rest.skip(1).len() == 1);
        }
    }
    assert(f(t.take(k + 2)) is Call);
    assert(t.take(k + 2).skip(k)[0] == t[k]);
    assert(t.take(k + 2).skip(k).skip(1)[0] == t[k + 1]);
    assert(t.take(k + 2).skip(k).skip(1).len() == 1);
    assert(f(t.take(k + 2))->input == crate::smc::bytes_request(key, t[k + 1].out.key_info));
    assert(states[k + 3] == states[k + 1]);
    assert(rest[0] == t[k] && rest[1] == t[k + 1] && rest[2] == t[k + 2]);
    lemma_write_and_read_back(keys, key, info.data_type, info.data_size, true, rest);
    if t.len() > k + 3 {
        let u = t.take(k + 3);
        assert(f(u) is Call);
        let r = u.skip(k);
        assert(r[0] == t[k] && r[1] == t[k + 1] && r[2] == t[k + 2]);
        lemma_write_and_read_back(keys, key, info.data_type, info.data_size, true, r);
    }
}

/// Two machines have the same keys, hold the same under all but two of them, and each
/// key is of the same type.
pub open spec fn same_but_two(a: Map<u32, Held>, b: Map<u32, Held>, c: u32, d: u32) -> bool {
    &&& a.dom() =~= b.dom()
    &&& forall|k: u32| a.dom().contains(k) ==> (#[trigger] a[k]).info == b[k].info
    &&& forall|k: u32| a.dom().contains(k) && k != c && k != d ==> #[trigger] a[k] == b[k]
}

/// Giving a fan back ends manual mode where the mode key keeps what is written, and
/// the target key then holds what is remembered of it. No other key is touched. It
/// ends well if nothing is remembered or the target key takes it.
pub proof fn giving_back_ends_manual_mode(
    s: crate::session::SessionView,
    states: Seq<Map<u32, Held>>,
    t: Seq<Reply>,
)
    requires
        served(states, |u: Seq<Reply>| crate::session::restoring(s, u), t),
        !(crate::session::restoring(s, t) is Call),
        s.armed && !s.restored,
        s.mode_key != of_fan(s.fan_index as int, 'T', 'g'),
        states[0].dom().contains(s.mode_key),
        mode_typed(s.mode_type, s.mode_size, states[0][s.mode_key].info),
        s.previous matches Some(old) ==> old.data.len() <= 32,
    ensures
        ({
            let target = of_fan(s.fan_index as int, 'T', 'g');
            let fits = s.previous matches Some(old) ==> states[0].dom().contains(target)
                && states[0][target].info.data_type == old.data_type
                && states[0][target].info.data_size == old.data.len();
            &&& crate::session::restoring(s, t) == crate::smc::StepView::Done(fits)
            &&& holds_number(states.last(), s.mode_key, 0)
            &&& same_but_two(states[0], states.last(), s.mode_key, target)
            &&& s.previous is None || !fits ==> same_but(states[0], states.last(), s.mode_key)
            &&& s.previous matches Some(old) ==> (fits ==> {
                &&& states.last()[target].bytes.len() == 32
                &&& states.last()[target].bytes.take(old.data.len() as int) == old.data
            })
        }),
{
    let f = |u: Seq<Reply>| crate::session::restoring(s, u);
    let target = of_fan(s.fan_index as int, 'T', 'g');
    let key = s.mode_key;
    lemma_session_codes(s.fan_index, ModeKeyCasing::Upper);
    let k: int = if s.previous is None {
        0
    } else {
        1
    };
    crate::laws::numbers::modes_are_one_and_zero(
        s.mode_type,
        s.mode_size,
        states[0][key].info,
        false,
    );
    if k == 1 {
        assert(t.len() > 0);
        assert(f(t.take(0)) is Call);
        let old = s.previous->0;
        assert(f(t.take(0))->input == crate::smc::write_request(target, old.data_type, old.data));
        assert(crate::smc::zero_filled(old.data).take(old.data.len() as int) =~= old.data);
    }
    let keys = states[k];
    assert forall|n: int| k <= n <= t.len() implies (#[trigger] t.take(n)).skip(k)
        =~= t.skip(k).take(n - k) && (k == 1 ==> t.take(n)[0] == t[0]) by {}
    assert(t.take(t.len() as int) =~= t);
    assert(t.skip(0) =~= t);
    assert forall|n: int| 0 <= n <= t.len() implies (#[trigger] t.take(n)).skip(0) =~= t.take(n) by {}
    let rest = t.skip(k);
    if t.len() == k {
        assert(rest.len() == 0);
    }
    assert(t.len() > k);
    assert(f(t.take(k)) is Call);
    assert(t.take(k).skip(k).len() == 0);
    let payload = crate::codec::mode_payload(s.mode_type, s.mode_size, false)->0;
    let input = crate::smc::write_request(key, keys[key].info.data_type, payload);
    assert(f(t.take(k))->input == input);
    assert(states[k + 1] == after_call(keys, input));
    assert(takes(keys, input));
    assert(t.len() > k + 1) by {
        if t.len() == k + 1 {
            assert(rest[0] == t[k]);
            assert(rest.skip(1).len() == 0);
        }
    }
    assert(f(t.take(k + 1)) is Call);
    assert(t.take(k + 1).skip(k)[0] == t[k]);
    assert(t.take(k + 1).skip(k).skip(1).len() == 0);
    assert(f(t.take(k + 1))->input == crate::smc::info_request(key));
    assert(states[k + 2] == states[k + 1]);
    assert(t.len() > k + 2) by {
        if t.len() == k + 2 {
            assert(rest[0] == t[k]);
            assert(rest.skip(1)[0] == t[k + 1]);
            assert(rest.skip(1).len() == 1);
        }
    }
    assert(f(t.take(k + 2)) is Call);
    assert(t.take(k + 2).skip(k)[0] == t[k]);
    assert(t.take(k + 2).skip(k).skip(1)[0] == t[k + 1]);
    assert(t.take(k + 2).skip(k).skip(1).len() == 1);
    assert(f(t.take(k + 2))->input == crate::smc::bytes_request(key, t[k + 1].out.key_info));
    assert(states[k + 3] == states[k + 1]);
    assert(rest[0] == t[k] && rest[1] == t[k + 1] && rest[2] == t[k + 2]);
    lemma_write_and_read_back(keys, key, s.mode_type, s.mode_size, false, rest);
    if t.len() > k + 3 {
        let u = t.take(k + 3);
        assert(f(u) is Call);
        let r = u.skip(k);
        assert(r[0] == t[k] && r[1] == t[k + 1] && r[2] == t[k + 2]);
        lemma_write_and_read_back(keys, key, s.mode_type, s.mode_size, false, r);
    }
    assert(t.len() == k + 3);
}

/// A fan that was taken over and is given back has the target that it had before,
/// whatever was written to it meanwhile, and is out of manual mode.
pub proof fn giving_back_undoes_taking_over(
    fan: u8,
    casing: ModeKeyCasing,
    info: crate::smc::KeyInfoView,
    before: Seq<Map<u32, Held>>,
    t: Seq<Reply>,
    later: Seq<Map<u32, Held>>,
    u: Seq<Reply>,
)
    requires
        served(before, |r: Seq<Reply>| crate::session::arming(fan, casing, info, r), t),
        !(crate::session::arming(fan, casing, info, t) is Call),
        before[0].dom().contains(mode_code(fan as int, casing)),
        mode_typed(
            info.data_type,
            info.data_size,
            before[0][mode_code(fan as int, casing)].info,
        ),
        before[0].dom().contains(of_fan(fan as int, 'T', 'g')),
        before[0][of_fan(fan as int, 'T', 'g')].bytes.len() == 32,
        before[0][of_fan(fan as int, 'T', 'g')].info.data_size <= 32,
        same_but_two(
            before.last(),
            later[0],
            mode_code(fan as int, casing),
            of_fan(fan as int, 'T', 'g'),
        ),
        served(
            later,
            |r: Seq<Reply>|
                crate::session::restoring(
                    crate::session::arming(fan, casing, info, t)->Done_0,
                    r,
                ),
            u,
        ),
        !(crate::session::restoring(crate::session::arming(fan, casing, info, t)->Done_0, u)
            is Call),
    ensures
        crate::session::restoring(crate::session::arming(fan, casing, info, t)->Done_0, u)
            == crate::smc::StepView::Done(true),
        holds_number(later.last(), mode_code(fan as int, casing), 0),
        ({
            let target = of_fan(fan as int, 'T', 'g');
            let n = before[0][target].info.data_size as int;
            &&& later.last()[target].info == before[0][target].info
            &&& later.last()[target].bytes.take(n) == before[0][target].bytes.take(n)
        }),
        forall|k: u32|
            before[0].dom().contains(k) && k != mode_code(fan as int, casing) && k != of_fan(
                fan as int,
                'T',
                'g',
            ) ==> #[trigger] later.last()[k] == before[0][k],
{
    lemma_session_codes(fan, casing);
    taking_over_sets_manual_mode(fan, casing, info, before, t);
    let s = crate::session::arming(fan, casing, info, t)->Done_0;
    giving_back_ends_manual_mode(s, later, u);
    assert forall|k: u32|
        before[0].dom().contains(k) && k != mode_code(fan as int, casing) && k != of_fan(
            fan as int,
            'T',
            'g',
        ) implies #[trigger] later.last()[k] == before[0][k] by {
        assert(before[0][k] == before.last()[k]);
        assert(before.last()[k] == later[0][k]);
        assert(later[0][k] == later.last()[k]);
    }
}

/// Taking a held fan over again puts it back into manual mode and changes nothing
/// else.
pub proof fn taking_over_again_sets_manual_mode(
    s: crate::session::SessionView,
    states: Seq<Map<u32, Held>>,
    t: Seq<Reply>,
)
    requires
        served(states, |u: Seq<Reply>| crate::session::re_arming(s, u), t),
        !(crate::session::re_arming(s, t) is Call),
        s.armed && !s.restored,
        states[0].dom().contains(s.mode_key),
        mode_typed(s.mode_type, s.mode_size, states[0][s.mode_key].info),
    ensures
        crate::session::re_arming(s, t) == crate::smc::StepView::Done(true),
        holds_number(states.last(), s.mode_key, 1),
        same_but(states[0], states.last(), s.mode_key),
{
    let f = |u: Seq<Reply>| crate::session::re_arming(s, u);
    let key = s.mode_key;
    let keys = states[0];
    crate::laws::numbers::modes_are_one_and_zero(s.mode_type, s.mode_size, keys[key].info, true);
    let payload = crate::codec::mode_payload(s.mode_type, s.mode_size, true)->0;
    let input = crate::smc::write_request(key, keys[key].info.data_type, payload);
    assert(t.len() > 0);
    assert(f(t.take(0))->input == input);
    assert(takes(keys, input));
    assert(t.len() > 1) by {
        if t.len() == 1 {
            assert(t.skip(1).len() == 0);
        }
    }
    assert(f(t.take(1)) is Call);
    assert(t.take(1)[0] == t[0]);
    assert(t.take(1).skip(1).len() == 0);
    assert(f(t.take(1))->input == crate::smc::info_request(key));
    assert(t.len() > 2) by {
        if t.len() == 2 {
            assert(t.skip(1)[0] == t[1]);
            assert(t.skip(1).len() == 1);
        }
    }
    assert(f(t.take(2)) is Call);
    assert(t.take(2)[0] == t[0]);
    assert(t.take(2).skip(1)[0] == t[1]);
    assert(t.take(2).skip(1).len() == 1);
    assert(f(t.take(2))->input == crate::smc::bytes_request(key, t[1].out.key_info));
    lemma_write_and_read_back(keys, key, s.mode_type, s.mode_size, true, t);
    if t.len() > 3 {
        let u = t.take(3);
        assert(f(u) is Call);
        assert(u[0] == t[0] && u[1] == t[1] && u[2] == t[2]);
        lemma_write_and_read_back(keys, key, s.mode_type, s.mode_size, true, u);
    }
}

/// The mode that is read is the number that the fan's mode key holds.
pub proof fn the_mode_read_is_the_mode_held(
    s: crate::session::SessionView,
    states: Seq<Map<u32, Held>>,
    t: Seq<Reply>,
)
    requires
        served(states, |u: Seq<Reply>| crate::session::mode_reading(s, u), t),
        !(crate::session::mode_reading(s, t) is Call),
    ensures
        states.last() == states[0],
        ({
            let step = crate::session::mode_reading(s, t);
            let held = states[0][s.mode_key];
            let d = crate::codec::decoded(held.info, held.bytes);
            &&& step is Done <==> states[0].dom().contains(s.mode_key) && d is Some
            &&& step is Done ==> step == crate::smc::StepView::Done(d->0)
            &&& states[0].dom().contains(s.mode_key) && d is None ==> step
                == crate::smc::StepView::<Binary64>::Failed(
                crate::error::SmcErrorView::ModeUndecodable {
                    fan_index: s.fan_index,
                    mode_type: s.mode_type,
                    mode_size: s.mode_size,
                },
            )
        }),
{
    let f = |u: Seq<Reply>| crate::session::mode_reading(s, u);
    assert(t.len() > 0);
    assert(f(t.take(0)) is Call);
    assert(states[1] == states[0]);
    if t.len() > 1 {
        assert(f(t.take(1)) is Call);
        assert(t.take(1)[0] == t[0]);
        assert(states[2] == states[0]);
        if t.len() > 2 {
            assert(f(t.take(2)) is Call);
            assert(t.take(2)[0] == t[0] && t.take(2)[1] == t[1]);
        }
    }
}

/// A speed that is set stands in the target key of its fan: in a `flt ` key as a
/// number that no single-precision number is nearer to it than, in an `fpe2` key as
/// the nearest number of quarters that there is. No other key changes.
pub proof fn the_target_holds_the_speed(
    fan: u8,
    info: crate::smc::KeyInfoView,
    rpm: Binary64,
    states: Seq<Map<u32, Held>>,
    t: Seq<Reply>,
    other: u32,
)
    requires
        served(states, |u: Seq<Reply>| crate::session::target_writing(fan, info, rpm, u), t),
        !(crate::session::target_writing(fan, info, rpm, t) is Call),
        rpm.finite(),
        states[0].dom().contains(of_fan(fan as int, 'T', 'g')),
        ({
            let held = states[0][of_fan(fan as int, 'T', 'g')].info;
            ||| info.data_type == "flt "@ && info.data_size == 4 && typed(
                held,
                'f',
                'l',
                't',
                ' ',
                4,
            )
            ||| info.data_type == "fpe2"@ && info.data_size == 2 && typed(
                held,
                'f',
                'p',
                'e',
                '2',
                2,
            )
        }),
    ensures
        crate::session::target_writing(fan, info, rpm, t) == crate::smc::StepView::Done(()),
        same_but(states[0], states.last(), of_fan(fan as int, 'T', 'g')),
        ({
            let held = states.last()[of_fan(fan as int, 'T', 'g')];
            let d = crate::codec::decoded(held.info, held.bytes);
            let q = held.bytes[0] * 0x100 + held.bytes[1];
            let quarter = pow2(1072) as int;
            &&& d is Some
            &&& info.data_size == 4 && d->0.finite() && crate::binary64::widened(other).finite()
                ==> gap(d->0.value(), rpm.value()) <= gap(
                crate::binary64::widened(other).value(),
                rpm.value(),
            )
            &&& info.data_size == 2 && rpm.value() <= 0 ==> q == 0
            &&& info.data_size == 2 && 0 <= rpm.value() <= 0xffff * quarter ==> 2 * gap(
                q * quarter,
                rpm.value(),
            ) <= quarter
            &&& info.data_size == 2 && rpm.value() >= 0xffff * quarter ==> q == 0xffff
        }),
{
    let f = |u: Seq<Reply>| crate::session::target_writing(fan, info, rpm, u);
    let target = of_fan(fan as int, 'T', 'g');
    lemma_session_codes(fan, ModeKeyCasing::Upper);
    crate::codec::lemma_type_codes();
    reveal_strlit("fpe2");
    reveal_strlit("flt ");
    assert("fpe2"@[1] == 'p' && "flt "@[1] == 'l');
    let v = crate::codec::target_bytes(info.data_type, info.data_size, rpm);
    crate::laws::numbers::every_speed_can_be_written(info.data_type, info.data_size, rpm);
    assert(crate::codec::target_payload(info.data_type, info.data_size, rpm, v));
    assert(v.len() == info.data_size);
    assert(t.len() > 0);
    let input = crate::smc::write_request(target, states[0][target].info.data_type, v);
    assert(f(t.take(0))->input == input);
    assert(takes(states[0], input));
    if t.len() > 1 {
        assert(f(t.take(1)) is Call);
        assert(t.take(1)[0] == t[0]);
    }
    let held = states.last()[target];
    assert(held.bytes == crate::smc::zero_filled(v));
    crate::laws::numbers::decoding_is_exact(held.info, held.bytes);
    if info.data_size == 4 {
        let d = crate::codec::decoded(held.info, held.bytes)->0;
        if d.finite() && crate::binary64::widened(other).finite() {
            crate::laws::numbers::written_speeds_are_nearest(rpm, v, held.info, other);
        }
    } else {
        assert(held.bytes[0] == v[0] && held.bytes[1] == v[1]);
        crate::laws::numbers::written_quarters_are_nearest(rpm, v);
    }
}

/// What is read back in two replies reads as on, or is no number that is below one half.
pub open spec fn back_on(info: Reply, value: Reply) -> bool {
    let d = crate::codec::decoded(info.out.key_info, value.out.bytes@);
    d is Some && (d->0.nan() || 2 * d->0.value() >= pow2(1074))
}

/// What is read back in two replies is a number below one half.
pub open spec fn back_off(info: Reply, value: Reply) -> bool {
    let d = crate::codec::decoded(info.out.key_info, value.out.bytes@);
    d is Some && !d->0.nan() && 2 * d->0.value() < pow2(1074)
}

/// A reply is an answer.
pub open spec fn accepted(reply: Reply) -> bool {
    reply.rc == 0 && reply.out.result == 0
}

/// The three replies from `k` on: the write was taken, and the key was read back.
pub open spec fn written_and_read(t: Seq<Reply>, k: int) -> bool {
    &&& t.len() >= k + 3
    &&& accepted(t[k]) && accepted(t[k + 1]) && accepted(t[k + 2])
}

/// On any machine, a fan is taken over only if manual mode was written and then does
/// not read as off; where it does, the fan is not taken over, and that is the reason.
pub proof fn a_fan_is_taken_over_only_in_manual_mode(
    fan: u8,
    casing: ModeKeyCasing,
    info: crate::smc::KeyInfoView,
    t: Seq<Reply>,
)
    requires
        t.len() >= 1,
    ensures
        ({
            let step = crate::session::arming(fan, casing, info, t);
            let k: int = if accepted(t[0]) {
                2
            } else {
                1
            };
            let known = (info.data_type == "ui8 "@ && info.data_size == 1) || (info.data_type
                == "flt "@ && info.data_size == 4);
            &&& step is Done ==> known && written_and_read(t, k) && back_on(t[k + 1], t[k + 2])
            &&& known && written_and_read(t, k) && back_on(t[k + 1], t[k + 2]) ==> step is Done
            &&& known && written_and_read(t, k) && !back_on(t[k + 1], t[k + 2]) ==> step
                == crate::smc::StepView::<crate::session::SessionView>::Failed(
                crate::error::SmcErrorView::ModeRejected,
            )
            &&& known && t.len() > k && t[k].rc != 0 ==> step == crate::smc::StepView::<
                crate::session::SessionView,
            >::Failed(crate::error::SmcErrorView::CallFailed { rc: t[k].rc })
            &&& known && t.len() > k && t[k].rc == 0 && t[k].out.result != 0 ==> step
                == crate::smc::StepView::<crate::session::SessionView>::Failed(
                crate::error::SmcErrorView::Refused { result: t[k].out.result },
            )
        }),
{
    crate::session::lemma_mode_numbers();
    crate::codec::lemma_type_codes();
    let k: int = if accepted(t[0]) {
        2
    } else {
        1
    };
    if t.len() >= k {
        let rest = t.skip(k);
        if t.len() > k {
            assert(rest[0] == t[k]);
        }
        if t.len() > k + 1 {
            assert(rest.skip(1)[0] == t[k + 1]);
        }
        if t.len() > k + 2 {
            assert(rest.skip(1)[1] == t[k + 2]);
        }
    }
}

proof fn lemma_attempt(key: u32, code: u32, payload: Seq<u8>, t: Seq<Reply>)
    requires
        payload.len() <= 32,
        written_and_read(t, 0),
    ensures
        crate::smc::write_and_read_back(key, code, payload, t) is Done,
        crate::session::or_else(
            crate::smc::write_and_read_back(key, code, payload, t)->Done_0.number(),
            crate::session::one(),
        ).below(crate::session::half()) == back_off(t[1], t[2]),
{
    crate::session::lemma_mode_numbers();
    assert(t.skip(1)[0] == t[1] && t.skip(1)[1] == t[2]);
}

/// Where the replies to the first attempt start: behind that to the old target, where
/// one is kept.
pub open spec fn attempts_from(s: crate::session::SessionView) -> int {
    if s.previous is None {
        0
    } else {
        1
    }
}

/// Attempt `j` of those whose replies start at `k` was carried out.
pub open spec fn attempted(t: Seq<Reply>, k: int, j: int) -> bool {
    written_and_read(t, k + 3 * j)
}

/// The mode reads as off after attempt `j` of those whose replies start at `k`.
pub open spec fn off_after(t: Seq<Reply>, k: int, j: int) -> bool {
    back_off(t[k + 3 * j + 1], t[k + 3 * j + 2])
}

/// On any machine, manual mode is ended by the first of three attempts after which it
/// reads as off, and is not if it does not after any of them; between two attempts
/// there is nothing but the next one. The fan is given back if the mode is ended and
/// its old target, where one is kept, was taken before.
pub proof fn a_fan_is_given_back_in_three_attempts(
    s: crate::session::SessionView,
    t: Seq<Reply>,
    attempts: int,
)
    requires
        s.armed && !s.restored,
        s.previous matches Some(old) ==> old.data.len() <= 32,
        (s.mode_type == "ui8 "@ && s.mode_size == 1) || (s.mode_type == "flt "@ && s.mode_size
            == 4),
        1 <= attempts <= 3,
        ({
            let k = attempts_from(s);
            &&& t.len() == k + 3 * attempts
            &&& forall|j: int| 0 <= j < attempts ==> #[trigger] attempted(t, k, j)
            &&& forall|j: int| 0 <= j < attempts - 1 ==> !#[trigger] off_after(t, k, j)
        }),
    ensures
        ({
            let step = crate::session::restoring(s, t);
            let k = attempts_from(s);
            let off = off_after(t, k, attempts - 1);
            let taken = s.previous is None || accepted(t[0]);
            &&& off ==> step == crate::smc::StepView::Done(taken)
            &&& !off && attempts == 3 ==> step == crate::smc::StepView::Done(false)
            &&& !off && attempts < 3 ==> step is Call && step->input.key == s.mode_key
                && step->input.data8 == 6
        }),
{
    crate::codec::lemma_type_codes();
    reveal_strlit("ui8 ");
    reveal_strlit("flt ");
    let k = attempts_from(s);
    let code = crate::fourcc::code_named(s.mode_type)->0;
    let payload = crate::codec::mode_payload(s.mode_type, s.mode_size, false)->0;
    let r = t.skip(k);
    assert(t.skip(0) =~= t);
    assert(attempted(t, k, 0));
    assert(r[0] == t[k] && r[1] == t[k + 1] && r[2] == t[k + 2]);
    lemma_attempt(s.mode_key, code, payload, r);
    reveal_with_fuel(crate::session::mode_turning_off, 4);
    if attempts >= 2 {
        assert(!off_after(t, k, 0));
        assert(attempted(t, k, 1));
        let u = r.skip(3);
        assert(u[0] == t[k + 3] && u[1] == t[k + 4] && u[2] == t[k + 5]);
        lemma_attempt(s.mode_key, code, payload, u);
        if attempts == 3 {
            assert(!off_after(t, k, 1));
            assert(attempted(t, k, 2));
            let v = u.skip(3);
            assert(v[0] == t[k + 6] && v[1] == t[k + 7] && v[2] == t[k + 8]);
            lemma_attempt(s.mode_key, code, payload, v);
        } else {
            assert(u.skip(3).len() == 0);
        }
    } else {
        assert(r.skip(3).len() == 0);
    }
}

/// A session whose fan was given back is the same session, and holds its fan no more;
/// what was never taken over, or was given back, has nothing to give back.
pub proof fn giving_back_changes_nothing_else(s: crate::session::SessionView, t: Seq<Reply>)
    ensures
        ({
            let g = crate::session::given_back(s);
            &&& g.restored
            &&& g.fan_index == s.fan_index && g.mode_key == s.mode_key
            &&& g.mode_type == s.mode_type && g.mode_size == s.mode_size
            &&& g.armed == s.armed && g.previous == s.previous
        }),
        !s.armed || s.restored ==> crate::session::restoring(s, t) == crate::smc::StepView::Done(
            true,
        ),
{
}

/// On any machine, taking a fan over again fails with the first refusal, and else tells
/// whether the mode reads as on; a fan that is not held is left alone.
pub proof fn taking_over_again_tells_how_it_went(s: crate::session::SessionView, t: Seq<Reply>)
    requires
        (s.mode_type == "ui8 "@ && s.mode_size == 1) || (s.mode_type == "flt "@ && s.mode_size
            == 4),
    ensures
        ({
            let step = crate::session::re_arming(s, t);
            let held = s.armed && !s.restored;
            let d = crate::codec::decoded(t[1].out.key_info, t[2].out.bytes@);
            &&& !held ==> step == crate::smc::StepView::Done(false)
            &&& held && written_and_read(t, 0) ==> step == crate::smc::StepView::Done(
                d is Some && !d->0.nan() && 2 * d->0.value() >= pow2(1074),
            )
            &&& forall|k: int|
                held && 0 <= k < 3 && k < t.len() && !accepted(#[trigger] t[k]) && (forall|j: int|
                    0 <= j < k ==> accepted(#[trigger] t[j])) ==> step is Failed && tells_refusal(
                    step->Failed_0,
                    t[k],
                )
        }),
{
    crate::session::lemma_mode_numbers();
    crate::codec::lemma_type_codes();
    reveal_strlit("ui8 ");
    reveal_strlit("flt ");
    if t.len() > 1 {
        assert(t.skip(1)[0] == t[1]);
    }
    if t.len() > 2 {
        assert(t.skip(1)[1] == t[2]);
    }
    assert forall|k: int|
        s.armed && !s.restored && 0 <= k < 3 && k < t.len() && !accepted(#[trigger] t[k]) && (
        forall|j: int| 0 <= j < k ==> accepted(#[trigger] t[j])) implies crate::session::re_arming(
        s,
        t,
    ) is Failed && tells_refusal(crate::session::re_arming(s, t)->Failed_0, t[k]) by {
        if k >= 1 {
            assert(accepted(t[0]));
        }
        if k == 2 {
            assert(accepted(t[1]));
        }
    }
}

/// A key is read as the machine holds it, and is not read where the machine does not
/// have it.
pub proof fn a_key_is_read_as_it_is_held(
    wait: u64,
    key: u32,
    states: Seq<Map<u32, Held>>,
    t: Seq<Reply>,
)
    requires
        served(states, |u: Seq<Reply>| crate::smc::key_reading(wait, key, u), t),
        !(crate::smc::key_reading(wait, key, t) is Call),
    ensures
        states.last() == states[0],
        crate::smc::key_reading(wait, key, t) is Done <==> states[0].dom().contains(key),
        crate::smc::key_reading(wait, key, t) is Done ==> crate::smc::key_reading(
            wait,
            key,
            t,
        )->Done_0 == (crate::smc::KeyValueView {
            info: states[0][key].info,
            bytes: states[0][key].bytes,
        }),
{
    let f = |u: Seq<Reply>| crate::smc::key_reading(wait, key, u);
    assert(t.len() > 0);
    assert(f(t.take(0)) is Call);
    assert(states[1] == states[0]);
    if t.len() > 1 {
        assert(f(t.take(1)) is Call);
        assert(t.take(1)[0] == t[0]);
        assert(states[2] == states[0]);
        if t.len() > 2 {
            assert(f(t.take(2)) is Call);
            assert(t.take(2)[0] == t[0] && t.take(2)[1] == t[1]);
        }
    }
}

/// A key that is written holds the data afterwards, with zeros behind them, and no
/// other key changes; where the type or the size is not the key's own, or the data do
/// not fit into a record, nothing changes and that is an error.
pub proof fn a_written_key_holds_the_data(
    key: u32,
    data_type: u32,
    data: Seq<u8>,
    states: Seq<Map<u32, Held>>,
    t: Seq<Reply>,
)
    requires
        served(states, |u: Seq<Reply>| crate::smc::key_writing(key, data_type, data, u), t),
        !(crate::smc::key_writing(key, data_type, data, t) is Call),
    ensures
        ({
            let step = crate::smc::key_writing(key, data_type, data, t);
            let fits = data.len() <= 32 && states[0].dom().contains(key)
                && states[0][key].info.data_type == data_type && states[0][key].info.data_size
                == data.len();
            &&& step is Done <==> fits
            &&& !fits ==> step is Failed && states.last() == states[0]
            &&& data.len() > 32 ==> step == crate::smc::StepView::<()>::Failed(
                crate::error::SmcErrorView::PayloadTooLong,
            )
            &&& fits ==> {
                &&& same_but(states[0], states.last(), key)
                &&& states.last()[key].bytes.len() == 32
                &&& forall|i: int|
                    0 <= i < 32 ==> #[trigger] states.last()[key].bytes[i] == if i < data.len() {
                        data[i]
                    } else {
                        0
                    }
            }
        }),
{
    let f = |u: Seq<Reply>| crate::smc::key_writing(key, data_type, data, u);
    if t.len() > 0 {
        assert(f(t.take(0)) is Call);
        if t.len() > 1 {
            assert(f(t.take(1)) is Call);
            assert(t.take(1)[0] == t[0]);
        }
    }
}

/// Where a mode was written, half a second goes by before it is read back; no other
/// call waits.
pub proof fn written_modes_settle(
    fan: u8,
    casing: ModeKeyCasing,
    info: crate::smc::KeyInfoView,
    s: crate::session::SessionView,
    t: Seq<Reply>,
)
    ensures
        crate::session::arming(fan, casing, info, t) matches crate::smc::StepView::Call {
            after_ms,
            input,
        } ==> after_ms == if t.len() > 0 && t.len() == (if accepted(t[0]) {
            3int
        } else {
            2
        }) {
            500
        } else {
            0int
        },
        crate::session::re_arming(s, t) matches crate::smc::StepView::Call { after_ms, input }
            ==> after_ms == if t.len() == 1 {
            500
        } else {
            0int
        },
        s.previous is None ==> (crate::session::restoring(s, t) matches crate::smc::StepView::Call {
            after_ms,
            input,
        } ==> after_ms == if t.len() % 3 == 1 {
            500
        } else {
            0int
        }),
        s.previous is Some && s.previous->0.data.len() <= 32 ==> (crate::session::restoring(s, t)
            matches crate::smc::StepView::Call { after_ms, input } ==> after_ms == if t.len() > 0
            && t.len() % 3 == 2 {
            500
        } else {
            0int
        }),
        crate::session::mode_reading(s, t) matches crate::smc::StepView::Call { after_ms, input }
            ==> after_ms == 0,
{
    if s.armed && !s.restored {
        if let Some(code) = crate::fourcc::code_named(s.mode_type) {
            if let Some(payload) = crate::codec::mode_payload(s.mode_type, s.mode_size, false) {
                lemma_off_settles(s.mode_key, code, payload, 3, t);
                if t.len() > 0 {
                    lemma_off_settles(s.mode_key, code, payload, 3, t.skip(1));
                }
            }
        }
    }
}

proof fn lemma_off_settles(key: u32, code: u32, payload: Seq<u8>, left: nat, t: Seq<Reply>)
    ensures
        crate::session::mode_turning_off(key, code, payload, left, t) matches
            crate::smc::StepView::Call { after_ms, input } ==> after_ms == if t.len() % 3 == 1 {
            500
        } else {
            0int
        },
    decreases left,
{
    if left > 0 {
        let step = crate::smc::write_and_read_back(key, code, payload, t);
        if step is Done {
            lemma_off_settles(key, code, payload, (left - 1) as nat, t.skip(3));
        }
    }
}

} // verus!
