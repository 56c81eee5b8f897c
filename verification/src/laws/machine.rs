//! What the exchanges with the SMC find out about the machine that answers them.
use crate::binary64::Binary64;
use crate::probe::ModeKeyCasing;
use crate::smc::{Reply, SmcKeyDataKeyInfo};
use vstd::prelude::*;

verus! {

/// What a machine holds under a key.
pub ghost struct Held {
    pub info: SmcKeyDataKeyInfo,
    pub bytes: Seq<u8>,
}

/// The code that four letters spell.
pub open spec fn spelled(a: int, b: int, c: int, d: int) -> u32 {
    (a * 0x100_0000 + b * 0x1_0000 + c * 0x100 + d) as u32
}

/// The code of a key of fan `i`: the letter F, the fan's digit and two letters.
pub open spec fn of_fan(i: int, c: char, d: char) -> u32 {
    spelled('F' as int, ('0' as int + i) % 0x100, c as int, d as int)
}

/// A reply is how a machine with these keys answers a call. It refuses what it does
/// not have, describes a key when asked to (command 9), and gives the bytes of a key
/// (command 5) to one who describes it rightly.
pub open spec fn answers(
    keys: Map<u32, Held>,
    input: crate::smc::SmcKeyDataView,
    reply: Reply,
) -> bool {
    &&& (reply.rc == 0 && reply.out.result == 0) <==> keys.dom().contains(input.key)
    &&& keys.dom().contains(input.key) && input.data8 == 9 ==> reply.out.key_info
        == keys[input.key].info
    &&& keys.dom().contains(input.key) && input.data8 == 5 && input.key_info
        == keys[input.key].info ==> reply.out.bytes@ == keys[input.key].bytes
}

/// Each reply of an exchange is the machine's answer to the call that was due.
pub open spec fn held_with<V>(
    keys: Map<u32, Held>,
    exchange: spec_fn(Seq<Reply>) -> crate::smc::StepView<V>,
    t: Seq<Reply>,
) -> bool {
    forall|n: int|
        0 <= n < t.len() ==> #[trigger] exchange(t.take(n)) is Call && answers(
            keys,
            exchange(t.take(n))->input,
            t[n],
        )
}

/// What can be known of a key: nothing if the machine does not have it.
pub open spec fn known(keys: Map<u32, Held>, code: u32) -> Option<crate::smc::KeyInfoView> {
    if keys.dom().contains(code) {
        let info = keys[code].info;
        Some(
            crate::smc::KeyInfoView {
                data_type: crate::fourcc::utf8_lossy(
                    seq![
                        (info.data_type / 0x100_0000) as u8,
                        (info.data_type / 0x1_0000 % 0x100) as u8,
                        (info.data_type / 0x100 % 0x100) as u8,
                        (info.data_type % 0x100) as u8,
                    ],
                ),
                data_size: info.data_size,
                data_attributes: info.data_attributes,
            },
        )
    } else {
        None
    }
}

/// The number that a machine holds under a key.
pub open spec fn held_number(keys: Map<u32, Held>, code: u32) -> Option<Binary64> {
    if keys.dom().contains(code) {
        crate::codec::decoded(keys[code].info, keys[code].bytes)
    } else {
        None
    }
}

proof fn lemma_codes(i: int)
    requires
        0 <= i < 0x100,
    ensures
        crate::probe::KEY_FNUM == spelled('F' as int, 'N' as int, 'u' as int, 'm' as int),
        crate::probe::KEY_FTST == spelled('F' as int, 't' as int, 's' as int, 't' as int),
        forall|s: Seq<u8>| s.len() == 2 ==> #[trigger] crate::fourcc::fan_code(i as u8, s)
            == spelled('F' as int, ('0' as int + i) % 0x100, s[0] as int, s[1] as int),
{
}

/// The first two replies, and what is asked for in them.
proof fn lemma_first_key<V>(
    keys: Map<u32, Held>,
    exchange: spec_fn(Seq<Reply>) -> crate::smc::StepView<V>,
    wait: u64,
    key: u32,
    t: Seq<Reply>,
)
    requires
        held_with(keys, exchange, t),
        t.len() >= 2,
        forall|u: Seq<Reply>|
            crate::smc::key_reading(wait, key, u) is Call ==> #[trigger] exchange(u)
                == (crate::smc::StepView::<V>::Call {
                after_ms: crate::smc::key_reading(wait, key, u)->after_ms,
                input: crate::smc::key_reading(wait, key, u)->input,
            }),
        forall|u: Seq<Reply>|
            crate::smc::key_reading(wait, key, u) is Failed ==> #[trigger] exchange(u) is Failed,
    ensures
        keys.dom().contains(key),
        t[0].out.key_info == keys[key].info,
        t[1].out.bytes@ == keys[key].bytes,
        crate::smc::refusal(t[0]) is None,
        crate::smc::refusal(t[1]) is None,
{
    assert(exchange(t.take(0)) is Call);
    assert(exchange(t.take(1)) is Call);
    assert(crate::smc::key_reading(wait, key, t.take(0)) is Call);
    assert(t.take(1)[0] == t[0]);
    assert(!(crate::smc::key_reading(wait, key, t.take(1)) is Failed));
    assert(crate::smc::key_reading(wait, key, t.take(1)) is Call);
}

/// A probe tells what the machine has. The fans are as many as `FNum` counts. Of each
/// of them it tells the target, lowest and highest speed key as the machine holds them
/// and none that it does not hold, and the mode key under its upper-case name, or
/// under its lower-case name where there is no other.
pub proof fn a_probe_tells_what_the_machine_has(keys: Map<u32, Held>, t: Seq<Reply>)
    requires
        held_with(keys, |u: Seq<Reply>| crate::probe::probing(u), t),
        crate::probe::probing(t) is Done,
    ensures
        ({
            let p = crate::probe::probing(t)->Done_0;
            let fnum = spelled('F' as int, 'N' as int, 'u' as int, 'm' as int);
            &&& keys.dom().contains(fnum)
            &&& p.fan_count == match held_number(keys, fnum) {
                Some(v) => v.saturated_u8(),
                None => 0,
            }
            &&& p.fans.len() == p.fan_count
            &&& p.ftst == known(keys, spelled('F' as int, 't' as int, 's' as int, 't' as int))
            &&& forall|i: int|
                0 <= i < p.fan_count ==> {
                    let fan = #[trigger] p.fans[i];
                    let upper = known(keys, of_fan(i, 'M', 'd'));
                    let lower = known(keys, of_fan(i, 'm', 'd'));
                    &&& fan.index == i
                    &&& fan.tg == known(keys, of_fan(i, 'T', 'g'))
                    &&& fan.mn == known(keys, of_fan(i, 'M', 'n'))
                    &&& fan.mx == known(keys, of_fan(i, 'M', 'x'))
                    &&& upper is Some ==> fan.md == upper && fan.mode_key_casing == Some(
                        ModeKeyCasing::Upper,
                    )
                    &&& upper is None && lower is Some ==> fan.md == lower
                        && fan.mode_key_casing == Some(ModeKeyCasing::Lower)
                    &&& upper is None && lower is None ==> fan.md is None
                        && fan.mode_key_casing is None
                }
        }),
{
    let f = |u: Seq<Reply>| crate::probe::probing(u);
    lemma_codes(0);
    assert(t.len() >= 2);
    lemma_first_key(keys, f, 0, crate::probe::KEY_FNUM, t);
    let count = crate::probe::counted(t);
    assert forall|n: int| 2 <= n < t.len() implies n < 3 + 5 * count && (#[trigger] answers(
        keys,
        crate::smc::info_request(crate::probe::probed_key(n)),
        t[n],
    )) && crate::smc::answered_info(t[n]) == known(keys, crate::probe::probed_key(n)) by {
        let u = t.take(n);
        assert(f(u) is Call);
        assert(u[0] == t[0] && u[1] == t[1]);
        assert(crate::probe::counted(u) == count);
    }
    assert forall|i: int, j: int|
        0 <= i < count && 0 <= j < 5 implies #[trigger] crate::probe::probed_key(3 + 5 * i + j)
        == spelled(
        'F' as int,
        ('0' as int + i) % 0x100,
        crate::probe::probed_suffix(j)[0] as int,
        crate::probe::probed_suffix(j)[1] as int,
    ) by {
        lemma_codes(i);
        assert((5 * i + j) / 5 == i);
        assert((5 * i + j) % 5 == j);
    }
    let p = crate::probe::probing(t)->Done_0;
    assert(answers(keys, crate::smc::info_request(crate::probe::probed_key(2)), t[2]));
    assert forall|i: int| 0 <= i < p.fan_count implies {
        let fan = #[trigger] p.fans[i];
        let upper = known(keys, of_fan(i, 'M', 'd'));
        let lower = known(keys, of_fan(i, 'm', 'd'));
        &&& fan.index == i
        &&& fan.tg == known(keys, of_fan(i, 'T', 'g'))
        &&& fan.mn == known(keys, of_fan(i, 'M', 'n'))
        &&& fan.mx == known(keys, of_fan(i, 'M', 'x'))
        &&& upper is Some ==> fan.md == upper && fan.mode_key_casing == Some(ModeKeyCasing::Upper)
        &&& upper is None && lower is Some ==> fan.md == lower && fan.mode_key_casing == Some(
            ModeKeyCasing::Lower,
        )
        &&& upper is None && lower is None ==> fan.md is None && fan.mode_key_casing is None
    } by {
        assert(t.len() >= 3 + 5 * count);
        let b = 3 + 5 * i;
        assert(answers(keys, crate::smc::info_request(crate::probe::probed_key(b + 0)), t[b + 0]));
        assert(answers(keys, crate::smc::info_request(crate::probe::probed_key(b + 1)), t[b + 1]));
        assert(answers(keys, crate::smc::info_request(crate::probe::probed_key(b + 2)), t[b + 2]));
        assert(answers(keys, crate::smc::info_request(crate::probe::probed_key(b + 3)), t[b + 3]));
        assert(answers(keys, crate::smc::info_request(crate::probe::probed_key(b + 4)), t[b + 4]));
    }
}

/// Only a machine that does not count its fans cannot be probed.
pub proof fn a_probe_fails_only_without_a_count(keys: Map<u32, Held>, t: Seq<Reply>)
    requires
        held_with(keys, |u: Seq<Reply>| crate::probe::probing(u), t),
        crate::probe::probing(t) is Failed,
    ensures
        !keys.dom().contains(spelled('F' as int, 'N' as int, 'u' as int, 'm' as int)),
{
    let f = |u: Seq<Reply>| crate::probe::probing(u);
    lemma_codes(0);
    assert(f(t.take(0)) is Call);
    if t.len() >= 2 {
        lemma_first_key(keys, f, 0, crate::probe::KEY_FNUM, t);
    }
}

/// The speed that a machine holds under a key, the number that stands for none where
/// the key holds no number.
pub open spec fn held_speed(keys: Map<u32, Held>, code: u32) -> Binary64 {
    match held_number(keys, code) {
        Some(v) => v,
        None => Binary64 { bits: 0x7ff8_0000_0000_0000 },
    }
}

proof fn lemma_no_refusal(t: Seq<Reply>, i: int, end: int)
    ensures
        crate::fans::first_refusal(t, i, end) is None <==> forall|k: int|
            i <= k < end ==> crate::smc::refusal(#[trigger] t[k]) is None,
    decreases end - i,
{
    if i < end {
        lemma_no_refusal(t, i + 1, end);
    }
}

/// What the calls of a reading of all fans are about.
proof fn lemma_speed_calls(keys: Map<u32, Held>, t: Seq<Reply>, v: Binary64)
    requires
        held_with(keys, |u: Seq<Reply>| crate::fans::reading_fans(u), t),
        t.len() >= 2,
        crate::codec::decoded(t[0].out.key_info, t[1].out.bytes@) == Some(v),
    ensures
        forall|n: int|
            2 <= n < t.len() ==> {
                &&& n < 2 + 6 * v.saturated_u8()
                &&& (crate::smc::refusal(#[trigger] t[n]) is None <==> keys.dom().contains(
                    crate::fans::speed_key(n),
                ))
                &&& keys.dom().contains(crate::fans::speed_key(n)) && n % 2 == 0
                    ==> t[n].out.key_info == keys[crate::fans::speed_key(n)].info
                &&& keys.dom().contains(crate::fans::speed_key(n)) && n % 2 == 1
                    ==> t[n].out.bytes@ == keys[crate::fans::speed_key(n)].bytes
            },
{
    let f = |u: Seq<Reply>| crate::fans::reading_fans(u);
    assert forall|n: int| 2 <= n < t.len() implies {
        &&& n < 2 + 6 * v.saturated_u8()
        &&& (crate::smc::refusal(#[trigger] t[n]) is None <==> keys.dom().contains(
            crate::fans::speed_key(n),
        ))
        &&& keys.dom().contains(crate::fans::speed_key(n)) && n % 2 == 0 ==> t[n].out.key_info
            == keys[crate::fans::speed_key(n)].info
        &&& keys.dom().contains(crate::fans::speed_key(n)) && n % 2 == 1 ==> t[n].out.bytes@
            == keys[crate::fans::speed_key(n)].bytes
    } by {
        let u = t.take(n);
        assert(f(u) is Call);
        assert(u[0] == t[0] && u[1] == t[1]);
        if n % 2 == 1 {
            let w = t.take(n - 1);
            assert(f(w) is Call);
            assert(w[0] == t[0] && w[1] == t[1]);
            assert(u[n - 1] == t[n - 1]);
            assert(crate::fans::speed_key(n) == crate::fans::speed_key(n - 1)) by {
                assert((n - 2) / 6 == (n - 3) / 6 && (n - 2) % 6 / 2 == (n - 3) % 6 / 2);
            }
        }
    }
}

proof fn lemma_speed_keys(i: int)
    requires
        0 <= i < 0x100,
    ensures
        crate::fans::speed_key(2 + 6 * i) == of_fan(i, 'A', 'c'),
        crate::fans::speed_key(2 + 6 * i + 1) == of_fan(i, 'A', 'c'),
        crate::fans::speed_key(2 + 6 * i + 2) == of_fan(i, 'M', 'n'),
        crate::fans::speed_key(2 + 6 * i + 3) == of_fan(i, 'M', 'n'),
        crate::fans::speed_key(2 + 6 * i + 4) == of_fan(i, 'M', 'x'),
        crate::fans::speed_key(2 + 6 * i + 5) == of_fan(i, 'M', 'x'),
{
    lemma_codes(i);
    assert((6 * i) / 6 == i && (6 * i) % 6 == 0);
    assert((6 * i + 1) / 6 == i && (6 * i + 1) % 6 == 1);
    assert((6 * i + 2) / 6 == i && (6 * i + 2) % 6 == 2);
    assert((6 * i + 3) / 6 == i && (6 * i + 3) % 6 == 3);
    assert((6 * i + 4) / 6 == i && (6 * i + 4) % 6 == 4);
    assert((6 * i + 5) / 6 == i && (6 * i + 5) % 6 == 5);
}

/// The readings of all fans are what the machine holds: as many as `FNum` counts, in
/// order, each with the actual, lowest and highest speed of its own fan.
pub proof fn readings_tell_what_the_machine_holds(keys: Map<u32, Held>, t: Seq<Reply>)
    requires
        held_with(keys, |u: Seq<Reply>| crate::fans::reading_fans(u), t),
        crate::fans::reading_fans(t) is Done,
    ensures
        ({
            let fans = crate::fans::reading_fans(t)->Done_0;
            let fnum = spelled('F' as int, 'N' as int, 'u' as int, 'm' as int);
            &&& held_number(keys, fnum) is Some
            &&& fans.len() == held_number(keys, fnum)->0.saturated_u8()
            &&& forall|i: int|
                0 <= i < fans.len() ==> {
                    &&& (#[trigger] fans[i]).index == i
                    &&& fans[i].actual_rpm == held_speed(keys, of_fan(i, 'A', 'c'))
                    &&& fans[i].min_rpm == held_speed(keys, of_fan(i, 'M', 'n'))
                    &&& fans[i].max_rpm == held_speed(keys, of_fan(i, 'M', 'x'))
                    &&& keys.dom().contains(of_fan(i, 'A', 'c'))
                    &&& keys.dom().contains(of_fan(i, 'M', 'n'))
                    &&& keys.dom().contains(of_fan(i, 'M', 'x'))
                }
        }),
{
    let f = |u: Seq<Reply>| crate::fans::reading_fans(u);
    lemma_codes(0);
    lemma_first_key(keys, f, 0, crate::probe::KEY_FNUM, t);
    let v = crate::codec::decoded(t[0].out.key_info, t[1].out.bytes@)->0;
    lemma_speed_calls(keys, t, v);
    lemma_no_refusal(t, 2, 2 + 6 * v.saturated_u8());
    let fans = crate::fans::reading_fans(t)->Done_0;
    assert forall|i: int| 0 <= i < fans.len() implies {
        &&& (#[trigger] fans[i]).index == i
        &&& fans[i].actual_rpm == held_speed(keys, of_fan(i, 'A', 'c'))
        &&& fans[i].min_rpm == held_speed(keys, of_fan(i, 'M', 'n'))
        &&& fans[i].max_rpm == held_speed(keys, of_fan(i, 'M', 'x'))
        &&& keys.dom().contains(of_fan(i, 'A', 'c'))
        &&& keys.dom().contains(of_fan(i, 'M', 'n'))
        &&& keys.dom().contains(of_fan(i, 'M', 'x'))
    } by {
        lemma_speed_keys(i);
        let b = 2 + 6 * i;
        assert(t.len() >= 2 + 6 * v.saturated_u8());
        assert(crate::smc::refusal(t[b]) is None);
        assert(crate::smc::refusal(t[b + 1]) is None);
        assert(crate::smc::refusal(t[b + 2]) is None);
        assert(crate::smc::refusal(t[b + 3]) is None);
        assert(crate::smc::refusal(t[b + 4]) is None);
        assert(crate::smc::refusal(t[b + 5]) is None);
        assert(b % 2 == 0);
    }
}

/// The fans cannot be read only where the machine does not say how many there are, or
/// has not all three speeds of each of them.
pub proof fn readings_fail_only_where_a_key_is_missing(keys: Map<u32, Held>, t: Seq<Reply>)
    requires
        held_with(keys, |u: Seq<Reply>| crate::fans::reading_fans(u), t),
        crate::fans::reading_fans(t) is Failed,
    ensures
        ({
            let count = held_number(
                keys,
                spelled('F' as int, 'N' as int, 'u' as int, 'm' as int),
            );
            count is None || exists|i: int|
                0 <= i < count->0.saturated_u8() && (!keys.dom().contains(
                    #[trigger] of_fan(i, 'A', 'c'),
                ) || !keys.dom().contains(of_fan(i, 'M', 'n')) || !keys.dom().contains(
                    of_fan(i, 'M', 'x'),
                ))
        }),
{
    let f = |u: Seq<Reply>| crate::fans::reading_fans(u);
    lemma_codes(0);
    assert(f(t.take(0)) is Call);
    if t.len() >= 2 {
        lemma_first_key(keys, f, 0, crate::probe::KEY_FNUM, t);
        if let Some(v) = crate::codec::decoded(t[0].out.key_info, t[1].out.bytes@) {
            lemma_speed_calls(keys, t, v);
            let count = v.saturated_u8();
            let end = if t.len() < 2 + 6 * count {
                t.len() as int
            } else {
                2 + 6 * count
            };
            lemma_no_refusal(t, 2, end);
            let k = choose|k: int| 2 <= k < end && !(crate::smc::refusal(#[trigger] t[k]) is None);
            let i = (k - 2) / 6;
            lemma_speed_keys(i);
            assert(k == 2 + 6 * i + (k - 2) % 6);
            assert(!keys.dom().contains(of_fan(i, 'A', 'c')) || !keys.dom().contains(
                of_fan(i, 'M', 'n'),
            ) || !keys.dom().contains(of_fan(i, 'M', 'x')));
        }
    }
}

/// The error that a refused reply stands for.
pub open spec fn tells_refusal(e: crate::error::SmcErrorView, reply: Reply) -> bool {
    &&& reply.rc != 0 ==> e == (crate::error::SmcErrorView::CallFailed { rc: reply.rc })
    &&& reply.rc == 0 ==> reply.out.result != 0 && e == (crate::error::SmcErrorView::Refused {
        result: reply.out.result,
    })
}

/// A probe that fails tells why the machine refused the last call.
pub proof fn a_failed_probe_tells_the_refusal(keys: Map<u32, Held>, t: Seq<Reply>)
    requires
        held_with(keys, |u: Seq<Reply>| crate::probe::probing(u), t),
        crate::probe::probing(t) is Failed,
    ensures
        t.len() > 0,
        tells_refusal(crate::probe::probing(t)->Failed_0, t.last()),
{
    let f = |u: Seq<Reply>| crate::probe::probing(u);
    assert(t.len() > 0);
    assert(f(t.take(0)) is Call);
    if t.len() >= 2 {
        assert(f(t.take(1)) is Call);
        assert(t.take(1)[0] == t[0]);
        if t.len() >= 3 {
            assert(f(t.take(2)) is Call);
            assert(t.take(2)[0] == t[0] && t.take(2)[1] == t[1]);
        }
    }
}

proof fn lemma_first_refusal(t: Seq<Reply>, i: int, end: int)
    requires
        0 <= i < end,
        forall|k: int| i <= k < end - 1 ==> crate::smc::refusal(#[trigger] t[k]) is None,
    ensures
        crate::fans::first_refusal(t, i, end) == crate::smc::refusal(t[end - 1]),
    decreases end - i,
{
    if i < end - 1 {
        lemma_first_refusal(t, i + 1, end);
    } else {
        assert(crate::fans::first_refusal(t, i + 1, end) is None);
    }
}

/// A reading of all fans that fails tells why the machine refused the last call, or of
/// the type and size under which it holds no number of fans.
pub proof fn a_failed_reading_tells_why(keys: Map<u32, Held>, t: Seq<Reply>)
    requires
        held_with(keys, |u: Seq<Reply>| crate::fans::reading_fans(u), t),
        crate::fans::reading_fans(t) is Failed,
    ensures
        ({
            let e = crate::fans::reading_fans(t)->Failed_0;
            let fnum = spelled('F' as int, 'N' as int, 'u' as int, 'm' as int);
            &&& t.len() > 0
            &&& tells_refusal(e, t.last()) || (held_number(keys, fnum) is None && e == (
            crate::error::SmcErrorView::CountUndecodable {
                code: keys[fnum].info.data_type,
                data_size: keys[fnum].info.data_size,
            }))
        }),
{
    let f = |u: Seq<Reply>| crate::fans::reading_fans(u);
    lemma_codes(0);
    assert(t.len() > 0);
    assert(f(t.take(0)) is Call);
    if t.len() >= 2 {
        lemma_first_key(keys, f, 0, crate::probe::KEY_FNUM, t);
        if let Some(v) = crate::codec::decoded(t[0].out.key_info, t[1].out.bytes@) {
            lemma_speed_calls(keys, t, v);
            let n = t.len() as int;
            let all = 2 + 6 * v.saturated_u8();
            assert(n <= all);
            lemma_no_refusal(t, 2, n);
            if n > 2 {
                let u = t.take(n - 1);
                assert(f(u) is Call);
                assert(u[0] == t[0] && u[1] == t[1]);
                lemma_no_refusal(u, 2, n - 1);
                assert forall|k: int| 2 <= k < n - 1 implies crate::smc::refusal(
                    #[trigger] t[k],
                ) is None by {
                    assert(u[k] == t[k]);
                }
                lemma_first_refusal(t, 2, n);
            }
        }
    }
}

/// A request names its key and its command, says nothing else but what is asked, and
/// is zero in all other parts.
pub proof fn requests_say_what_is_asked(
    key: u32,
    info: SmcKeyDataKeyInfo,
    data_type: u32,
    data: Seq<u8>,
)
    requires
        data.len() <= 32,
    ensures
        ({
            let about = crate::smc::info_request(key);
            let bytes = crate::smc::bytes_request(key, info);
            let write = crate::smc::write_request(key, data_type, data);
            &&& about.key == key && bytes.key == key && write.key == key
            &&& about.data8 == 9 && bytes.data8 == 5 && write.data8 == 6
            &&& about.key_info == (SmcKeyDataKeyInfo {
                data_size: 0,
                data_type: 0,
                data_attributes: 0,
            })
            &&& bytes.key_info == info
            &&& write.key_info.data_size == data.len()
            &&& write.key_info.data_type == data_type
            &&& write.key_info.data_attributes == 0
            &&& write.bytes.len() == 32 && write.bytes.take(data.len() as int) == data
            &&& forall|i: int| data.len() <= i < 32 ==> #[trigger] write.bytes[i] == 0
            &&& is_bare(about) && is_bare(bytes) && is_bare(write)
            &&& forall|i: int| 0 <= i < 32 ==> #[trigger] about.bytes[i] == 0
            &&& forall|i: int| 0 <= i < 32 ==> #[trigger] bytes.bytes[i] == 0
        }),
{
    assert(crate::smc::write_request(key, data_type, data).bytes.take(data.len() as int)
        =~= data);
}

/// The parts of a record that no request uses are zero.
pub open spec fn is_bare(r: crate::smc::SmcKeyDataView) -> bool {
    &&& r.vers.major == 0 && r.vers.minor == 0 && r.vers.build == 0 && r.vers.reserved == 0
    &&& r.vers.release == 0
    &&& r.p_limit_data.version == 0 && r.p_limit_data.length == 0
    &&& r.p_limit_data.cpu_p_limit == 0 && r.p_limit_data.gpu_p_limit == 0
    &&& r.p_limit_data.mem_p_limit == 0
    &&& r.result == 0 && r.status == 0 && r.data32 == 0
    &&& r.bytes.len() == 32
}

} // verus!
