//! The speeds of the fans, as the SMC reports them.
use crate::binary64::Binary64;
use crate::codec::decode_numeric;
use crate::error::SmcError;
use crate::fourcc::{fan_key, LOWER_C, LOWER_N, LOWER_X, UPPER_A, UPPER_M};
use crate::probe::KEY_FNUM;
use crate::smc::{key_bytes_request, key_info_request, read_key_from, Reply, Step};
use vstd::prelude::*;

verus! {

/// The speed of a fan and the range that it is built for, in revolutions per minute. A
/// speed that could not be decoded is a NaN.
#[derive(Debug, Clone, Copy, PartialEq, Eq, Structural)]
pub struct FanReading {
    pub index: u8,
    pub actual_rpm: Binary64,
    pub min_rpm: Binary64,
    pub max_rpm: Binary64,
}

/// The number that stands for no number.
pub open spec fn not_a_number() -> Binary64 {
    Binary64 { bits: 0x7ff8_0000_0000_0000 }
}

/// The first refusal among the replies from `i` on and before `end`.
pub open spec fn first_refusal(t: Seq<Reply>, i: int, end: int) -> Option<
    crate::error::SmcErrorView,
>
    decreases end - i,
{
    if i >= end {
        None
    } else if crate::smc::refusal(t[i]) is Some {
        crate::smc::refusal(t[i])
    } else {
        first_refusal(t, i + 1, end)
    }
}

/// The suffixes of the keys that are read for each fan, in order.
pub open spec fn speed_suffix(k: int) -> Seq<u8> {
    if k == 0 {
        seq![UPPER_A, LOWER_C]
    } else if k == 1 {
        seq![UPPER_M, LOWER_N]
    } else {
        seq![UPPER_M, LOWER_X]
    }
}

/// The key that call number `n` is about, from the third call on: three keys for each
/// fan, two calls for each key.
pub open spec fn speed_key(n: int) -> u32 {
    crate::fourcc::fan_code(((n - 2) / 6) as u8, speed_suffix((n - 2) % 6 / 2))
}

/// The speed in the two replies from `b` on.
pub open spec fn speed_at(t: Seq<Reply>, b: int) -> Binary64 {
    match crate::codec::decoded(t[b].out.key_info, t[b + 1].out.bytes@) {
        Some(v) => v,
        None => not_a_number(),
    }
}

/// What the replies say of fan `i`.
pub open spec fn fan_reading(t: Seq<Reply>, i: int) -> FanReading {
    let base = 2 + 6 * i;
    FanReading {
        index: i as u8,
        actual_rpm: speed_at(t, base),
        min_rpm: speed_at(t, base + 2),
        max_rpm: speed_at(t, base + 4),
    }
}

/// The exchange that reads all fans: their number, then actual, lowest and highest
/// speed of each. Any refusal ends it.
pub open spec fn reading_fans(t: Seq<Reply>) -> crate::smc::StepView<Seq<FanReading>> {
    match crate::smc::key_reading(0, KEY_FNUM, t) {
        crate::smc::StepView::Call { after_ms, input } => crate::smc::StepView::Call {
            after_ms,
            input,
        },
        crate::smc::StepView::Failed(e) => crate::smc::StepView::Failed(e),
        crate::smc::StepView::Done(count_key) => match count_key.number() {
            None => crate::smc::StepView::Failed(
                crate::error::SmcErrorView::CountUndecodable {
                    code: count_key.info.data_type,
                    data_size: count_key.info.data_size,
                },
            ),
            Some(v) => {
                let count = v.saturated_u8();
                let n = t.len() as int;
                let all = 2 + 6 * count;
                if let Some(e) = first_refusal(
                    t,
                    2,
                    if n < all {
                        n
                    } else {
                        all
                    },
                ) {
                    crate::smc::StepView::Failed(e)
                } else if n >= all {
                    crate::smc::StepView::Done(
                        Seq::new(count as nat, |i: int| fan_reading(t, i)),
                    )
                } else if n % 2 == 0 {
                    crate::smc::StepView::Call {
                        after_ms: 0,
                        input: crate::smc::info_request(speed_key(n)),
                    }
                } else {
                    crate::smc::StepView::Call {
                        after_ms: 0,
                        input: crate::smc::bytes_request(speed_key(n), t[n - 1].out.key_info),
                    }
                }
            },
        },
    }
}

fn next_speed_key(n: usize) -> (r: u32)
    requires
        2 <= n < 2 + 6 * 255,
    ensures
        r == speed_key(n as int),
{
    let i: u8 = ((n - 2) / 6) as u8;
    let k: usize = (n - 2) % 6 / 2;
    let suffix: [u8; 2] = if k == 0 {
        [UPPER_A, LOWER_C]
    } else if k == 1 {
        [UPPER_M, LOWER_N]
    } else {
        [UPPER_M, LOWER_X]
    };
    assert(suffix@ =~= speed_suffix(k as int));
    fan_key(i, &suffix)
}

/// The first refusal among the replies from `from` on and before `end`.
fn find_refusal(replies: &Vec<Reply>, from: usize, end: usize) -> (r: Option<SmcError>)
    requires
        from <= end <= replies@.len(),
    ensures
        match r {
            Some(e) => first_refusal(replies@, from as int, end as int) == Some(e@),
            None => first_refusal(replies@, from as int, end as int) is None,
        },
{
    let mut i: usize = from;
    while i < end
        invariant
            from <= i <= end <= replies@.len(),
            first_refusal(replies@, from as int, end as int) == first_refusal(
                replies@,
                i as int,
                end as int,
            ),
        decreases end - i,
    {
        if let Err(e) = replies[i].accept() {
            return Some(e);
        }
        i = i + 1;
    }
    None
}

fn decode_speed(info: &Reply, value: &Reply) -> (r: Binary64)
    ensures
        r == match crate::codec::decoded(info.out.key_info, value.out.bytes@) {
            Some(v) => v,
            None => not_a_number(),
        },
{
    match decode_numeric(&info.out.key_info, &value.out.bytes) {
        Some(v) => v,
        None => Binary64 { bits: 0x7ff8_0000_0000_0000 },
    }
}

/// Reads the speeds of all fans.
pub fn read_fans(replies: &Vec<Reply>) -> (r: Step<Vec<FanReading>>)
    ensures
        r@ == reading_fans(replies@),
{
    proof {
        assert(replies@.skip(0) =~= replies@);
    }
    let value = match read_key_from(0, KEY_FNUM, replies, 0) {
        Step::Call { after_ms, input } => return Step::Call { after_ms, input },
        Step::Done(Err(e)) => return Step::Done(Err(e)),
        Step::Done(Ok(v)) => v,
    };
    let count: u8 = match decode_numeric(&value.info, &value.bytes) {
        Some(v) => v.to_u8_saturating(),
        None => {
            return Step::Done(
                Err(
                    SmcError::CountUndecodable {
                        code: value.info.data_type,
                        data_size: value.info.data_size,
                    },
                ),
            );
        },
    };
    let n: usize = replies.len();
    let all: usize = 2 + 6 * (count as usize);
    let end: usize = if n < all {
        n
    } else {
        all
    };
    if let Some(e) = find_refusal(replies, 2, end) {
        return Step::Done(Err(e));
    }
    if n < all {
        let key: u32 = next_speed_key(n);
        return if n % 2 == 0 {
            Step::Call { after_ms: 0, input: key_info_request(key) }
        } else {
            Step::Call {
                after_ms: 0,
                input: key_bytes_request(key, replies[n - 1].out.key_info),
            }
        };
    }
    let mut readings: Vec<FanReading> = Vec::with_capacity(count as usize);
    let mut f: u8 = 0;
    while f < count
        invariant
            f <= count,
            2 + 6 * count <= replies@.len(),
            readings@.len() == f,
            forall|k: int| 0 <= k < f ==> readings@[k] == fan_reading(replies@, k),
        decreases count - f,
    {
        let base: usize = 2 + 6 * (f as usize);
        readings.push(
            FanReading {
                index: f,
                actual_rpm: decode_speed(&replies[base], &replies[base + 1]),
                min_rpm: decode_speed(&replies[base + 2], &replies[base + 3]),
                max_rpm: decode_speed(&replies[base + 4], &replies[base + 5]),
            },
        );
        f = f + 1;
    }
    proof {
        assert(readings@ =~= Seq::new(count as nat, |i: int| fan_reading(replies@, i)));
    }
    Step::Done(Ok(readings))
}

/// Reading the fans writes nothing.
pub proof fn reading_fans_never_writes(t: Seq<Reply>)
    ensures
        reading_fans(t) matches crate::smc::StepView::Call { after_ms, input } ==> input.data8
            != crate::smc::SMC_CMD_WRITE_BYTES,
{
}

/// Reading the fans ends: two calls, and six more for each fan.
pub proof fn reading_fans_ends(t: Seq<Reply>)
    requires
        t.len() >= 2 + 6 * 255,
    ensures
        !(reading_fans(t) is Call),
{
}

/// The readings are numbered in order, one for each fan that a probe of the same count
/// would find.
pub proof fn readings_are_in_order(t: Seq<Reply>)
    requires
        reading_fans(t) is Done,
    ensures
        reading_fans(t)->Done_0.len() == crate::probe::counted(t),
        forall|i: int|
            0 <= i < reading_fans(t)->Done_0.len() ==> (#[trigger] reading_fans(
                t,
            )->Done_0[i]).index == i,
{
}

/// A speed, moved into the range that a fan is built for. A bound that is no number moves
/// nothing.
pub open spec fn clamped(rpm: Binary64, min_rpm: Binary64, max_rpm: Binary64) -> Binary64 {
    if rpm.below(min_rpm) {
        min_rpm
    } else if max_rpm.below(rpm) {
        max_rpm
    } else {
        rpm
    }
}

/// A range that holds a speed at all: two numbers, the first one not above the second.
pub open spec fn is_range(min_rpm: Binary64, max_rpm: Binary64) -> bool {
    max_rpm.reaches(min_rpm)
}

/// A speed within a range.
pub open spec fn in_range(rpm: Binary64, min_rpm: Binary64, max_rpm: Binary64) -> bool {
    rpm.reaches(min_rpm) && max_rpm.reaches(rpm)
}

/// A speed, moved into the range that a fan is built for.
pub fn clamp_rpm(rpm: Binary64, min_rpm: Binary64, max_rpm: Binary64) -> (r: Binary64)
    ensures
        r == clamped(rpm, min_rpm, max_rpm),
{
    if rpm.lt(&min_rpm) {
        min_rpm
    } else if max_rpm.lt(&rpm) {
        max_rpm
    } else {
        rpm
    }
}

/// A number that was moved into a range lies in it, and one that lay in it was not moved.
pub proof fn clamped_speeds_are_in_range(rpm: Binary64, min_rpm: Binary64, max_rpm: Binary64)
    requires
        is_range(min_rpm, max_rpm),
        !rpm.nan(),
    ensures
        in_range(clamped(rpm, min_rpm, max_rpm), min_rpm, max_rpm),
        in_range(rpm, min_rpm, max_rpm) ==> clamped(rpm, min_rpm, max_rpm) == rpm,
{
}

} // verus!
