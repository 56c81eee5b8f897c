//! Manual control of one fan: taking it over, steering it and giving it back.
use crate::binary64::Binary64;
use crate::codec::{decode_numeric, encode_one, encode_target, encode_zero};
use crate::error::SmcError;
use crate::fourcc::fourcc_from_str;
use crate::probe::{compose_mode_key, compose_target_key, ModeKeyCasing};
use crate::smc::{
    key_write_request, read_key_from, write_and_read_back_from, KeyInfo, KeyValue, Reply,
    SmcConnection, Step,
};
use vstd::arithmetic::mul::*;
use vstd::arithmetic::power2::*;
use vstd::prelude::*;
use vstd::string::*;

verus! {

/// What a fan's target key held before the fan was taken over.
#[derive(Debug)]
pub struct SavedTarget {
    pub data_type: u32,
    pub data: Vec<u8>,
}

pub ghost struct SavedTargetView {
    pub data_type: u32,
    pub data: Seq<u8>,
}

impl View for SavedTarget {
    type V = SavedTargetView;

    open spec fn view(&self) -> SavedTargetView {
        SavedTargetView { data_type: self.data_type, data: self.data@ }
    }
}

/// A fan that was put into manual mode.
#[derive(Debug)]
pub struct ManualFanSession {
    pub fan_index: u8,
    pub mode_key: u32,
    pub mode_type: String,
    pub mode_size: u32,
    pub armed: bool,
    pub restored: bool,
    pub previous: Option<SavedTarget>,
}

pub ghost struct SessionView {
    pub fan_index: u8,
    pub mode_key: u32,
    pub mode_type: Seq<char>,
    pub mode_size: u32,
    pub armed: bool,
    pub restored: bool,
    pub previous: Option<SavedTargetView>,
}

/// An optional saved target, over its view.
pub open spec fn maybe_saved(s: Option<SavedTarget>) -> Option<SavedTargetView> {
    match s {
        Some(s) => Some(s@),
        None => None,
    }
}

impl View for ManualFanSession {
    type V = SessionView;

    open spec fn view(&self) -> SessionView {
        SessionView {
            fan_index: self.fan_index,
            mode_key: self.mode_key,
            mode_type: self.mode_type@,
            mode_size: self.mode_size,
            armed: self.armed,
            restored: self.restored,
            previous: maybe_saved(self.previous),
        }
    }
}

/// The outcome of taking a fan over again.
#[derive(Debug, Clone, Copy, PartialEq, Eq, Structural)]
pub enum ReArmDecision {
    Skip,
    Success,
    Failed,
}

/// One half: what a mode key reads back tells on from off there.
pub open spec fn half() -> Binary64 {
    Binary64 { bits: 0x3fe0_0000_0000_0000 }
}

/// What a mode key reads back, where it is a number.
pub open spec fn or_else(v: Option<Binary64>, fallback: Binary64) -> Binary64 {
    match v {
        Some(v) => v,
        None => fallback,
    }
}

/// Zero.
pub open spec fn zero() -> Binary64 {
    Binary64 { bits: 0 }
}

/// One.
pub open spec fn one() -> Binary64 {
    Binary64 { bits: 0x3ff0_0000_0000_0000 }
}

/// The exchange that turns manual mode on, once the old target is known.
pub open spec fn mode_turning_on(
    taken: SessionView,
    code: u32,
    payload: Seq<u8>,
    t: Seq<Reply>,
) -> crate::smc::StepView<SessionView> {
    match crate::smc::write_and_read_back(taken.mode_key, code, payload, t) {
        crate::smc::StepView::Call { after_ms, input } => crate::smc::StepView::Call {
            after_ms,
            input,
        },
        crate::smc::StepView::Failed(e) => crate::smc::StepView::Failed(e),
        crate::smc::StepView::Done(kv) => if or_else(kv.number(), zero()).below(half()) {
            crate::smc::StepView::Failed(crate::error::SmcErrorView::ModeRejected)
        } else {
            crate::smc::StepView::Done(taken)
        },
    }
}

/// What is kept of a target key that was read.
pub open spec fn kept_target(info: Reply, value: Reply) -> Option<SavedTargetView> {
    if crate::smc::refusal(value) is None && info.out.key_info.data_size <= 32 {
        Some(
            SavedTargetView {
                data_type: info.out.key_info.data_type,
                data: value.out.bytes@.take(info.out.key_info.data_size as int),
            },
        )
    } else {
        None
    }
}

/// The session that a fan's taking over leads to.
pub open spec fn taken_over(
    fan_index: u8,
    casing: ModeKeyCasing,
    info: crate::smc::KeyInfoView,
    previous: Option<SavedTargetView>,
) -> SessionView {
    SessionView {
        fan_index,
        mode_key: crate::fourcc::fan_code(fan_index, crate::probe::mode_suffix(casing)),
        mode_type: info.data_type,
        mode_size: info.data_size,
        armed: true,
        restored: false,
        previous,
    }
}

/// The exchange that takes a fan over. The fan's target is read first, so that it can
/// be put back later; a machine on which that fails is taken over without it. Then
/// manual mode is written, and must read back as on.
pub open spec fn arming(
    fan_index: u8,
    casing: ModeKeyCasing,
    info: crate::smc::KeyInfoView,
    t: Seq<Reply>,
) -> crate::smc::StepView<SessionView> {
    let target = crate::probe::target_code(fan_index);
    match crate::fourcc::code_named(info.data_type) {
        None => crate::smc::StepView::Failed(
            crate::error::SmcErrorView::BadFourcc { text: info.data_type },
        ),
        Some(code) => match crate::codec::mode_payload(info.data_type, info.data_size, true) {
            None => crate::smc::StepView::Failed(
                crate::codec::unsupported_mode(info.data_type, info.data_size),
            ),
            Some(payload) => if t.len() == 0 {
                crate::smc::StepView::Call {
                    after_ms: 0,
                    input: crate::smc::info_request(target),
                }
            } else if crate::smc::refusal(t[0]) is Some {
                mode_turning_on(taken_over(fan_index, casing, info, None), code, payload, t.skip(1))
            } else if t.len() == 1 {
                crate::smc::StepView::Call {
                    after_ms: 0,
                    input: crate::smc::bytes_request(target, t[0].out.key_info),
                }
            } else {
                mode_turning_on(
                    taken_over(fan_index, casing, info, kept_target(t[0], t[1])),
                    code,
                    payload,
                    t.skip(2),
                )
            },
        },
    }
}

/// Up to `left` attempts to turn manual mode off: each writes the mode key, lets it
/// settle and reads it back.
pub open spec fn mode_turning_off(
    key: u32,
    code: u32,
    payload: Seq<u8>,
    left: nat,
    t: Seq<Reply>,
) -> crate::smc::StepView<bool>
    decreases left,
{
    if left == 0 {
        crate::smc::StepView::Done(false)
    } else {
        match crate::smc::write_and_read_back(key, code, payload, t) {
            crate::smc::StepView::Call { after_ms, input } => crate::smc::StepView::Call {
                after_ms,
                input,
            },
            crate::smc::StepView::Failed(e) => crate::smc::StepView::Failed(e),
            crate::smc::StepView::Done(kv) => if or_else(kv.number(), one()).below(half()) {
                crate::smc::StepView::Done(true)
            } else {
                mode_turning_off(key, code, payload, (left - 1) as nat, t.skip(3))
            },
        }
    }
}

/// The exchange that gives a fan back: its old target is written, then manual mode is
/// turned off in at most three attempts, whatever the SMC said to the target. It ends
/// well only if both were taken. Nothing is done for a fan that was not taken over or
/// that was given back before.
pub open spec fn restoring(s: SessionView, t: Seq<Reply>) -> crate::smc::StepView<bool> {
    if !s.armed || s.restored {
        crate::smc::StepView::Done(true)
    } else {
        match crate::fourcc::code_named(s.mode_type) {
            None => crate::smc::StepView::Failed(
                crate::error::SmcErrorView::BadFourcc { text: s.mode_type },
            ),
            Some(code) => match crate::codec::mode_payload(s.mode_type, s.mode_size, false) {
                None => crate::smc::StepView::Failed(
                    crate::codec::unsupported_mode(s.mode_type, s.mode_size),
                ),
                Some(payload) => match s.previous {
                    None => mode_turning_off(s.mode_key, code, payload, 3, t),
                    Some(old) => if old.data.len() > 32 {
                        mode_turning_off(s.mode_key, code, payload, 3, t)
                    } else if t.len() == 0 {
                        crate::smc::StepView::Call {
                            after_ms: 0,
                            input: crate::smc::write_request(
                                crate::probe::target_code(s.fan_index),
                                old.data_type,
                                old.data,
                            ),
                        }
                    } else {
                        match mode_turning_off(s.mode_key, code, payload, 3, t.skip(1)) {
                            crate::smc::StepView::Done(off) => crate::smc::StepView::Done(
                                off && crate::smc::refusal(t[0]) is None,
                            ),
                            other => other,
                        }
                    },
                },
            },
        }
    }
}

/// What becomes of a readback after manual mode was written again.
pub open spec fn re_arm_outcome(armed: bool, restored: bool, readback: Option<Binary64>) -> ReArmDecision {
    if !armed || restored {
        ReArmDecision::Skip
    } else if readback is Some && readback->0.reaches(half()) {
        ReArmDecision::Success
    } else {
        ReArmDecision::Failed
    }
}

/// The exchange that turns manual mode on again. It tells whether the mode is on.
pub open spec fn re_arming(s: SessionView, t: Seq<Reply>) -> crate::smc::StepView<bool> {
    if !s.armed || s.restored {
        crate::smc::StepView::Done(false)
    } else {
        match crate::fourcc::code_named(s.mode_type) {
            None => crate::smc::StepView::Failed(
                crate::error::SmcErrorView::BadFourcc { text: s.mode_type },
            ),
            Some(code) => match crate::codec::mode_payload(s.mode_type, s.mode_size, true) {
                None => crate::smc::StepView::Failed(
                    crate::codec::unsupported_mode(s.mode_type, s.mode_size),
                ),
                Some(payload) => match crate::smc::write_and_read_back(
                    s.mode_key,
                    code,
                    payload,
                    t,
                ) {
                    crate::smc::StepView::Call { after_ms, input } => crate::smc::StepView::Call {
                        after_ms,
                        input,
                    },
                    crate::smc::StepView::Failed(e) => crate::smc::StepView::Failed(e),
                    crate::smc::StepView::Done(kv) => crate::smc::StepView::Done(
                        re_arm_outcome(s.armed, s.restored, kv.number()) == ReArmDecision::Success,
                    ),
                },
            },
        }
    }
}

/// The exchange that reads the mode of a fan.
pub open spec fn mode_reading(s: SessionView, t: Seq<Reply>) -> crate::smc::StepView<Binary64> {
    match crate::smc::key_reading(0, s.mode_key, t) {
        crate::smc::StepView::Call { after_ms, input } => crate::smc::StepView::Call {
            after_ms,
            input,
        },
        crate::smc::StepView::Failed(e) => crate::smc::StepView::Failed(e),
        crate::smc::StepView::Done(kv) => match kv.number() {
            Some(v) => crate::smc::StepView::Done(v),
            None => crate::smc::StepView::Failed(
                crate::error::SmcErrorView::ModeUndecodable {
                    fan_index: s.fan_index,
                    mode_type: s.mode_type,
                    mode_size: s.mode_size,
                },
            ),
        },
    }
}

/// The exchange that sets a fan's target speed.
pub open spec fn target_writing(
    fan_index: u8,
    info: crate::smc::KeyInfoView,
    rpm: Binary64,
    t: Seq<Reply>,
) -> crate::smc::StepView<()> {
    match crate::fourcc::code_named(info.data_type) {
        None => crate::smc::StepView::Failed(
            crate::error::SmcErrorView::BadFourcc { text: info.data_type },
        ),
        Some(code) => match crate::codec::target_refusal(info.data_type, info.data_size, rpm) {
            Some(e) => crate::smc::StepView::Failed(e),
            None => crate::smc::key_writing(
                crate::probe::target_code(fan_index),
                code,
                crate::codec::target_bytes(info.data_type, info.data_size, rpm),
                t,
            ),
        },
    }
}

/// The session with its fan given back.
pub open spec fn given_back(s: SessionView) -> SessionView {
    SessionView { restored: true, ..s }
}

impl ManualFanSession {
    /// Takes a fan over: puts it into manual mode and makes sure that it is there.
    pub fn arm(
        fan_index: u8,
        casing: ModeKeyCasing,
        mode_info: &KeyInfo,
        replies: &Vec<Reply>,
    ) -> (r: Step<ManualFanSession>)
        ensures
            r@ == arming(fan_index, casing, mode_info@, replies@),
    {
        let mode_key: u32 = compose_mode_key(fan_index, casing);
        let code: u32 = match fourcc_from_str(mode_info.data_type.as_str()) {
            Ok(c) => c,
            Err(e) => return Step::Done(Err(e)),
        };
        let payload: Vec<u8> = match encode_one(mode_info.data_type.as_str(), mode_info.data_size) {
            Ok(p) => p,
            Err(e) => return Step::Done(Err(e)),
        };
        let target: u32 = compose_target_key(fan_index);
        proof {
            assert(replies@.skip(0) =~= replies@);
        }
        let mut previous: Option<SavedTarget> = None;
        let mut from: usize = 1;
        match read_key_from(0, target, replies, 0) {
            Step::Call { after_ms, input } => return Step::Call { after_ms, input },
            Step::Done(Err(_)) => {
                if replies.len() > 1 && replies[0].accept().is_ok() {
                    from = 2;
                }
            },
            Step::Done(Ok(kv)) => {
                from = 2;
                if kv.info.data_size <= 32 {
                    let data: Vec<u8> = leading_bytes(&kv.bytes, kv.info.data_size as usize);
                    previous = Some(SavedTarget { data_type: kv.info.data_type, data });
                }
            },
        }
        match write_and_read_back_from(mode_key, code, &payload, replies, from) {
            Step::Call { after_ms, input } => Step::Call { after_ms, input },
            Step::Done(Err(e)) => Step::Done(Err(e)),
            Step::Done(Ok(kv)) => {
                if readback_or(&kv, Binary64 { bits: 0 }).lt(&Binary64 {
                    bits: 0x3fe0_0000_0000_0000,
                }) {
                    Step::Done(Err(SmcError::ModeRejected))
                } else {
                    Step::Done(
                        Ok(
                            ManualFanSession {
                                fan_index,
                                mode_key,
                                mode_type: mode_info.data_type.clone(),
                                mode_size: mode_info.data_size,
                                armed: true,
                                restored: false,
                                previous,
                            },
                        ),
                    )
                }
            },
        }
    }

    /// Sets the fan's target speed.
    pub fn write_target(
        &self,
        target_info: &KeyInfo,
        target_rpm: Binary64,
        replies: &Vec<Reply>,
    ) -> (r: Step<()>)
        ensures
            r@ == target_writing(self.fan_index, target_info@, target_rpm, replies@),
    {
        let key: u32 = compose_target_key(self.fan_index);
        let code: u32 = match fourcc_from_str(target_info.data_type.as_str()) {
            Ok(c) => c,
            Err(e) => return Step::Done(Err(e)),
        };
        let payload: Vec<u8> = match encode_target(
            target_info.data_type.as_str(),
            target_info.data_size,
            target_rpm,
        ) {
            Ok(p) => p,
            Err(e) => return Step::Done(Err(e)),
        };
        SmcConnection::write_key(key, code, &payload, replies)
    }

    /// Gives the fan back. Ends with `true` once the mode reads back as off and the old
    /// target was taken (or if there is nothing to give back), with `false` after three
    /// attempts or if the old target was refused.
    pub fn restore(&mut self, replies: &Vec<Reply>) -> (r: Step<bool>)
        ensures
            r@ == restoring(old(self)@, replies@),
            final(self)@ == if old(self).armed && r@ == crate::smc::StepView::Done(true) {
                given_back(old(self)@)
            } else {
                old(self)@
            },
    {
        if !self.armed || self.restored {
            return Step::Done(Ok(true));
        }
        let code: u32 = match fourcc_from_str(self.mode_type.as_str()) {
            Ok(c) => c,
            Err(e) => return Step::Done(Err(e)),
        };
        let payload: Vec<u8> = match encode_zero(self.mode_type.as_str(), self.mode_size) {
            Ok(p) => p,
            Err(e) => return Step::Done(Err(e)),
        };
        let mut from: usize = 0;
        let mut taken: bool = true;
        if let Some(old_target) = &self.previous {
            if old_target.data.len() <= 32 {
                if replies.len() == 0 {
                    let key: u32 = compose_target_key(self.fan_index);
                    return Step::Call {
                        after_ms: 0,
                        input: key_write_request(key, old_target.data_type, &old_target.data),
                    };
                }
                from = 1;
                taken = replies[0].accept().is_ok();
            }
        }
        proof {
            assert(replies@.skip(0) =~= replies@);
        }
        match turn_mode_off(self.mode_key, code, &payload, 3, replies, from) {
            Step::Done(Ok(off)) => {
                if off && taken {
                    self.restored = true;
                }
                Step::Done(Ok(off && taken))
            },
            step => step,
        }
    }

    /// Reads the live mode of the fan. A failed exchange is an error, so that a handle
    /// that went stale is not taken for a mode that did not change.
    pub fn read_mode(&self, replies: &Vec<Reply>) -> (r: Step<Binary64>)
        ensures
            r@ == mode_reading(self@, replies@),
    {
        match SmcConnection::read_key(self.mode_key, replies) {
            Step::Call { after_ms, input } => Step::Call { after_ms, input },
            Step::Done(Err(e)) => Step::Done(Err(e)),
            Step::Done(Ok(kv)) => match decode_numeric(&kv.info, &kv.bytes) {
                Some(v) => Step::Done(Ok(v)),
                None => Step::Done(
                    Err(
                        SmcError::ModeUndecodable {
                            fan_index: self.fan_index,
                            mode_type: self.mode_type.clone(),
                            mode_size: self.mode_size,
                        },
                    ),
                ),
            },
        }
    }

    /// Takes the fan over again after its mode drifted. Ends with whether manual mode
    /// reads back as on; `false` at once for a fan that is not held.
    pub fn re_arm(&self, replies: &Vec<Reply>) -> (r: Step<bool>)
        ensures
            r@ == re_arming(self@, replies@),
    {
        if !Self::needs_re_arm(self.armed, self.restored) {
            return Step::Done(Ok(false));
        }
        let code: u32 = match fourcc_from_str(self.mode_type.as_str()) {
            Ok(c) => c,
            Err(e) => return Step::Done(Err(e)),
        };
        let payload: Vec<u8> = match encode_one(self.mode_type.as_str(), self.mode_size) {
            Ok(p) => p,
            Err(e) => return Step::Done(Err(e)),
        };
        proof {
            assert(replies@.skip(0) =~= replies@);
        }
        match write_and_read_back_from(self.mode_key, code, &payload, replies, 0) {
            Step::Call { after_ms, input } => Step::Call { after_ms, input },
            Step::Done(Err(e)) => Step::Done(Err(e)),
            Step::Done(Ok(kv)) => {
                let readback = decode_numeric(&kv.info, &kv.bytes);
                let on: bool = match Self::re_arm_decision(self.armed, self.restored, readback) {
                    ReArmDecision::Success => true,
                    _ => false,
                };
                Step::Done(Ok(on))
            },
        }
    }

    /// The fan is held: it was taken over and not given back.
    pub fn needs_re_arm(armed: bool, restored: bool) -> (r: bool)
        ensures
            r == (armed && !restored),
    {
        armed && !restored
    }

    /// What a readback means after manual mode was written again.
    pub fn re_arm_decision(armed: bool, restored: bool, readback: Option<Binary64>) -> (r:
        ReArmDecision)
        ensures
            r == re_arm_outcome(armed, restored, readback),
    {
        if !Self::needs_re_arm(armed, restored) {
            return ReArmDecision::Skip;
        }
        match readback {
            Some(rb) => if rb.ge(&Binary64 { bits: 0x3fe0_0000_0000_0000 }) {
                ReArmDecision::Success
            } else {
                ReArmDecision::Failed
            },
            None => ReArmDecision::Failed,
        }
    }

    /// Whether the fan still has to be given back when the session ends.
    pub fn needs_restore(&self) -> (r: bool)
        ensures
            r == (self.armed && !self.restored),
    {
        self.armed && !self.restored
    }

    pub fn fan_index(&self) -> (r: u8)
        ensures
            r == self.fan_index,
    {
        self.fan_index
    }
}

/// The first `n` of 32 bytes.
fn leading_bytes(bytes: &[u8; 32], n: usize) -> (r: Vec<u8>)
    requires
        n <= 32,
    ensures
        r@ == bytes@.take(n as int),
{
    let mut out: Vec<u8> = Vec::new();
    let mut i: usize = 0;
    while i < n
        invariant
            i <= n <= 32,
            out@ == bytes@.take(i as int),
        decreases n - i,
    {
        out.push(bytes[i]);
        assert(out@ =~= bytes@.take(i + 1));
        i = i + 1;
    }
    out
}

/// The number that a key holds, or the fallback.
fn readback_or(kv: &KeyValue, fallback: Binary64) -> (r: Binary64)
    ensures
        r == or_else(kv@.number(), fallback),
{
    match decode_numeric(&kv.info, &kv.bytes) {
        Some(v) => v,
        None => fallback,
    }
}

/// Up to `left` attempts to turn manual mode off, in an exchange whose replies start at
/// `from`.
fn turn_mode_off(
    key: u32,
    code: u32,
    payload: &Vec<u8>,
    left: u32,
    replies: &Vec<Reply>,
    from: usize,
) -> (r: Step<bool>)
    requires
        from <= replies@.len(),
    ensures
        r@ == mode_turning_off(key, code, payload@, left as nat, replies@.skip(from as int)),
    decreases left,
{
    if left == 0 {
        return Step::Done(Ok(false));
    }
    match write_and_read_back_from(key, code, payload, replies, from) {
        Step::Call { after_ms, input } => Step::Call { after_ms, input },
        Step::Done(Err(e)) => Step::Done(Err(e)),
        Step::Done(Ok(kv)) => {
            if readback_or(&kv, Binary64 { bits: 0x3ff0_0000_0000_0000 }).lt(&Binary64 {
                bits: 0x3fe0_0000_0000_0000,
            }) {
                Step::Done(Ok(true))
            } else {
                proof {
                    let t = replies@.skip(from as int);
                    assert(t.len() > 0 && t.skip(1).len() >= 2);
                    assert(t.skip(3) =~= replies@.skip(from + 3));
                }
                assert(from + 3 <= replies.len());
                turn_mode_off(key, code, payload, left - 1, replies, from + 3)
            }
        },
    }
}

/// The three numbers that mode keys are judged by.
pub proof fn lemma_mode_numbers()
    ensures
        !half().nan() && half().value() == pow2(1073),
        !one().nan() && one().value() == pow2(1074),
        !zero().nan() && zero().value() == 0,
        pow2(1074) == 2 * pow2(1073),
        pow2(1073) > 0,
{
    crate::binary64::lemma_cuts();
    lemma_pow2_pos(1073);
    lemma_pow2_unfold(1074);
    assert(0x3fe0_0000_0000_0000nat / 0x10_0000_0000_0000nat == 1022);
    assert(0x3fe0_0000_0000_0000nat % 0x10_0000_0000_0000nat == 0);
    assert(0x3ff0_0000_0000_0000nat / 0x10_0000_0000_0000nat == 1023);
    assert(0x3ff0_0000_0000_0000nat % 0x10_0000_0000_0000nat == 0);
    lemma_pow2_adds(52, 1021);
    lemma_pow2_adds(52, 1022);
}

/// The replies of an SMC that keeps what is written: the write is taken, and the key
/// then has the type, the size and the bytes that were written.
pub open spec fn kept_as_written(code: u32, payload: Seq<u8>, t: Seq<Reply>) -> bool {
    &&& t.len() >= 3
    &&& crate::smc::refusal(t[0]) is None
    &&& crate::smc::refusal(t[1]) is None
    &&& crate::smc::refusal(t[2]) is None
    &&& t[1].out.key_info.data_type == code
    &&& t[1].out.key_info.data_size == payload.len()
    &&& t[2].out.bytes@ == crate::smc::zero_filled(payload)
}

/// What is read back from a mode key that keeps what is written.
proof fn lemma_mode_readback(
    data_type: Seq<char>,
    data_size: u32,
    on: bool,
    key: u32,
    code: u32,
    payload: Seq<u8>,
    t: Seq<Reply>,
)
    requires
        crate::codec::mode_payload(data_type, data_size, on) == Some(payload),
        crate::fourcc::code_named(data_type) == Some(code),
        kept_as_written(code, payload, t),
    ensures
        crate::smc::write_and_read_back(key, code, payload, t) is Done,
        crate::smc::write_and_read_back(key, code, payload, t)->Done_0.number() is Some,
        crate::smc::write_and_read_back(key, code, payload, t)->Done_0.number()->0.reaches(half())
            == on,
        crate::smc::write_and_read_back(key, code, payload, t)->Done_0.number()->0.below(half())
            == !on,
{
    lemma_mode_numbers();
    crate::codec::lemma_type_codes();
    let kv = crate::smc::write_and_read_back(key, code, payload, t)->Done_0;
    assert(t.skip(1)[0] == t[1] && t.skip(1)[1] == t[2]);
    assert(payload.len() <= 32);
    let b = kv.bytes;
    let n: nat = if on {
        1
    } else {
        0
    };
    crate::binary64::lemma_representable(false, n, 1074);
    lemma_mul_basics(pow2(1074) as int);
    if data_type == "ui8 "@ && data_size == 1 {
        assert(b[0] == n);
    } else {
        assert(b[0] == 0 && b[1] == 0 && b[2] == payload[2] && b[3] == payload[3]);
        let bits: u32 = crate::codec::little_endian(b) as u32;
        crate::binary64::lemma_cuts();
        crate::binary64::lemma_widened_is_exact(bits);
        lemma_mul_basics(pow2(925) as int);
        if on {
            assert(bits == 0x3f80_0000);
            assert(0x3f80_0000nat / 0x80_0000nat == 127);
            assert(0x3f80_0000nat % 0x80_0000nat == 0);
            lemma_pow2_adds(23, 126);
            lemma_pow2_adds(149, 925);
        } else {
            assert(bits == 0);
        }
    }
}

/// A fan is taken over on an SMC that keeps what is written to its mode key, whatever
/// the fan's target key does.
pub proof fn arming_succeeds_where_writes_are_kept(
    fan_index: u8,
    casing: ModeKeyCasing,
    info: crate::smc::KeyInfoView,
    code: u32,
    payload: Seq<u8>,
    t: Seq<Reply>,
)
    requires
        crate::fourcc::code_named(info.data_type) == Some(code),
        crate::codec::mode_payload(info.data_type, info.data_size, true) == Some(payload),
        t.len() >= 2,
        kept_as_written(
            code,
            payload,
            if crate::smc::refusal(t[0]) is Some {
                t.skip(1)
            } else {
                t.skip(2)
            },
        ),
    ensures
        arming(fan_index, casing, info, t) == crate::smc::StepView::Done(
            taken_over(
                fan_index,
                casing,
                info,
                if crate::smc::refusal(t[0]) is Some {
                    None
                } else {
                    kept_target(t[0], t[1])
                },
            ),
        ),
{
    let rest = if crate::smc::refusal(t[0]) is Some {
        t.skip(1)
    } else {
        t.skip(2)
    };
    let key = crate::fourcc::fan_code(fan_index, crate::probe::mode_suffix(casing));
    lemma_mode_readback(info.data_type, info.data_size, true, key, code, payload, rest);
}

/// A held fan is given back at the first attempt on an SMC that keeps what is written.
pub proof fn restoring_succeeds_where_writes_are_kept(
    s: SessionView,
    code: u32,
    payload: Seq<u8>,
    t: Seq<Reply>,
)
    requires
        s.armed && !s.restored,
        s.previous is None || s.previous->0.data.len() <= 32,
        crate::fourcc::code_named(s.mode_type) == Some(code),
        crate::codec::mode_payload(s.mode_type, s.mode_size, false) == Some(payload),
        t.len() >= 1,
        s.previous is None || crate::smc::refusal(t[0]) is None,
        kept_as_written(
            code,
            payload,
            if s.previous is None {
                t
            } else {
                t.skip(1)
            },
        ),
    ensures
        restoring(s, t) == crate::smc::StepView::Done(true),
{
    let rest = if s.previous is None {
        t
    } else {
        t.skip(1)
    };
    lemma_mode_readback(s.mode_type, s.mode_size, false, s.mode_key, code, payload, rest);
}

/// A held fan is taken over again on an SMC that keeps what is written.
pub proof fn re_arming_succeeds_where_writes_are_kept(
    s: SessionView,
    code: u32,
    payload: Seq<u8>,
    t: Seq<Reply>,
)
    requires
        s.armed && !s.restored,
        crate::fourcc::code_named(s.mode_type) == Some(code),
        crate::codec::mode_payload(s.mode_type, s.mode_size, true) == Some(payload),
        kept_as_written(code, payload, t),
    ensures
        re_arming(s, t) == crate::smc::StepView::Done(true),
{
    lemma_mode_readback(s.mode_type, s.mode_size, true, s.mode_key, code, payload, t);
}

/// A fan that could be taken over can be given back: no session that arming leads to is
/// refused before the first call of its restoring, and what is written then is mode
/// off, in the same key and of the same type.
pub proof fn every_armed_session_can_be_restored(
    fan_index: u8,
    casing: ModeKeyCasing,
    info: crate::smc::KeyInfoView,
    t: Seq<Reply>,
)
    requires
        arming(fan_index, casing, info, t) is Done,
    ensures
        ({
            let s = arming(fan_index, casing, info, t)->Done_0;
            let payload = crate::codec::mode_payload(info.data_type, info.data_size, false);
            let code = crate::fourcc::code_named(info.data_type);
            &&& s.armed && !s.restored && s.fan_index == fan_index
            &&& payload is Some && code is Some
            &&& match s.previous {
                None => restoring(s, seq![]) == (crate::smc::StepView::<bool>::Call {
                    after_ms: 0,
                    input: crate::smc::write_request(s.mode_key, code->0, payload->0),
                }),
                Some(saved) => restoring(s, seq![]) == (crate::smc::StepView::<bool>::Call {
                    after_ms: 0,
                    input: crate::smc::write_request(
                        crate::probe::target_code(fan_index),
                        saved.data_type,
                        saved.data,
                    ),
                }),
            }
        }),
{
}

/// What was in the target key before is what restoring writes to it first.
pub proof fn restoring_puts_the_old_target_back(
    fan_index: u8,
    casing: ModeKeyCasing,
    info: crate::smc::KeyInfoView,
    t: Seq<Reply>,
)
    requires
        arming(fan_index, casing, info, t) is Done,
        t.len() >= 2,
        crate::smc::refusal(t[0]) is None,
        crate::smc::refusal(t[1]) is None,
        t[0].out.key_info.data_size <= 32,
    ensures
        restoring(arming(fan_index, casing, info, t)->Done_0, seq![]) == (crate::smc::StepView::<
            bool,
        >::Call {
            after_ms: 0,
            input: crate::smc::write_request(
                crate::probe::target_code(fan_index),
                t[0].out.key_info.data_type,
                t[1].out.bytes@.take(t[0].out.key_info.data_size as int),
            ),
        }),
{
}

/// A fan counts as given back only if its mode was turned off and its old target, where
/// one was kept, was taken by the SMC; a refused target keeps no mode on.
pub proof fn given_back_means_mode_and_target(s: SessionView, t: Seq<Reply>)
    requires
        s.armed && !s.restored,
        s.previous is None || s.previous->0.data.len() <= 32,
        restoring(s, t) is Done,
    ensures
        ({
            let rest = if s.previous is None {
                t
            } else {
                t.skip(1)
            };
            let code = crate::fourcc::code_named(s.mode_type);
            let payload = crate::codec::mode_payload(s.mode_type, s.mode_size, false);
            &&& code is Some && payload is Some
            &&& restoring(s, t)->Done_0 == (mode_turning_off(
                s.mode_key,
                code->0,
                payload->0,
                3,
                rest,
            ) == crate::smc::StepView::Done(true) && (s.previous is None || crate::smc::refusal(
                t[0],
            ) is None))
        }),
{
}

/// Giving back twice is giving back once.
pub proof fn restoring_twice_does_nothing_more(s: SessionView, t: Seq<Reply>)
    ensures
        restoring(given_back(s), t) == crate::smc::StepView::Done(true),
{
}

/// Turning the mode off takes at most three calls for each attempt.
proof fn lemma_turning_off_ends(key: u32, code: u32, payload: Seq<u8>, left: nat, t: Seq<Reply>)
    requires
        t.len() >= 3 * left,
    ensures
        !(mode_turning_off(key, code, payload, left, t) is Call),
    decreases left,
{
    if left > 0 {
        lemma_turning_off_ends(key, code, payload, (left - 1) as nat, t.skip(3));
    }
}

/// Giving a fan back ends after ten calls at the latest.
pub proof fn restoring_ends(s: SessionView, t: Seq<Reply>)
    requires
        t.len() >= 10,
    ensures
        !(restoring(s, t) is Call),
{
    if let Some(code) = crate::fourcc::code_named(s.mode_type) {
        if let Some(payload) = crate::codec::mode_payload(s.mode_type, s.mode_size, false) {
            lemma_turning_off_ends(s.mode_key, code, payload, 3, t);
            lemma_turning_off_ends(s.mode_key, code, payload, 3, t.skip(1));
        }
    }
}

/// Taking a fan over ends after five calls at the latest.
pub proof fn arming_ends(
    fan_index: u8,
    casing: ModeKeyCasing,
    info: crate::smc::KeyInfoView,
    t: Seq<Reply>,
)
    requires
        t.len() >= 5,
    ensures
        !(arming(fan_index, casing, info, t) is Call),
{
}

/// The key that a call writes, if it writes one.
pub open spec fn written_key<V>(step: crate::smc::StepView<V>) -> Option<u32> {
    match step {
        crate::smc::StepView::Call { after_ms, input } => if input.data8
            == crate::smc::SMC_CMD_WRITE_BYTES {
            Some(input.key)
        } else {
            None
        },
        _ => None,
    }
}

proof fn lemma_turning_off_writes(key: u32, code: u32, payload: Seq<u8>, left: nat, t: Seq<Reply>)
    ensures
        written_key(mode_turning_off(key, code, payload, left, t)) is None || written_key(
            mode_turning_off(key, code, payload, left, t),
        ) == Some(key),
    decreases left,
{
    if left > 0 {
        lemma_turning_off_writes(key, code, payload, (left - 1) as nat, t.skip(3));
    }
}

/// A session writes to no key but its own fan's: taking over and taking over again
/// write the mode key only, giving back the mode key and the target key, steering the
/// target key.
pub proof fn sessions_write_their_own_fan_only(
    s: SessionView,
    casing: ModeKeyCasing,
    info: crate::smc::KeyInfoView,
    rpm: Binary64,
    t: Seq<Reply>,
)
    requires
        s.mode_key == crate::fourcc::fan_code(s.fan_index, crate::probe::mode_suffix(casing)),
    ensures
        ({
            let target = crate::probe::target_code(s.fan_index);
            let arm = written_key(arming(s.fan_index, casing, info, t));
            let again = written_key(re_arming(s, t));
            let back = written_key(restoring(s, t));
            let steer = written_key(target_writing(s.fan_index, info, rpm, t));
            &&& arm is None || arm == Some(s.mode_key)
            &&& again is None || again == Some(s.mode_key)
            &&& back is None || back == Some(s.mode_key) || back == Some(target)
            &&& steer is None || steer == Some(target)
            &&& written_key(mode_reading(s, t)) is None
        }),
{
    if let Some(code) = crate::fourcc::code_named(s.mode_type) {
        if let Some(payload) = crate::codec::mode_payload(s.mode_type, s.mode_size, false) {
            lemma_turning_off_writes(s.mode_key, code, payload, 3, t);
            lemma_turning_off_writes(s.mode_key, code, payload, 3, t.skip(1));
        }
    }
}

} // verus!
