//! What the fans of a machine can do: the read-only discovery of their keys.
use crate::codec::decode_numeric;
use crate::fourcc::{
    fan_key, LOWER_D, LOWER_G, LOWER_M, LOWER_N, LOWER_X, UPPER_M, UPPER_T,
};
use crate::smc::{info_answer, key_info_request, read_key_from, KeyInfo, Reply, Step};
use crate::text::push_decimal;
use vstd::prelude::*;
use vstd::string::*;

verus! {

/// The code of `FNum`, the key that holds the number of fans.
pub const KEY_FNUM: u32 = 0x464e_756d;

/// The code of `Ftst`, the key that unlocks manual mode on some machines.
pub const KEY_FTST: u32 = 0x4674_7374;

/// How the mode key of a fan is spelled: `F0Md` or `F0md`.
#[derive(Debug, Clone, Copy, PartialEq, Eq, Structural)]
pub enum ModeKeyCasing {
    Upper,
    Lower,
}

/// What is known of one fan's keys.
#[derive(Debug, Clone)]
pub struct FanProbe {
    pub index: u8,
    pub mode_key_casing: Option<ModeKeyCasing>,
    pub md: Option<KeyInfo>,
    pub tg: Option<KeyInfo>,
    pub mn: Option<KeyInfo>,
    pub mx: Option<KeyInfo>,
}

/// What is known of a machine's fans.
#[derive(Debug, Clone)]
pub struct Probe {
    pub fan_count: u8,
    pub ftst: Option<KeyInfo>,
    pub fans: Vec<FanProbe>,
}

pub ghost struct FanProbeView {
    pub index: u8,
    pub mode_key_casing: Option<ModeKeyCasing>,
    pub md: Option<crate::smc::KeyInfoView>,
    pub tg: Option<crate::smc::KeyInfoView>,
    pub mn: Option<crate::smc::KeyInfoView>,
    pub mx: Option<crate::smc::KeyInfoView>,
}

pub ghost struct ProbeView {
    pub fan_count: u8,
    pub ftst: Option<crate::smc::KeyInfoView>,
    pub fans: Seq<FanProbeView>,
}

impl View for FanProbe {
    type V = FanProbeView;

    open spec fn view(&self) -> FanProbeView {
        FanProbeView {
            index: self.index,
            mode_key_casing: self.mode_key_casing,
            md: crate::smc::maybe_info(self.md),
            tg: crate::smc::maybe_info(self.tg),
            mn: crate::smc::maybe_info(self.mn),
            mx: crate::smc::maybe_info(self.mx),
        }
    }
}

impl View for Probe {
    type V = ProbeView;

    open spec fn view(&self) -> ProbeView {
        ProbeView {
            fan_count: self.fan_count,
            ftst: crate::smc::maybe_info(self.ftst),
            fans: Seq::new(self.fans@.len(), |i: int| self.fans@[i]@),
        }
    }
}

/// What keeps a fan from being controlled, if anything does: the mode key comes before
/// the target key.
pub open spec fn fan_complaint(fan: FanProbeView) -> Option<Seq<char>> {
    let n = crate::text::decimal(fan.index as nat);
    if fan.md is None {
        Some("F"@ + n + "Md and F"@ + n + "md both missing"@)
    } else if fan.tg is None {
        Some("F"@ + n + "Tg missing"@)
    } else {
        None
    }
}

/// The complaint about the first fan that there is one about, from fan `i` on.
pub open spec fn first_complaint(fans: Seq<FanProbeView>, i: int) -> Option<Seq<char>>
    decreases fans.len() - i,
{
    if i < 0 || i >= fans.len() {
        None
    } else if fan_complaint(fans[i]) is Some {
        fan_complaint(fans[i])
    } else {
        first_complaint(fans, i + 1)
    }
}

impl ProbeView {
    /// Why the machine's fans cannot be controlled, if they cannot.
    pub open spec fn complaint(self) -> Option<Seq<char>> {
        if self.fan_count == 0 {
            Some("fan_count == 0"@)
        } else {
            first_complaint(self.fans, 0)
        }
    }

    /// There are fans, and each of them has a mode key and a target key.
    pub open spec fn all_controllable(self) -> bool {
        &&& self.fan_count > 0
        &&& forall|i: int|
            0 <= i < self.fans.len() ==> (#[trigger] self.fans[i]).md is Some
                && self.fans[i].tg is Some
    }

    /// One description for each fan, in order.
    pub open spec fn well_formed(self) -> bool {
        &&& self.fans.len() == self.fan_count
        &&& forall|i: int|
            0 <= i < self.fans.len() ==> (#[trigger] self.fans[i]).index == i
        &&& forall|i: int|
            0 <= i < self.fans.len() ==> ((#[trigger] self.fans[i]).md is Some
                <==> self.fans[i].mode_key_casing is Some)
    }
}

/// No complaint is made from fan `i` on exactly if each fan from there has both keys.
proof fn lemma_no_complaint(fans: Seq<FanProbeView>, i: int)
    requires
        0 <= i <= fans.len(),
    ensures
        first_complaint(fans, i) is None <==> forall|k: int|
            i <= k < fans.len() ==> (#[trigger] fans[k]).md is Some && fans[k].tg is Some,
    decreases fans.len() - i,
{
    if i < fans.len() {
        lemma_no_complaint(fans, i + 1);
        assert(fans[i].md is Some && fans[i].tg is Some <==> fan_complaint(fans[i]) is None);
    }
}

impl Probe {
    /// Why the machine's fans cannot be controlled, if they cannot. Whether the unlock
    /// key is there makes no difference.
    pub fn not_controllable_reason(&self) -> (r: Option<String>)
        ensures
            match r {
                Some(reason) => self@.complaint() == Some(reason@),
                None => self@.complaint() is None,
            },
            r is None <==> self@.all_controllable(),
    {
        proof {
            lemma_no_complaint(self@.fans, 0);
        }
        if self.fan_count == 0 {
            return Some("fan_count == 0".to_owned());
        }
        let n: usize = self.fans.len();
        let mut i: usize = 0;
        while i < n
            invariant
                i <= n == self.fans@.len(),
                self.fan_count != 0,
                first_complaint(self@.fans, 0) == first_complaint(self@.fans, i as int),
            decreases n - i,
        {
            let fan = &self.fans[i];
            assert(self@.fans[i as int] == fan@);
            if fan.md.is_none() {
                let mut out = "F".to_owned();
                push_decimal(&mut out, fan.index as u64);
                out.append("Md and F");
                push_decimal(&mut out, fan.index as u64);
                out.append("md both missing");
                proof {
                    let d = crate::text::decimal(fan.index as nat);
                    assert(out@ == "F"@ + d + "Md and F"@ + d + "md both missing"@);
                }
                return Some(out);
            }
            if fan.tg.is_none() {
                let mut out = "F".to_owned();
                push_decimal(&mut out, fan.index as u64);
                out.append("Tg missing");
                return Some(out);
            }
            i = i + 1;
        }
        None
    }

    /// Every fan of the machine can be controlled.
    pub fn controllable(&self) -> (r: bool)
        ensures
            r == self@.all_controllable(),
    {
        self.not_controllable_reason().is_none()
    }
}

/// The spelling of the mode key that is there, the upper-case one before the other.
pub open spec fn selected_casing(
    upper: Option<crate::smc::KeyInfoView>,
    lower: Option<crate::smc::KeyInfoView>,
) -> (Option<ModeKeyCasing>, Option<crate::smc::KeyInfoView>) {
    if upper is Some {
        (Some(ModeKeyCasing::Upper), upper)
    } else if lower is Some {
        (Some(ModeKeyCasing::Lower), lower)
    } else {
        (None, None)
    }
}

/// Picks the spelling of the mode key that is there, the upper-case one before the
/// other.
pub fn select_mode_casing(upper: Option<KeyInfo>, lower: Option<KeyInfo>) -> (r: (
    Option<ModeKeyCasing>,
    Option<KeyInfo>,
))
    ensures
        (r.0, crate::smc::maybe_info(r.1)) == selected_casing(
            crate::smc::maybe_info(upper),
            crate::smc::maybe_info(lower),
        ),
        r.1 == if upper is Some {
            upper
        } else {
            lower
        },
{
    match (upper, lower) {
        (Some(k), _) => (Some(ModeKeyCasing::Upper), Some(k)),
        (None, Some(k)) => (Some(ModeKeyCasing::Lower), Some(k)),
        (None, None) => (None, None),
    }
}

/// The two letters of a mode key.
pub open spec fn mode_suffix(casing: ModeKeyCasing) -> Seq<u8> {
    match casing {
        ModeKeyCasing::Upper => seq![UPPER_M, LOWER_D],
        ModeKeyCasing::Lower => seq![LOWER_M, LOWER_D],
    }
}

/// The code of a fan's mode key.
pub fn compose_mode_key(fan_index: u8, casing: ModeKeyCasing) -> (r: u32)
    ensures
        r == crate::fourcc::fan_code(fan_index, mode_suffix(casing)),
{
    let suffix: [u8; 2] = match casing {
        ModeKeyCasing::Upper => [UPPER_M, LOWER_D],
        ModeKeyCasing::Lower => [LOWER_M, LOWER_D],
    };
    assert(suffix@ =~= mode_suffix(casing));
    fan_key(fan_index, &suffix)
}

/// The code of a fan's target key.
pub open spec fn target_code(fan_index: u8) -> u32 {
    crate::fourcc::fan_code(fan_index, seq![UPPER_T, LOWER_G])
}

/// The code of a fan's target key.
pub fn compose_target_key(fan_index: u8) -> (r: u32)
    ensures
        r == target_code(fan_index),
{
    let suffix: [u8; 2] = [UPPER_T, LOWER_G];
    assert(suffix@ =~= seq![UPPER_T, LOWER_G]);
    fan_key(fan_index, &suffix)
}

/// The number of fans that the first two replies speak of, zero where it is no number.
pub open spec fn counted(t: Seq<Reply>) -> u8 {
    match crate::codec::decoded(t[0].out.key_info, t[1].out.bytes@) {
        Some(v) => v.saturated_u8(),
        None => 0,
    }
}

/// The suffixes of the keys that are asked about for each fan, in order.
pub open spec fn probed_suffix(j: int) -> Seq<u8> {
    if j == 0 {
        seq![UPPER_M, LOWER_D]
    } else if j == 1 {
        seq![LOWER_M, LOWER_D]
    } else if j == 2 {
        seq![UPPER_T, LOWER_G]
    } else if j == 3 {
        seq![UPPER_M, LOWER_N]
    } else {
        seq![UPPER_M, LOWER_X]
    }
}

/// The key that call number `n` of a probe asks about, from the third call on: the
/// unlock key, then five keys for each fan.
pub open spec fn probed_key(n: int) -> u32 {
    if n == 2 {
        KEY_FTST
    } else {
        crate::fourcc::fan_code(((n - 3) / 5) as u8, probed_suffix((n - 3) % 5))
    }
}

/// What the replies say of fan `i`.
pub open spec fn probed_fan(t: Seq<Reply>, i: int) -> FanProbeView {
    let base = 3 + 5 * i;
    let mode = selected_casing(
        crate::smc::answered_info(t[base]),
        crate::smc::answered_info(t[base + 1]),
    );
    FanProbeView {
        index: i as u8,
        mode_key_casing: mode.0,
        md: mode.1,
        tg: crate::smc::answered_info(t[base + 2]),
        mn: crate::smc::answered_info(t[base + 3]),
        mx: crate::smc::answered_info(t[base + 4]),
    }
}

/// What the replies say of the machine.
pub open spec fn probed(t: Seq<Reply>) -> ProbeView {
    ProbeView {
        fan_count: counted(t),
        ftst: crate::smc::answered_info(t[2]),
        fans: Seq::new(counted(t) as nat, |i: int| probed_fan(t, i)),
    }
}

/// The probing exchange. The fan count must be read; a key that is refused later is
/// one that the machine does not have.
pub open spec fn probing(t: Seq<Reply>) -> crate::smc::StepView<ProbeView> {
    match crate::smc::key_reading(0, KEY_FNUM, t) {
        crate::smc::StepView::Call { after_ms, input } => crate::smc::StepView::Call {
            after_ms,
            input,
        },
        crate::smc::StepView::Failed(e) => crate::smc::StepView::Failed(e),
        crate::smc::StepView::Done(_) => {
            if t.len() < 3 + 5 * counted(t) {
                crate::smc::StepView::Call {
                    after_ms: 0,
                    input: crate::smc::info_request(probed_key(t.len() as int)),
                }
            } else {
                crate::smc::StepView::Done(probed(t))
            }
        },
    }
}

fn next_probed_key(n: usize) -> (r: u32)
    requires
        2 <= n < 3 + 5 * 255,
    ensures
        r == probed_key(n as int),
{
    if n == 2 {
        return KEY_FTST;
    }
    let i: u8 = ((n - 3) / 5) as u8;
    let j: usize = (n - 3) % 5;
    let suffix: [u8; 2] = if j == 0 {
        [UPPER_M, LOWER_D]
    } else if j == 1 {
        [LOWER_M, LOWER_D]
    } else if j == 2 {
        [UPPER_T, LOWER_G]
    } else if j == 3 {
        [UPPER_M, LOWER_N]
    } else {
        [UPPER_M, LOWER_X]
    };
    assert(suffix@ =~= probed_suffix(j as int));
    fan_key(i, &suffix)
}

/// Finds out what the machine's fans can do, without writing anything.
pub fn probe(replies: &Vec<Reply>) -> (r: Step<Probe>)
    ensures
        r@ == probing(replies@),
{
    proof {
        assert(replies@.skip(0) =~= replies@);
    }
    let value = match read_key_from(0, KEY_FNUM, replies, 0) {
        Step::Call { after_ms, input } => return Step::Call { after_ms, input },
        Step::Done(Err(e)) => return Step::Done(Err(e)),
        Step::Done(Ok(v)) => v,
    };
    let count: u8 = match decode_numeric(&value.info, &value.bytes) {
        Some(v) => v.to_u8_saturating(),
        None => 0,
    };
    if replies.len() < 3 + 5 * (count as usize) {
        let key: u32 = next_probed_key(replies.len());
        return Step::Call { after_ms: 0, input: key_info_request(key) };
    }
    let ftst = info_answer(&replies[2]);
    let mut fans: Vec<FanProbe> = Vec::with_capacity(count as usize);
    let mut i: u8 = 0;
    while i < count
        invariant
            i <= count,
            3 + 5 * count <= replies@.len(),
            fans@.len() == i,
            forall|k: int| 0 <= k < i ==> (#[trigger] fans@[k])@ == probed_fan(replies@, k),
        decreases count - i,
    {
        let base: usize = 3 + 5 * (i as usize);
        let (mode_key_casing, md) = select_mode_casing(
            info_answer(&replies[base]),
            info_answer(&replies[base + 1]),
        );
        let fan = FanProbe {
            index: i,
            mode_key_casing,
            md,
            tg: info_answer(&replies[base + 2]),
            mn: info_answer(&replies[base + 3]),
            mx: info_answer(&replies[base + 4]),
        };
        assert(fan@ == probed_fan(replies@, i as int));
        fans.push(fan);
        i = i + 1;
    }
    let result = Probe { fan_count: count, ftst, fans };
    assert(result@.fans =~= probed(replies@).fans);
    Step::Done(Ok(result))
}

/// A finished probe has one description for each fan, in order, and knows the spelling
/// of the mode key of exactly those fans that have one.
pub proof fn probe_is_well_formed(t: Seq<Reply>)
    ensures
        probed(t).well_formed(),
{
}

/// A probe writes nothing.
pub proof fn probing_never_writes(t: Seq<Reply>)
    ensures
        probing(t) matches crate::smc::StepView::Call { after_ms, input } ==> input.data8
            != crate::smc::SMC_CMD_WRITE_BYTES,
{
}

/// A probe ends: three calls, and five more for each fan.
pub proof fn probing_ends(t: Seq<Reply>)
    requires
        t.len() >= 3 + 5 * 255,
    ensures
        !(probing(t) is Call),
{
}

/// Whether the unlock key is there makes no difference to what can be controlled.
pub proof fn unlock_key_is_not_needed(p: ProbeView, ftst: Option<crate::smc::KeyInfoView>)
    ensures
        (ProbeView { ftst, ..p }).complaint() == p.complaint(),
        (ProbeView { ftst, ..p }).all_controllable() == p.all_controllable(),
{
}

/// The keys of a fan all differ, so that no answer about one is taken for another, and
/// no fan shares one with another fan.
pub proof fn probed_keys_are_distinct(m: int, n: int)
    requires
        2 <= m < n < 3 + 5 * 255,
    ensures
        probed_key(m) != probed_key(n),
{
    let key = |k: int| crate::fourcc::fan_code(((k - 3) / 5) as u8, probed_suffix((k - 3) % 5));
    if m == 2 {
        let i = ((n - 3) / 5) as u8;
        let s = probed_suffix((n - 3) % 5);
        crate::fourcc::lemma_big_endian_digits(crate::fourcc::fan_key_bytes(i, s));
        crate::fourcc::lemma_big_endian_digits(seq![0x46u8, 0x74u8, 0x73u8, 0x74u8]);
        assert(crate::fourcc::big_endian(seq![0x46u8, 0x74u8, 0x73u8, 0x74u8]) == KEY_FTST);
        let a = crate::fourcc::fan_key_bytes(i, s);
        let b = seq![0x46u8, 0x74u8, 0x73u8, 0x74u8];
        assert(a[2] != b[2]);
    } else if key(m) == key(n) {
        crate::fourcc::fan_codes_are_distinct(
            ((m - 3) / 5) as u8,
            probed_suffix((m - 3) % 5),
            ((n - 3) / 5) as u8,
            probed_suffix((n - 3) % 5),
        );
        let (a, b) = ((m - 3) % 5, (n - 3) % 5);
        let (x, y) = (probed_suffix(a), probed_suffix(b));
        assert(x[0] == y[0] && x[1] == y[1]);
        assert(a == b);
        assert((m - 3) / 5 == (n - 3) / 5);
    }
}

} // verus!
