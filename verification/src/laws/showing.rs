//! What is read from sensors and shown to the user.
use crate::binary64::Binary64;
use crate::fans::FanReading;
use crate::laws::steering::on_list;
use crate::probe::ModeKeyCasing;
use crate::report::{ExitReason, ProbeSummary};
use crate::sensors::{HidService, SensorReading, SensorSource};
use vstd::arithmetic::power2::*;
use vstd::prelude::*;

verus! {

/// The monitor shows every temperature under its sensor's name, in order.
pub proof fn the_monitor_shows_each_temperature(
    temps: Seq<SensorReading>,
    fans: Seq<FanReading>,
    ts: u64,
    i: int,
)
    requires
        0 <= i < temps.len(),
    ensures
        ({
            let lines = crate::sensors::monitor_lines(temps, fans, ts);
            &&& lines.len() == temps.len() + 3 * fans.len()
            &&& lines[i].name == temps[i].name@
            &&& lines[i].value == temps[i].celsius
            &&& lines[i].unit == "C"@
            &&& lines[i].source == SensorSource::Hid
            &&& lines[i].timestamp_ms == ts
        }),
{
}

/// Behind the temperatures the monitor shows every fan in order, with three lines for
/// each: its own actual, lowest and highest speed, under the names of its own keys.
pub proof fn the_monitor_shows_each_fan(
    temps: Seq<SensorReading>,
    fans: Seq<FanReading>,
    ts: u64,
    f: int,
)
    requires
        0 <= f < fans.len(),
    ensures
        ({
            let lines = crate::sensors::monitor_lines(temps, fans, ts);
            let at = temps.len() + 3 * f;
            let number = crate::text::decimal(fans[f].index as nat);
            &&& lines.len() == temps.len() + 3 * fans.len()
            &&& lines[at].name == "F"@ + number + "Ac"@ && lines[at].value == fans[f].actual_rpm
            &&& lines[at + 1].name == "F"@ + number + "Mn"@ && lines[at + 1].value
                == fans[f].min_rpm
            &&& lines[at + 2].name == "F"@ + number + "Mx"@ && lines[at + 2].value
                == fans[f].max_rpm
            &&& forall|k: int|
                at <= k < at + 3 ==> (#[trigger] lines[k]).unit == "rpm"@ && lines[k].source
                    == SensorSource::Smc && lines[k].timestamp_ms == ts
        }),
{
    assert((3 * f) / 3 == f && (3 * f) % 3 == 0);
    assert((3 * f + 1) / 3 == f && (3 * f + 1) % 3 == 1);
    assert((3 * f + 2) / 3 == f && (3 * f + 2) % 3 == 2);
}

/// The temperatures of services are those of the first ones and then those of the
/// others; a single service gives one temperature if it is a temperature sensor with
/// an event, under its own name where it has one, and none else.
pub proof fn sensors_are_read_one_by_one(a: Seq<HidService>, b: Seq<HidService>, s: HidService)
    ensures
        crate::sensors::all_reported(a + b) == crate::sensors::all_reported(a)
            + crate::sensors::all_reported(b),
        ({
            let one = crate::sensors::all_reported(seq![s]);
            let counts = s.usage_page == 0xff00 && s.usage == 5 && s.celsius is Some;
            &&& !counts ==> one.len() == 0
            &&& counts ==> {
                &&& one.len() == 1
                &&& Some(one[0].celsius) == s.celsius
                &&& s.product is Some ==> one[0].name == s.product->0@
                &&& s.product is None ==> one[0].name == "(unnamed sensor)"@
            }
        }),
    decreases b.len(),
{
    assert(seq![s].drop_last() =~= Seq::empty());
    assert(crate::sensors::all_reported(seq![s].drop_last()) =~= Seq::empty());
    if b.len() == 0 {
        assert(a + b =~= a);
        assert(crate::sensors::all_reported(a) + crate::sensors::all_reported(b)
            =~= crate::sensors::all_reported(a));
    } else {
        sensors_are_read_one_by_one(a, b.drop_last(), s);
        assert((a + b).drop_last() =~= a + b.drop_last());
        assert((a + b).last() == b.last());
        assert(crate::sensors::all_reported(a + b) =~= crate::sensors::all_reported(a)
            + crate::sensors::all_reported(b));
    }
}

/// What passes a filter is what is on the list, or all without a list, in order.
pub proof fn filters_let_the_listed_pass(
    names: Seq<Seq<char>>,
    filter: Option<Seq<Seq<char>>>,
    k: usize,
)
    requires
        names.len() <= usize::MAX,
        k < names.len(),
    ensures
        ({
            let passing = crate::sensors::positions_that_count(names, filter);
            &&& passing.contains(k) <==> on_list(filter, names[k as int])
            &&& forall|i: int, j: int| 0 <= i < j < passing.len() ==> passing[i] < passing[j]
            &&& forall|i: int| 0 <= i < passing.len() ==> #[trigger] passing[i] < names.len()
        }),
{
    crate::sensors::filtering_is_exact(names, filter);
}

/// A name counts if it is on the list, or if there is none.
pub proof fn listed_names_count(filter: Option<Seq<Seq<char>>>, name: Seq<char>)
    ensures
        crate::sensors::counts(filter, name) == on_list(filter, name),
{
}

/// The line for a key says whether the machine has it, and if so its type, its size
/// and its attributes.
pub open spec fn tells_of_key(
    line: Seq<char>,
    label: Seq<char>,
    key: Option<crate::smc::KeyInfoView>,
) -> bool {
    &&& key is None ==> line == "  "@ + label + ": ABSENT"@
    &&& key matches Some(k) ==> line == "  "@ + label + ": type="@ + crate::text::debug_quoted(
        k.data_type,
    ) + " size="@ + crate::text::decimal(k.data_size as nat) + " attrs=0x"@
        + crate::text::two_hex_digits(k.data_attributes)
}

proof fn lemma_fan_lines_before(fans: Seq<crate::probe::FanProbe>, n: nat, i: int)
    requires
        0 <= i < n <= fans.len(),
    ensures
        crate::report::all_fan_lines(fans, n).len() == 7 * n,
        forall|j: int|
            0 <= j < 7 ==> crate::report::all_fan_lines(fans, n)[7 * i + j]
                == #[trigger] crate::report::fan_lines(fans[i]@)[j],
    decreases n,
{
    let front = crate::report::all_fan_lines(fans, (n - 1) as nat);
    lemma_fan_lines_length(fans, (n - 1) as nat);
    if i < n - 1 {
        lemma_fan_lines_before(fans, (n - 1) as nat, i);
        assert forall|j: int| 0 <= j < 7 implies crate::report::all_fan_lines(fans, n)[7 * i + j]
            == #[trigger] crate::report::fan_lines(fans[i]@)[j] by {
            assert(7 * i + j < front.len());
        }
    }
}

proof fn lemma_fan_lines_length(fans: Seq<crate::probe::FanProbe>, n: nat)
    requires
        n <= fans.len(),
    ensures
        crate::report::all_fan_lines(fans, n).len() == 7 * n,
    decreases n,
{
    if n > 0 {
        lemma_fan_lines_length(fans, (n - 1) as nat);
    }
}

/// The summary of the unlock key is that of the key that was found, if one was.
pub proof fn the_unlock_key_is_summed_up(k: Option<crate::smc::KeyInfo>)
    ensures
        ({
            let f = <crate::report::FtstField as vstd::std_specs::convert::FromSpec<
                Option<crate::smc::KeyInfo>,
            >>::from_spec(k);
            &&& f.present <==> k is Some
            &&& k is None ==> f.data_type is None && f.data_size is None && f.data_attributes
                is None
            &&& k matches Some(k) ==> f.data_type == Some(k.data_type) && f.data_size == Some(
                k.data_size,
            ) && f.data_attributes == Some(k.data_attributes)
        }),
{
}

/// The summary of a probe starts with the machine and the number of fans, and ends with
/// the verdict.
pub proof fn a_summary_tells_of_the_machine(s: ProbeSummary)
    ensures
        ({
            let lines = crate::report::summary_lines(s);
            let n = lines.len();
            &&& n == 6 + 7 * s.fans@.len()
            &&& lines[0] == "model:       "@ + s.model@
            &&& lines[1] == "build:       "@ + s.build@
            &&& lines[2] == "fan_count:   "@ + crate::text::decimal(s.fan_count as nat)
            &&& !s.ftst.present ==> lines[3] == "ftst:        ABSENT"@
            &&& s.ftst.present && s.ftst.data_type is Some && s.ftst.data_size is Some
                && s.ftst.data_attributes is Some ==> lines[3] == "ftst:        present (type="@
                + crate::text::debug_quoted(s.ftst.data_type->0@) + ", size="@
                + crate::text::decimal(s.ftst.data_size->0 as nat) + ", attrs=0x"@
                + crate::text::two_hex_digits(s.ftst.data_attributes->0) + ")"@
            &&& lines[n - 2] == ""@
            &&& lines[n - 1] == "controllable: "@ + (if s.controllable {
                "true"@
            } else {
                "false"@
            }) + match s.not_controllable_reason {
                Some(r) => " ("@ + r@ + ")"@,
                None => ""@,
            }
        }),
{
    lemma_fan_lines_length(s.fans@, s.fans@.len());
}

/// The summary of a probe tells of every fan in order, in seven lines: its number, how
/// its mode key is spelled, and what is known of its own mode, target, lowest and
/// highest speed key.
pub proof fn a_summary_tells_of_each_fan(s: ProbeSummary, i: int)
    requires
        0 <= i < s.fans@.len(),
    ensures
        ({
            let lines = crate::report::summary_lines(s);
            let at = 4 + 7 * i;
            let fan = s.fans@[i]@;
            &&& lines[at] == ""@
            &&& lines[at + 1] == "fan #"@ + crate::text::decimal(fan.index as nat) + ":"@
            &&& lines[at + 2] == "  mode key casing: "@ + match fan.mode_key_casing {
                Some(ModeKeyCasing::Upper) => "F{N}Md (uppercase)"@,
                Some(ModeKeyCasing::Lower) => "F{N}md (lowercase)"@,
                None => "NONE"@,
            }
            &&& tells_of_key(lines[at + 3], "Md"@, fan.md)
            &&& tells_of_key(lines[at + 4], "Tg"@, fan.tg)
            &&& tells_of_key(lines[at + 5], "Mn"@, fan.mn)
            &&& tells_of_key(lines[at + 6], "Mx"@, fan.mx)
        }),
{
    let fans = s.fans@;
    lemma_fan_lines_before(fans, fans.len(), i);
    let all = crate::report::all_fan_lines(fans, fans.len());
    let lines = crate::report::summary_lines(s);
    let own = crate::report::fan_lines(fans[i]@);
    assert forall|j: int| 0 <= j < 7 implies lines[4 + 7 * i + j] == #[trigger] own[j] by {
        assert(lines[4 + 7 * i + j] == all[7 * i + j]);
    }
    assert(own[0] == lines[4 + 7 * i]);
    assert(own[1] == lines[4 + 7 * i + 1]);
    assert(own[2] == lines[4 + 7 * i + 2]);
    assert(own[3] == lines[4 + 7 * i + 3]);
    assert(own[4] == lines[4 + 7 * i + 4]);
    assert(own[5] == lines[4 + 7 * i + 5]);
    assert(own[6] == lines[4 + 7 * i + 6]);
}

proof fn lemma_first_complaint(fans: Seq<crate::probe::FanProbeView>, i: int)
    requires
        0 <= i <= fans.len(),
    ensures
        match crate::probe::first_complaint(fans, i) {
            None => forall|k: int|
                i <= k < fans.len() ==> (#[trigger] fans[k]).md is Some && fans[k].tg is Some,
            Some(reason) => exists|k: int|
                {
                    &&& i <= k < fans.len()
                    &&& complains_of(#[trigger] fans[k], reason)
                    &&& forall|j: int|
                        i <= j < k ==> (#[trigger] fans[j]).md is Some && fans[j].tg is Some
                },
        },
    decreases fans.len() - i,
{
    if i < fans.len() {
        lemma_first_complaint(fans, i + 1);
        if crate::probe::fan_complaint(fans[i]) is Some {
            assert(complains_of(fans[i], crate::probe::fan_complaint(fans[i])->0));
        } else if let Some(reason) = crate::probe::first_complaint(fans, i + 1) {
            let k = choose|k: int|
                {
                    &&& i + 1 <= k < fans.len()
                    &&& complains_of(#[trigger] fans[k], reason)
                    &&& forall|j: int|
                        i + 1 <= j < k ==> (#[trigger] fans[j]).md is Some && fans[j].tg is Some
                };
            assert(complains_of(fans[k], reason));
        }
    }
}

/// A reason names a fan that lacks a key, and the key that it lacks: the mode key in
/// both spellings, or else the target key.
pub open spec fn complains_of(fan: crate::probe::FanProbeView, reason: Seq<char>) -> bool {
    let n = crate::text::decimal(fan.index as nat);
    ||| fan.md is None && reason == "F"@ + n + "Md and F"@ + n + "md both missing"@
    ||| fan.md is Some && fan.tg is None && reason == "F"@ + n + "Tg missing"@
}

/// A machine whose fans cannot be controlled is told why: it has none, or the first of
/// them that lacks a key is named with it. There is no complaint about another machine.
pub proof fn complaints_name_the_first_fan(p: crate::probe::ProbeView)
    ensures
        match p.complaint() {
            None => p.fan_count > 0 && forall|k: int|
                0 <= k < p.fans.len() ==> (#[trigger] p.fans[k]).md is Some && p.fans[k].tg is Some,
            Some(reason) => if p.fan_count == 0 {
                reason == "fan_count == 0"@
            } else {
                exists|k: int|
                    {
                        &&& 0 <= k < p.fans.len()
                        &&& complains_of(#[trigger] p.fans[k], reason)
                        &&& forall|j: int|
                            0 <= j < k ==> (#[trigger] p.fans[j]).md is Some && p.fans[j].tg is Some
                    }
            },
        },
{
    lemma_first_complaint(p.fans, 0);
}

/// A piece of a line that shows a number, with that many decimals and no padding.
pub open spec fn shows(
    piece: crate::report::PieceView,
    value: Binary64,
    decimals: Option<u8>,
) -> bool {
    piece == (crate::report::PieceView::Number { value, decimals, width: 0 })
}

/// A piece of a line is a text.
pub open spec fn says(piece: crate::report::PieceView, text: Seq<char>) -> bool {
    piece == crate::report::PieceView::Text(text)
}

/// What is told of a fan names that fan, with its key type or its speed.
pub proof fn events_name_their_fan(fan: u8, mode_key_type: Seq<char>, rpm: Binary64)
    ensures
        ({
            let armed = crate::report::SetEventView::Armed { fan, mode_key_type }.line();
            let written = crate::report::SetEventView::TargetWritten {
                fan,
                target_rpm: rpm,
            }.line();
            let number = crate::text::decimal(fan as nat);
            &&& armed.len() == 1
            &&& says(armed[0], "armed: fan="@ + number + " mode_key_type="@ + mode_key_type)
            &&& written.len() == 2
            &&& says(written[0], "target_written: fan="@ + number + " target_rpm="@)
            &&& shows(written[1], rpm, None)
        }),
{
}

/// A tick is told with its time, its temperature and its target; a trip with the
/// sensor and its temperature.
pub proof fn events_show_their_numbers(
    t: u64,
    heat: Binary64,
    rpm: Binary64,
    sensor: Seq<char>,
)
    ensures
        ({
            let tick = crate::report::SetEventView::Tick {
                t,
                max_temp_c: heat,
                target_rpm: rpm,
            }.line();
            let trip = crate::report::SetEventView::Trip { sensor, celsius: heat }.line();
            &&& tick.len() == 4
            &&& says(tick[0], "tick: t="@ + crate::text::decimal(t as nat) + " max_temp_c="@)
            &&& shows(tick[1], heat, Some(2))
            &&& says(tick[2], " target_rpm="@)
            &&& shows(tick[3], rpm, Some(0))
            &&& trip.len() == 3
            &&& says(trip[0], "TRIP: "@ + sensor + "="@)
            &&& shows(trip[1], heat, Some(1))
            &&& says(trip[2], "\u{b0}C"@)
        }),
{
}

/// An exit is told with its code, sign and all, and with the word for its reason; no two
/// reasons have the same word.
pub proof fn exits_are_told(code: i32, reason: ExitReason, other: ExitReason)
    ensures
        ({
            let line = crate::report::SetEventView::Exit { code, reason }.line();
            let digits = if code < 0 {
                "-"@ + crate::text::decimal((-code) as nat)
            } else {
                crate::text::decimal(code as nat)
            };
            &&& line.len() == 1
            &&& says(
                line[0],
                "exit: code="@ + digits + " reason="@ + crate::text::debug_quoted(reason.words()),
            )
        }),
        reason.words() == other.words() ==> reason == other,
        reason == ExitReason::Ttl ==> reason.words() == "ttl"@,
        reason == ExitReason::Sigint ==> reason.words() == "sigint"@,
        reason == ExitReason::SensorTrip ==> reason.words() == "sensor_trip"@,
        reason == ExitReason::ModeLost ==> reason.words() == "mode_lost"@,
        reason == ExitReason::RestoreFailed ==> reason.words() == "restore_failed"@,
{
    reveal_strlit("ttl");
    reveal_strlit("sigint");
    reveal_strlit("sensor_trip");
    reveal_strlit("mode_lost");
    reveal_strlit("restore_failed");
    assert("ttl"@.len() == 3 && "sigint"@.len() == 6 && "sensor_trip"@.len() == 11);
    assert("mode_lost"@.len() == 9 && "restore_failed"@.len() == 14);
}

/// A notice about a speed shows the very numbers that it is about, in order.
pub proof fn notices_show_their_numbers(a: Binary64, b: Binary64, c: Binary64)
    ensures
        ({
            let outside = crate::prepare::NoticeView::OutsideSpec {
                rpm: a,
                min_rpm: b,
                max_rpm: c,
            }.line();
            let clamped = crate::prepare::NoticeView::Clamped { from: a, to: b }.line();
            &&& outside.len() == 7
            &&& says(outside[0], "warning: --no-clamp; target "@)
            &&& shows(outside[1], a, None)
            &&& says(outside[2], " outside spec ["@)
            &&& shows(outside[3], b, None)
            &&& says(outside[4], ", "@)
            &&& shows(outside[5], c, None)
            &&& says(outside[6], "]"@)
            &&& clamped.len() == 5
            &&& says(clamped[0], "clamped target from "@)
            &&& shows(clamped[1], a, None)
            &&& says(clamped[2], " to "@)
            &&& shows(clamped[3], b, None)
            &&& says(clamped[4], " RPM"@)
        }),
{
}

/// A notice about a probe gives the reason, or the two numbers of fans that disagree.
pub proof fn notices_give_their_reasons(reason: Seq<char>, probed: u8, read: usize)
    ensures
        ({
            let host = crate::prepare::NoticeView::HostNotControllable { reason }.line();
            let count = crate::prepare::NoticeView::CountMismatch { probed, read }.line();
            &&& host.len() == 1
            &&& says(host[0], "warning: host probed as not-controllable: "@ + reason)
            &&& count.len() == 1
            &&& says(
                count[0],
                "warning: probe fan_count="@ + crate::text::decimal(probed as nat)
                    + " disagrees with read_fans count="@ + crate::text::decimal(read as nat),
            )
        }),
{
}

/// A refusal about a fan names that fan, and the number of fans where it is none.
pub proof fn refusals_name_their_fan(fan: u8, fan_count: u8, rpm: Binary64)
    ensures
        ({
            let number = crate::text::decimal(fan as nat);
            &&& crate::prepare::CliError::FanOutOfRange { fan, fan_count }.words() == "fan "@
                + number + " out of range (probe reports fan_count="@ + crate::text::decimal(
                fan_count as nat,
            ) + ")"@
            &&& crate::prepare::CliError::NotControllable { fan }.words() == "fan "@ + number
                + " not controllable: Md/Tg/casing missing in probe"@
            &&& crate::prepare::CliError::NotRead { fan }.words() == "fan "@ + number
                + " not found in read_fans"@
            &&& rpm.nan() ==> crate::prepare::CliError::RpmNotFinite { rpm }.words()
                == "rpm must be a finite number (got "@ + "NaN"@ + ")"@
            &&& !rpm.nan() && rpm.value() > 0 ==> crate::prepare::CliError::RpmNotFinite {
                rpm,
            }.words() == "rpm must be a finite number (got "@ + "inf"@ + ")"@
            &&& !rpm.nan() && rpm.value() < 0 ==> crate::prepare::CliError::RpmNotFinite {
                rpm,
            }.words() == "rpm must be a finite number (got "@ + "-inf"@ + ")"@
        }),
{
}

/// A failed call is told with its code, a refusal by the SMC with its result.
pub proof fn errors_show_their_codes(rc: i32, result: u8)
    ensures
        ({
            let pattern = crate::text::numeral(
                16,
                if rc < 0 {
                    (rc + 0x1_0000_0000) as nat
                } else {
                    rc as nat
                },
            );
            &&& crate::error::SmcErrorView::OpenFailed { rc }.words()
                == "IOServiceOpen(AppleSMC) failed: "@ + ("0x"@ + pattern)
            &&& crate::error::SmcErrorView::CallFailed { rc }.words()
                == "IOConnectCallStructMethod failed: "@ + ("0x"@ + pattern)
            &&& crate::error::SmcErrorView::Refused { result }.words() == "SMC returned result="@
                + ("0x"@ + crate::text::numeral(16, result as nat))
        }),
{
}

/// An error about a key's type shows the type and the size that it is about, and the
/// fan where the key is a mode key that holds no number.
pub proof fn errors_show_their_types(
    text: Seq<char>,
    size: u32,
    fan: u8,
    code: u32,
    target: Binary64,
)
    ensures
        ({
            let quoted = crate::text::debug_quoted(text);
            let number = crate::text::decimal(size as nat);
            &&& crate::error::SmcErrorView::BadFourcc { text }.words()
                == "fourcc string must be 4 bytes: "@ + quoted
            &&& crate::error::SmcErrorView::UnsupportedMode {
                data_type: text,
                data_size: size,
            }.words() == "unsupported mode key type/size: "@ + quoted + "/"@ + number
            &&& crate::error::SmcErrorView::UnsupportedTarget {
                data_type: text,
                data_size: size,
            }.words() == "unsupported target key type/size: "@ + quoted + "/"@ + number
            &&& crate::error::SmcErrorView::ModeUndecodable {
                fan_index: fan,
                mode_type: text,
                mode_size: size,
            }.words() == "could not decode F"@ + crate::text::decimal(fan as nat) + "Md ("@ + text
                + "/"@ + number + ")"@
            &&& vstd::utf8::valid_utf8(crate::fourcc::code_bytes(code))
                ==> crate::error::SmcErrorView::CountUndecodable { code, data_size: size }.words()
                == "could not decode FNum (type="@ + crate::text::debug_quoted(
                vstd::utf8::decode_utf8(crate::fourcc::code_bytes(code)),
            ) + ", size="@ + number + ")"@
            &&& !vstd::utf8::valid_utf8(crate::fourcc::code_bytes(code))
                ==> crate::error::SmcErrorView::CountUndecodable { code, data_size: size }.words()
                == "could not decode FNum (type="@ + crate::text::debug_quoted("?"@) + ", size="@
                + number + ")"@
            &&& target.nan() ==> crate::error::SmcErrorView::TargetNotFinite { target }.words()
                == "target RPM must be finite (got "@ + "NaN"@ + ")"@
            &&& !target.nan() && target.value() > 0 ==> crate::error::SmcErrorView::TargetNotFinite {
                target,
            }.words() == "target RPM must be finite (got "@ + "inf"@ + ")"@
            &&& !target.nan() && target.value() < 0 ==> crate::error::SmcErrorView::TargetNotFinite {
                target,
            }.words() == "target RPM must be finite (got "@ + "-inf"@ + ")"@
        }),
{
}

/// A row of the monitor shows a reading's name, or its first 44 characters, then its
/// source, its value with two decimals and its unit, each in its own column.
pub proof fn rows_line_up(r: crate::sensors::ReadingView)
    ensures
        ({
            let line = crate::report::row(r);
            let head = line[0]->Text_0;
            let tail = line[2]->Text_0;
            let source = match r.source {
                SensorSource::Hid => "HID"@,
                SensorSource::Smc => "SMC"@,
            };
            &&& line.len() == 3
            &&& line[0] is Text && line[2] is Text
            &&& head.len() == 50
            &&& forall|i: int|
                0 <= i < 44 ==> #[trigger] head[i] == if i < r.name.len() {
                    r.name[i]
                } else {
                    ' '
                }
            &&& head[44] == ' ' && head[45] == ' ' && head[49] == ' '
            &&& head.subrange(46, 49) == source
            &&& line[1] == (crate::report::PieceView::Number {
                value: r.value,
                decimals: Some(2),
                width: 10,
            })
            &&& tail.len() >= 6 && tail[0] == ' '
            &&& tail.len() > r.unit.len()
            &&& tail.skip(tail.len() - r.unit.len()) == r.unit
        }),
{
    reveal_strlit(" ");
    reveal_strlit("HID");
    reveal_strlit("SMC");
    let line = crate::report::row(r);
    let head = line[0]->Text_0;
    let tail = line[2]->Text_0;
    let source = crate::report::source_words(r.source);
    assert(source.len() == 3);
    crate::laws::texts::padding_adds_blanks_only(crate::report::cut(r.name, 44), 44);
    crate::laws::texts::padding_adds_blanks_only(source, 4);
    crate::laws::texts::padding_adds_blanks_only(r.unit, 5);
    let name = crate::text::padded_right(crate::report::cut(r.name, 44), 44);
    let src = crate::text::padded_left(source, 4);
    assert(name.len() == 44 && src.len() == 4);
    assert(head =~= name + " "@ + src + " "@);
    assert(head[44] == ' ');
    assert(head[45] == src[0]);
    assert(head[49] == ' ');
    assert forall|i: int| 0 <= i < 44 implies #[trigger] head[i] == if i < r.name.len() {
        r.name[i]
    } else {
        ' '
    } by {
        assert(head[i] == name[i]);
        let cut = crate::report::cut(r.name, 44);
        if i < cut.len() {
            assert(name.take(cut.len() as int)[i] == name[i]);
        }
    }
    assert(head.subrange(46, 49) =~= src.skip(1));
    let unit = crate::text::padded_left(r.unit, 5);
    assert(tail =~= " "@ + unit);
    assert(tail.skip(tail.len() - r.unit.len()) =~= unit.skip(unit.len() - r.unit.len()));
}

/// The monitor waits as long as it is asked to, and a twentieth of a second at least,
/// also where what it is asked for is no number.
pub proof fn the_monitor_waits(secs: Binary64)
    ensures
        ({
            let r = crate::report::longest_interval(secs);
            let least = Binary64 { bits: 0x3fa9_9999_9999_999a };
            &&& r == secs || r == least
            &&& !r.nan()
            &&& r.value() >= least.value()
            &&& !secs.nan() ==> r.value() >= secs.value()
            &&& secs.nan() ==> r == least
        }),
{
}

/// A user who is not root is shown the curve's number of points and the fan's own
/// number and range, and how to repeat a request as root.
pub proof fn users_without_rights_are_told(
    points: usize,
    live: FanReading,
    task: crate::prepare::SetTask,
)
    ensures
        ({
            let smoke = crate::prepare::smoke_words(points, live);
            let root = crate::prepare::set_root_words(task);
            &&& smoke.len() == 5
            &&& says(
                smoke[0],
                "smoke OK: curve has "@ + crate::text::decimal(points as nat) + " points, fan "@
                    + crate::text::decimal(live.index as nat) + " controllable (Mn="@,
            )
            &&& shows(smoke[1], live.min_rpm, Some(0))
            &&& says(smoke[2], "/Mx="@)
            &&& shows(smoke[3], live.max_rpm, Some(0))
            &&& says(smoke[4], "). Re-run with sudo to activate."@)
            &&& root.len() == 2
            &&& says(
                root[0],
                "msf set requires root (writes SMC keys). Re-run with: sudo msf set "@
                    + crate::text::decimal(task.fan as nat) + " "@,
            )
            &&& shows(root[1], task.rpm, None)
        }),
{
}

/// A profile is told of by its place, which is also the one in the command to go on
/// with.
pub proof fn a_profile_is_named_by_its_place(path: Seq<char>, policy: Seq<char>)
    ensures
        crate::prepare::profile_words(path, policy) == seq![
            "wrote "@ + path + " ("@ + policy + " policy)"@,
            "next:  sudo msf run --curve "@ + path + " --fan 0 --duration-secs 600"@,
        ],
{
}

/// The list of sensors is shown with the machine that it was made on, and with every
/// sensor in order, each with the time that it was added.
pub proof fn the_list_shows_each_sensor(t: crate::calibration::SensorTable, i: int)
    requires
        0 <= i < t.sensors@.len(),
    ensures
        ({
            let lines = t.words();
            &&& lines.len() == 4 + t.sensors@.len()
            &&& lines[0] == "model:       "@ + t.model@
            &&& lines[1] == "build:       "@ + t.build@
            &&& lines[2] == "recorded_at: "@ + t.recorded_at@
            &&& lines[3] == "sensors ("@ + crate::text::decimal(t.sensors@.len()) + "):"@
            &&& lines[4 + i] == "  - "@ + t.sensors@[i].name@ + " (added "@
                + t.sensors@[i].added_at@ + ")"@
        }),
{
}

/// A list that was made on another machine is told of with both machines, the present
/// one first.
pub proof fn a_mismatch_names_both_machines(
    t: crate::calibration::SensorTable,
    model: Seq<char>,
    build: Seq<char>,
)
    ensures
        t.mismatch_words(model, build) == "warning: calibration host mismatch (current: "@ + model
            + "/"@ + build + ", recorded: "@ + t.model@ + "/"@ + t.build@ + ")"@,
{
}

/// The list of sensors is saved exactly if it changed, and what is told of a change
/// says so.
pub proof fn changes_are_told_and_saved(changed: bool)
    ensures
        ({
            let added = crate::calibration::CalibrateAction::Add.follow_up(changed);
            let removed = crate::calibration::CalibrateAction::Remove.follow_up(changed);
            let shown = crate::calibration::CalibrateAction::List.follow_up(changed);
            &&& added.save == changed && removed.save == changed && !shown.save
            &&& added.change is Some && removed.change is Some && shown.change is None
            &&& changed ==> added.change->0.words() == "added: "@ && removed.change->0.words()
                == "removed: "@
            &&& !changed ==> added.change->0.words() == "already present: "@
                && removed.change->0.words() == "not present: "@
        }),
{
}

/// The service is opened step by step, each step only once all before it went well; the
/// connection is the one that the kernel gave.
pub proof fn opening_goes_step_by_step(facts: crate::smc::OpeningFacts)
    ensures
        ({
            let o = crate::smc::opening(facts);
            let matched = facts.matching_is_null == Some(false);
            let found = matched && facts.service is Some && facts.service->0 != 0;
            &&& o is Match <==> facts.matching_is_null is None
            &&& o is Find <==> matched && facts.service is None
            &&& o is Open <==> found && facts.opened is None
            &&& o is Open ==> Some(o->service) == facts.service
            &&& o is Ready ==> found && facts.opened == Some((0i32, o->Ready_0.conn))
            &&& facts.opened matches Some((rc, conn)) ==> (found && rc == 0 ==> o is Ready)
            &&& facts.matching_is_null == Some(true) ==> o == crate::smc::OpeningView::Failed(
                crate::error::SmcErrorView::MatchingNull,
            )
            &&& matched && facts.service == Some(0u32) ==> o == crate::smc::OpeningView::Failed(
                crate::error::SmcErrorView::ServiceNotFound,
            )
            &&& facts.opened matches Some((rc, conn)) ==> (found && rc != 0 ==> o
                == crate::smc::OpeningView::Failed(
                crate::error::SmcErrorView::OpenFailed { rc },
            ))
        }),
{
}

/// A held fan counts as taken over again exactly if its mode reads as one half or
/// more; for a fan that is not held nothing is decided.
pub proof fn a_readback_decides(armed: bool, restored: bool, readback: Option<Binary64>)
    ensures
        ({
            let d = crate::session::re_arm_outcome(armed, restored, readback);
            let on = readback is Some && !readback->0.nan() && 2 * readback->0.value() >= pow2(
                1074,
            );
            &&& d == crate::session::ReArmDecision::Skip <==> !armed || restored
            &&& armed && !restored && on ==> d == crate::session::ReArmDecision::Success
            &&& armed && !restored && !on ==> d == crate::session::ReArmDecision::Failed
        }),
{
    crate::session::lemma_mode_numbers();
}

} // verus!
