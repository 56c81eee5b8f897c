//! What is shown to the user: events, the probe, the monitor.
//!
//! Text is laid out here; a floating-point number inside a line is left as a piece of
//! its own, with the number of decimals and the width that it is to be shown with.
use crate::binary64::Binary64;
use crate::probe::{FanProbe, ModeKeyCasing, Probe};
use crate::sensors::{Reading, SensorSource};
use crate::smc::KeyInfo;
use crate::text::{
    push_decimal, push_padded_left, push_padded_right, push_two_hex_digits, quote, truncate,
};
use vstd::prelude::*;
use vstd::string::*;

verus! {

/// A part of a line.
#[derive(Debug)]
pub enum Piece {
    Text(String),
    /// A number with the given decimals (all that it takes where none are given),
    /// padded on the left to the given width.
    Number { value: Binary64, decimals: Option<u8>, width: u8 },
}

pub ghost enum PieceView {
    Text(Seq<char>),
    Number { value: Binary64, decimals: Option<u8>, width: u8 },
}

impl View for Piece {
    type V = PieceView;

    open spec fn view(&self) -> PieceView {
        match *self {
            Piece::Text(s) => PieceView::Text(s@),
            Piece::Number { value, decimals, width } => PieceView::Number {
                value,
                decimals,
                width,
            },
        }
    }
}

/// The parts of a line.
pub open spec fn line_view(line: Seq<Piece>) -> Seq<PieceView> {
    Seq::new(line.len(), |i: int| line[i]@)
}

/// A number with that many decimals.
pub open spec fn fixed(value: Binary64, decimals: u8) -> PieceView {
    PieceView::Number { value, decimals: Some(decimals), width: 0 }
}

/// A number with as many decimals as it takes.
pub open spec fn plain(value: Binary64) -> PieceView {
    PieceView::Number { value, decimals: None, width: 0 }
}

pub fn text_piece(s: &str) -> (r: Piece)
    ensures
        r@ == PieceView::Text(s@),
{
    Piece::Text(s.to_owned())
}

pub fn plain_piece(value: Binary64) -> (r: Piece)
    ensures
        r@ == plain(value),
{
    Piece::Number { value, decimals: None, width: 0 }
}

pub fn fixed_piece(value: Binary64, decimals: u8) -> (r: Piece)
    ensures
        r@ == fixed(value, decimals),
{
    Piece::Number { value, decimals: Some(decimals), width: 0 }
}

/// The exit code where the rights of the root user are needed and missing.
pub const NOT_ROOT_EXIT_CODE: i32 = 2;

/// Why a control loop ended.
#[derive(Debug, Clone, Copy, PartialEq, Eq, Structural)]
pub enum ExitReason {
    /// A fan could not be given back.
    RestoreFailed,
    /// A sensor got too hot.
    SensorTrip,
    /// Manual mode was lost and could not be had again.
    ModeLost,
    /// The user stopped the loop.
    Sigint,
    /// The time was up.
    Ttl,
}

impl ExitReason {
    pub open spec fn words(self) -> Seq<char> {
        match self {
            ExitReason::RestoreFailed => "restore_failed"@,
            ExitReason::SensorTrip => "sensor_trip"@,
            ExitReason::ModeLost => "mode_lost"@,
            ExitReason::Sigint => "sigint"@,
            ExitReason::Ttl => "ttl"@,
        }
    }

    /// The exit code that goes with the reason.
    pub open spec fn exit_code(self) -> i32 {
        match self {
            ExitReason::RestoreFailed => 3,
            ExitReason::SensorTrip => 4,
            ExitReason::ModeLost => 4,
            ExitReason::Sigint => 0,
            ExitReason::Ttl => 0,
        }
    }

    pub fn text(&self) -> (r: &'static str)
        ensures
            r@ == self.words(),
    {
        match self {
            ExitReason::RestoreFailed => "restore_failed",
            ExitReason::SensorTrip => "sensor_trip",
            ExitReason::ModeLost => "mode_lost",
            ExitReason::Sigint => "sigint",
            ExitReason::Ttl => "ttl",
        }
    }

    pub fn code(&self) -> (r: i32)
        ensures
            r == self.exit_code(),
    {
        match self {
            ExitReason::RestoreFailed => 3,
            ExitReason::SensorTrip => 4,
            ExitReason::ModeLost => 4,
            ExitReason::Sigint => 0,
            ExitReason::Ttl => 0,
        }
    }
}

/// What a control loop tells about itself.
#[derive(Debug)]
pub enum SetEvent {
    Armed { fan: u8, mode_key_type: String },
    TargetWritten { fan: u8, target_rpm: Binary64 },
    Tick { t: u64, max_temp_c: Binary64, target_rpm: Binary64 },
    Trip { sensor: String, celsius: Binary64 },
    RestoreStarted,
    RestoreDone,
    RestoreFailed,
    Exit { code: i32, reason: ExitReason },
}

pub ghost enum SetEventView {
    Armed { fan: u8, mode_key_type: Seq<char> },
    TargetWritten { fan: u8, target_rpm: Binary64 },
    Tick { t: u64, max_temp_c: Binary64, target_rpm: Binary64 },
    Trip { sensor: Seq<char>, celsius: Binary64 },
    RestoreStarted,
    RestoreDone,
    RestoreFailed,
    Exit { code: i32, reason: ExitReason },
}

impl View for SetEvent {
    type V = SetEventView;

    open spec fn view(&self) -> SetEventView {
        match *self {
            SetEvent::Armed { fan, mode_key_type } => SetEventView::Armed {
                fan,
                mode_key_type: mode_key_type@,
            },
            SetEvent::TargetWritten { fan, target_rpm } => SetEventView::TargetWritten {
                fan,
                target_rpm,
            },
            SetEvent::Tick { t, max_temp_c, target_rpm } => SetEventView::Tick {
                t,
                max_temp_c,
                target_rpm,
            },
            SetEvent::Trip { sensor, celsius } => SetEventView::Trip { sensor: sensor@, celsius },
            SetEvent::RestoreStarted => SetEventView::RestoreStarted,
            SetEvent::RestoreDone => SetEventView::RestoreDone,
            SetEvent::RestoreFailed => SetEventView::RestoreFailed,
            SetEvent::Exit { code, reason } => SetEventView::Exit { code, reason },
        }
    }
}

/// A decimal numeral with its sign.
pub open spec fn signed_decimal(n: i32) -> Seq<char> {
    if n < 0 {
        "-"@ + crate::text::decimal((-n) as nat)
    } else {
        crate::text::decimal(n as nat)
    }
}

fn push_signed(out: &mut String, n: i32)
    ensures
        final(out)@ == old(out)@ + signed_decimal(n),
{
    if n < 0 {
        out.append("-");
        push_decimal(out, (-(n as i64)) as u64);
    } else {
        push_decimal(out, n as u64);
    }
    assert(out@ =~= old(out)@ + signed_decimal(n));
}

impl SetEventView {
    /// The line that an event is shown as.
    pub open spec fn line(self) -> Seq<PieceView> {
        match self {
            SetEventView::Armed { fan, mode_key_type } => seq![
                PieceView::Text(
                    "armed: fan="@ + crate::text::decimal(fan as nat) + " mode_key_type="@
                        + mode_key_type,
                ),
            ],
            SetEventView::TargetWritten { fan, target_rpm } => seq![
                PieceView::Text(
                    "target_written: fan="@ + crate::text::decimal(fan as nat) + " target_rpm="@,
                ),
                plain(target_rpm),
            ],
            SetEventView::Tick { t, max_temp_c, target_rpm } => seq![
                PieceView::Text("tick: t="@ + crate::text::decimal(t as nat) + " max_temp_c="@),
                fixed(max_temp_c, 2),
                PieceView::Text(" target_rpm="@),
                fixed(target_rpm, 0),
            ],
            SetEventView::Trip { sensor, celsius } => seq![
                PieceView::Text("TRIP: "@ + sensor + "="@),
                fixed(celsius, 1),
                PieceView::Text("\u{b0}C"@),
            ],
            SetEventView::RestoreStarted => seq![PieceView::Text("restore_started"@)],
            SetEventView::RestoreDone => seq![PieceView::Text("restore_done"@)],
            SetEventView::RestoreFailed => seq![PieceView::Text("RESTORE-FAILED"@)],
            SetEventView::Exit { code, reason } => seq![
                PieceView::Text(
                    "exit: code="@ + signed_decimal(code) + " reason="@ + crate::text::debug_quoted(
                        reason.words(),
                    ),
                ),
            ],
        }
    }
}

impl SetEvent {
    /// The line that the event is shown as.
    pub fn describe(&self) -> (r: Vec<Piece>)
        ensures
            line_view(r@) == self@.line(),
    {
        let mut line: Vec<Piece> = Vec::new();
        match self {
            SetEvent::Armed { fan, mode_key_type } => {
                let mut s = "armed: fan=".to_owned();
                push_decimal(&mut s, *fan as u64);
                s.append(" mode_key_type=");
                s.append(mode_key_type.as_str());
                line.push(Piece::Text(s));
            },
            SetEvent::TargetWritten { fan, target_rpm } => {
                let mut s = "target_written: fan=".to_owned();
                push_decimal(&mut s, *fan as u64);
                s.append(" target_rpm=");
                line.push(Piece::Text(s));
                line.push(plain_piece(*target_rpm));
            },
            SetEvent::Tick { t, max_temp_c, target_rpm } => {
                let mut s = "tick: t=".to_owned();
                push_decimal(&mut s, *t);
                s.append(" max_temp_c=");
                line.push(Piece::Text(s));
                line.push(fixed_piece(*max_temp_c, 2));
                line.push(text_piece(" target_rpm="));
                line.push(fixed_piece(*target_rpm, 0));
            },
            SetEvent::Trip { sensor, celsius } => {
                let mut s = "TRIP: ".to_owned();
                s.append(sensor.as_str());
                s.append("=");
                line.push(Piece::Text(s));
                line.push(fixed_piece(*celsius, 1));
                line.push(text_piece("\u{b0}C"));
            },
            SetEvent::RestoreStarted => line.push(text_piece("restore_started")),
            SetEvent::RestoreDone => line.push(text_piece("restore_done")),
            SetEvent::RestoreFailed => line.push(text_piece("RESTORE-FAILED")),
            SetEvent::Exit { code, reason } => {
                let mut s = "exit: code=".to_owned();
                push_signed(&mut s, *code);
                s.append(" reason=");
                s.append(quote(reason.text()).as_str());
                line.push(Piece::Text(s));
            },
        }
        assert(line_view(line@) =~= self@.line());
        line
    }
}

/// The unlock key in a probe's summary.
#[derive(Debug, Clone)]
pub struct FtstField {
    pub present: bool,
    pub data_type: Option<String>,
    pub data_size: Option<u32>,
    pub data_attributes: Option<u8>,
}

impl From<Option<KeyInfo>> for FtstField {
    fn from(k: Option<KeyInfo>) -> (r: FtstField) {
        match k {
            None => FtstField {
                present: false,
                data_type: None,
                data_size: None,
                data_attributes: None,
            },
            Some(k) => FtstField {
                present: true,
                data_type: Some(k.data_type),
                data_size: Some(k.data_size),
                data_attributes: Some(k.data_attributes),
            },
        }
    }
}

impl vstd::std_specs::convert::FromSpecImpl<Option<KeyInfo>> for FtstField {
    open spec fn obeys_from_spec() -> bool {
        true
    }

    open spec fn from_spec(k: Option<KeyInfo>) -> FtstField {
        match k {
            None => FtstField {
                present: false,
                data_type: None,
                data_size: None,
                data_attributes: None,
            },
            Some(k) => FtstField {
                present: true,
                data_type: Some(k.data_type),
                data_size: Some(k.data_size),
                data_attributes: Some(k.data_attributes),
            },
        }
    }
}

/// What a probe found, with the machine that it was made on.
#[derive(Debug, Clone)]
pub struct ProbeSummary {
    pub model: String,
    pub build: String,
    pub fan_count: u8,
    pub ftst: FtstField,
    pub fans: Vec<FanProbe>,
    pub controllable: bool,
    pub not_controllable_reason: Option<String>,
}

/// An optional text, over its characters.
pub open spec fn maybe_text(s: Option<String>) -> Option<Seq<char>> {
    match s {
        Some(s) => Some(s@),
        None => None,
    }
}

impl ProbeSummary {
    /// Sums up a probe.
    pub fn of(model: String, build: String, probe: Probe) -> (r: ProbeSummary)
        ensures
            r.model == model,
            r.build == build,
            r.fan_count == probe.fan_count,
            r.ftst == <FtstField as vstd::std_specs::convert::FromSpec<
                Option<KeyInfo>,
            >>::from_spec(probe.ftst),
            r.fans == probe.fans,
            r.controllable == probe@.all_controllable(),
            maybe_text(r.not_controllable_reason) == probe@.complaint(),
    {
        let reason = probe.not_controllable_reason();
        ProbeSummary {
            model,
            build,
            fan_count: probe.fan_count,
            ftst: FtstField::from(probe.ftst),
            fans: probe.fans,
            controllable: reason.is_none(),
            not_controllable_reason: reason,
        }
    }
}

/// The line for a key.
pub open spec fn key_line(label: Seq<char>, k: Option<crate::smc::KeyInfoView>) -> Seq<char> {
    match k {
        Some(k) => "  "@ + label + ": type="@ + crate::text::debug_quoted(k.data_type) + " size="@
            + crate::text::decimal(k.data_size as nat) + " attrs=0x"@
            + crate::text::two_hex_digits(k.data_attributes),
        None => "  "@ + label + ": ABSENT"@,
    }
}

/// The line for a key.
pub fn describe_key(label: &str, k: &Option<KeyInfo>) -> (r: String)
    ensures
        r@ == key_line(label@, crate::smc::maybe_info(*k)),
{
    let mut out = "  ".to_owned();
    out.append(label);
    match k {
        Some(k) => {
            out.append(": type=");
            out.append(quote(k.data_type.as_str()).as_str());
            out.append(" size=");
            push_decimal(&mut out, k.data_size as u64);
            out.append(" attrs=0x");
            push_two_hex_digits(&mut out, k.data_attributes);
        },
        None => {
            out.append(": ABSENT");
        },
    }
    assert(out@ =~= key_line(label@, crate::smc::maybe_info(*k)));
    out
}

/// How the spelling of the mode key is shown.
pub open spec fn casing_words(casing: Option<ModeKeyCasing>) -> Seq<char> {
    match casing {
        Some(ModeKeyCasing::Upper) => "F{N}Md (uppercase)"@,
        Some(ModeKeyCasing::Lower) => "F{N}md (lowercase)"@,
        None => "NONE"@,
    }
}

/// The seven lines for a fan.
pub open spec fn fan_lines(fan: crate::probe::FanProbeView) -> Seq<Seq<char>> {
    seq![
        ""@,
        "fan #"@ + crate::text::decimal(fan.index as nat) + ":"@,
        "  mode key casing: "@ + casing_words(fan.mode_key_casing),
        key_line("Md"@, fan.md),
        key_line("Tg"@, fan.tg),
        key_line("Mn"@, fan.mn),
        key_line("Mx"@, fan.mx),
    ]
}

/// The lines for the first `n` fans.
pub open spec fn all_fan_lines(fans: Seq<FanProbe>, n: nat) -> Seq<Seq<char>>
    decreases n,
{
    if n == 0 {
        seq![]
    } else {
        all_fan_lines(fans, (n - 1) as nat) + fan_lines(fans[n - 1]@)
    }
}

/// The line for the unlock key.
pub open spec fn ftst_line(f: FtstField) -> Seq<char> {
    if f.present {
        "ftst:        present (type="@ + crate::text::debug_quoted(
            match f.data_type {
                Some(t) => t@,
                None => "?"@,
            },
        ) + ", size="@ + crate::text::decimal(
            match f.data_size {
                Some(n) => n as nat,
                None => 0,
            },
        ) + ", attrs=0x"@ + crate::text::two_hex_digits(
            match f.data_attributes {
                Some(a) => a,
                None => 0,
            },
        ) + ")"@
    } else {
        "ftst:        ABSENT"@
    }
}

/// The last line: whether the fans can be controlled, and why not.
pub open spec fn verdict_line(controllable: bool, reason: Option<Seq<char>>) -> Seq<char> {
    "controllable: "@ + (if controllable {
        "true"@
    } else {
        "false"@
    }) + match reason {
        Some(r) => " ("@ + r + ")"@,
        None => ""@,
    }
}

/// All lines of a probe's summary.
pub open spec fn summary_lines(s: ProbeSummary) -> Seq<Seq<char>> {
    seq![
        "model:       "@ + s.model@,
        "build:       "@ + s.build@,
        "fan_count:   "@ + crate::text::decimal(s.fan_count as nat),
        ftst_line(s.ftst),
    ] + all_fan_lines(s.fans@, s.fans@.len()) + seq![
        ""@,
        verdict_line(s.controllable, maybe_text(s.not_controllable_reason)),
    ]
}

/// Lines of text, over their characters.
pub open spec fn lines_view(lines: Seq<String>) -> Seq<Seq<char>> {
    Seq::new(lines.len(), |i: int| lines[i]@)
}

/// Appends a line.
fn add(lines: &mut Vec<String>, line: String)
    ensures
        lines_view(final(lines)@) == lines_view(old(lines)@).push(line@),
{
    lines.push(line);
    assert(lines_view(lines@) =~= lines_view(old(lines)@).push(line@));
}

fn labelled(label: &str, value: &str) -> (r: String)
    ensures
        r@ == label@ + value@,
{
    let mut out = label.to_owned();
    out.append(value);
    out
}

fn describe_ftst(f: &FtstField) -> (r: String)
    ensures
        r@ == ftst_line(*f),
{
    if !f.present {
        return "ftst:        ABSENT".to_owned();
    }
    let mut out = "ftst:        present (type=".to_owned();
    match &f.data_type {
        Some(t) => out.append(quote(t.as_str()).as_str()),
        None => out.append(quote("?").as_str()),
    }
    out.append(", size=");
    push_decimal(
        &mut out,
        match f.data_size {
            Some(n) => n as u64,
            None => 0,
        },
    );
    out.append(", attrs=0x");
    push_two_hex_digits(
        &mut out,
        match f.data_attributes {
            Some(a) => a,
            None => 0,
        },
    );
    out.append(")");
    assert(out@ =~= ftst_line(*f));
    out
}

fn add_fan(lines: &mut Vec<String>, fan: &FanProbe)
    ensures
        lines_view(final(lines)@) == lines_view(old(lines)@) + fan_lines(fan@),
{
    let mut title = "fan #".to_owned();
    push_decimal(&mut title, fan.index as u64);
    title.append(":");
    let casing: &str = match fan.mode_key_casing {
        Some(ModeKeyCasing::Upper) => "F{N}Md (uppercase)",
        Some(ModeKeyCasing::Lower) => "F{N}md (lowercase)",
        None => "NONE",
    };
    self::add(lines, "".to_owned());
    self::add(lines, title);
    self::add(lines, labelled("  mode key casing: ", casing));
    self::add(lines, describe_key("Md", &fan.md));
    self::add(lines, describe_key("Tg", &fan.tg));
    self::add(lines, describe_key("Mn", &fan.mn));
    self::add(lines, describe_key("Mx", &fan.mx));
    assert(lines_view(lines@) =~= lines_view(old(lines)@) + fan_lines(fan@));
}

impl ProbeSummary {
    /// All lines of the summary.
    pub fn describe(&self) -> (r: Vec<String>)
        ensures
            lines_view(r@) == summary_lines(*self),
    {
        let mut lines: Vec<String> = Vec::new();
        self::add(&mut lines, labelled("model:       ", self.model.as_str()));
        self::add(&mut lines, labelled("build:       ", self.build.as_str()));
        let mut count = "fan_count:   ".to_owned();
        push_decimal(&mut count, self.fan_count as u64);
        self::add(&mut lines, count);
        self::add(&mut lines, describe_ftst(&self.ftst));
        let ghost head = lines_view(lines@);
        proof {
            assert(head + all_fan_lines(self.fans@, 0) =~= head);
        }
        let mut i: usize = 0;
        while i < self.fans.len()
            invariant
                i <= self.fans@.len(),
                lines_view(lines@) == head + all_fan_lines(self.fans@, i as nat),
            decreases self.fans@.len() - i,
        {
            add_fan(&mut lines, &self.fans[i]);
            assert(lines_view(lines@) =~= head + all_fan_lines(self.fans@, (i + 1) as nat));
            i = i + 1;
        }
        self::add(&mut lines, "".to_owned());
        let mut verdict = "controllable: ".to_owned();
        if self.controllable {
            verdict.append("true");
        } else {
            verdict.append("false");
        }
        if let Some(reason) = &self.not_controllable_reason {
            verdict.append(" (");
            verdict.append(reason.as_str());
            verdict.append(")");
        }
        proof {
            reveal_strlit("");
            assert(verdict@ =~= verdict_line(
                self.controllable,
                maybe_text(self.not_controllable_reason),
            ));
        }
        self::add(&mut lines, verdict);
        assert(lines_view(lines@) =~= summary_lines(*self));
        lines
    }
}

/// The first `max` characters.
pub open spec fn cut(s: Seq<char>, max: nat) -> Seq<char> {
    if s.len() > max {
        s.take(max as int)
    } else {
        s
    }
}

/// How the source of a reading is shown.
pub open spec fn source_words(source: SensorSource) -> Seq<char> {
    match source {
        SensorSource::Hid => "HID"@,
        SensorSource::Smc => "SMC"@,
    }
}

/// The monitor's line for a reading: the name cut and padded to 44 characters, the
/// source to 4, the value to 10 with two decimals, the unit to 5.
pub open spec fn row(r: crate::sensors::ReadingView) -> Seq<PieceView> {
    seq![
        PieceView::Text(
            crate::text::padded_right(cut(r.name, 44), 44) + " "@ + crate::text::padded_left(
                source_words(r.source),
                4,
            ) + " "@,
        ),
        PieceView::Number { value: r.value, decimals: Some(2), width: 10 },
        PieceView::Text(" "@ + crate::text::padded_left(r.unit, 5)),
    ]
}

/// The monitor's line for a reading.
pub fn monitor_row(r: &Reading) -> (line: Vec<Piece>)
    ensures
        line_view(line@) == row(r@),
{
    let src: &str = match r.source {
        SensorSource::Hid => "HID",
        SensorSource::Smc => "SMC",
    };
    let mut head = String::new();
    push_padded_right(&mut head, truncate(r.name.as_str(), 44), 44);
    head.append(" ");
    push_padded_left(&mut head, src, 4);
    head.append(" ");
    let mut tail = " ".to_owned();
    push_padded_left(&mut tail, r.unit.as_str(), 5);
    let mut line: Vec<Piece> = Vec::new();
    proof {
        assert(head@ =~= crate::text::padded_right(cut(r.name@, 44), 44) + " "@
            + crate::text::padded_left(source_words(r.source), 4) + " "@);
    }
    line.push(Piece::Text(head));
    line.push(Piece::Number { value: r.value, decimals: Some(2), width: 10 });
    line.push(Piece::Text(tail));
    assert(line_view(line@) =~= row(r@));
    line
}

/// The monitor's title line.
pub fn monitor_header() -> (r: String)
    ensures
        r@ == crate::text::padded_right("name"@, 44) + " "@ + crate::text::padded_left("src"@, 4)
            + " "@ + crate::text::padded_left("value"@, 10) + " "@ + crate::text::padded_left(
            "unit"@,
            5,
        ),
{
    let mut out = String::new();
    push_padded_right(&mut out, "name", 44);
    out.append(" ");
    push_padded_left(&mut out, "src", 4);
    out.append(" ");
    push_padded_left(&mut out, "value", 10);
    out.append(" ");
    push_padded_left(&mut out, "unit", 5);
    assert(out@ =~= crate::text::padded_right("name"@, 44) + " "@ + crate::text::padded_left(
        "src"@,
        4,
    ) + " "@ + crate::text::padded_left("value"@, 10) + " "@ + crate::text::padded_left(
        "unit"@,
        5,
    ));
    out
}

/// The larger of the interval asked for and a twentieth of a second, which also stands
/// in for a NaN.
pub open spec fn longest_interval(secs: Binary64) -> Binary64 {
    if twentieth().below(secs) {
        secs
    } else {
        twentieth()
    }
}

/// The double nearest to 0.05.
pub open spec fn twentieth() -> Binary64 {
    Binary64 { bits: 0x3fa9_9999_9999_999a }
}

/// The interval between two rounds of the monitor.
pub fn monitor_interval(secs: Binary64) -> (r: Binary64)
    ensures
        r == longest_interval(secs),
{
    let least = Binary64 { bits: 0x3fa9_9999_9999_999a };
    if least.lt(&secs) {
        secs
    } else {
        least
    }
}

/// Counts a round of the monitor. The monitor goes on unless a number of rounds was
/// asked for and is reached.
pub fn monitor_round(count: u32, ticks: u32) -> (r: (u32, bool))
    ensures
        r.0 == if count == u32::MAX {
            0
        } else {
            (count + 1) as u32
        },
        r.1 == !(ticks > 0 && r.0 >= ticks),
{
    let next: u32 = count.wrapping_add(1);
    (next, !(ticks > 0 && next >= ticks))
}

} // verus!
