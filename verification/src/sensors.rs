//! Sensors: their readings, which of them count, and when one is too hot.
use crate::binary64::Binary64;
use crate::fans::FanReading;
use crate::text::{push_decimal, same_text};
use vstd::prelude::*;
use vstd::string::*;

verus! {

/// Where a reading comes from.
#[derive(Debug, Clone, Copy, PartialEq, Eq, Structural)]
pub enum SensorSource {
    Hid,
    Smc,
}

/// One line of the monitor.
#[derive(Debug, Clone)]
pub struct Reading {
    pub name: String,
    pub source: SensorSource,
    pub value: Binary64,
    pub unit: String,
    pub timestamp_ms: u64,
}

pub ghost struct ReadingView {
    pub name: Seq<char>,
    pub source: SensorSource,
    pub value: Binary64,
    pub unit: Seq<char>,
    pub timestamp_ms: u64,
}

impl View for Reading {
    type V = ReadingView;

    open spec fn view(&self) -> ReadingView {
        ReadingView {
            name: self.name@,
            source: self.source,
            value: self.value,
            unit: self.unit@,
            timestamp_ms: self.timestamp_ms,
        }
    }
}

/// A temperature.
#[derive(Debug, Clone)]
pub struct SensorReading {
    pub name: String,
    pub celsius: Binary64,
}

pub ghost struct SensorReadingView {
    pub name: Seq<char>,
    pub celsius: Binary64,
}

impl View for SensorReading {
    type V = SensorReadingView;

    open spec fn view(&self) -> SensorReadingView {
        SensorReadingView { name: self.name@, celsius: self.celsius }
    }
}

/// The temperatures in a list.
pub open spec fn temps_view(temps: Seq<SensorReading>) -> Seq<SensorReadingView> {
    Seq::new(temps.len(), |i: int| temps[i]@)
}

/// Reading the HID temperature sensors can fail.
#[derive(Debug, Clone, Copy, PartialEq, Eq, Structural)]
pub enum HidError {
    /// The HID event system cannot be had.
    Unavailable,
}

impl HidError {
    /// The message that describes the error.
    pub fn message(&self) -> (r: &'static str)
        ensures
            r@ == "HID event system unavailable"@,
    {
        "HID event system unavailable"
    }
}

/// The usage page of Apple's own sensors.
pub const TEMPERATURE_USAGE_PAGE: u32 = 0xff00;

/// The usage of a temperature sensor on that page.
pub const TEMPERATURE_USAGE: u32 = 5;

/// A service of the HID event system, as it describes itself.
#[derive(Debug)]
pub struct HidService {
    pub usage_page: u32,
    pub usage: u32,
    pub product: Option<String>,
    /// What its temperature event says, where it has one.
    pub celsius: Option<Binary64>,
}

/// The name of a sensor that has none of its own.
pub const UNNAMED_SENSOR: &'static str = "(unnamed sensor)";

/// The temperature that a service reports: a temperature sensor with an event reports
/// one, under its own name or else the one for sensors without; any other service none.
pub open spec fn reported(s: HidService) -> Option<SensorReadingView> {
    if s.usage_page == TEMPERATURE_USAGE_PAGE && s.usage == TEMPERATURE_USAGE && s.celsius is Some {
        Some(
            SensorReadingView {
                name: match s.product {
                    Some(p) => p@,
                    None => UNNAMED_SENSOR@,
                },
                celsius: s.celsius->0,
            },
        )
    } else {
        None
    }
}

/// The temperatures that services report, in order.
pub open spec fn all_reported(services: Seq<HidService>) -> Seq<SensorReadingView>
    decreases services.len(),
{
    if services.len() == 0 {
        seq![]
    } else {
        let before = all_reported(services.drop_last());
        match reported(services.last()) {
            Some(t) => before.push(t),
            None => before,
        }
    }
}

/// The temperatures that the HID sensors report, from the services of the event system;
/// there are none to be had without the event system.
pub fn read_all(services: &Option<Vec<HidService>>) -> (r: Result<Vec<SensorReading>, HidError>)
    ensures
        match r {
            Ok(v) => services is Some && temps_view(v@) == all_reported(services->0@),
            Err(e) => services is None && e == HidError::Unavailable,
        },
{
    let list = match services {
        Some(v) => v,
        None => return Err(HidError::Unavailable),
    };
    let mut out: Vec<SensorReading> = Vec::new();
    assert(temps_view(out@) =~= all_reported(list@.take(0)));
    let mut i: usize = 0;
    while i < list.len()
        invariant
            i <= list@.len(),
            temps_view(out@) == all_reported(list@.take(i as int)),
        decreases list@.len() - i,
    {
        let s = &list[i];
        let ghost before = out@;
        proof {
            assert(list@.take(i + 1).drop_last() =~= list@.take(i as int));
        }
        if s.usage_page == TEMPERATURE_USAGE_PAGE && s.usage == TEMPERATURE_USAGE {
            if let Some(celsius) = s.celsius {
                let name: String = match &s.product {
                    Some(p) => p.clone(),
                    None => UNNAMED_SENSOR.to_owned(),
                };
                out.push(SensorReading { name, celsius });
                assert(temps_view(out@) =~= temps_view(before).push(out@.last()@));
            }
        }
        i = i + 1;
    }
    assert(list@.take(i as int) =~= list@);
    Ok(out)
}

/// The time in milliseconds since the epoch, of which 64 bits are kept; zero for a
/// clock that stands before the epoch.
pub fn now_ms(since_epoch_ms: Option<u128>) -> (r: u64)
    ensures
        r == match since_epoch_ms {
            Some(ms) => ms % 0x1_0000_0000_0000_0000,
            None => 0,
        },
{
    match since_epoch_ms {
        Some(ms) => (ms % 0x1_0000_0000_0000_0000) as u64,
        None => 0,
    }
}

/// The name of a fan's key.
pub open spec fn fan_key_name(index: u8, suffix: Seq<char>) -> Seq<char> {
    "F"@ + crate::text::decimal(index as nat) + suffix
}

/// The name of a fan's key.
fn name_fan_key(index: u8, suffix: &str) -> (r: String)
    ensures
        r@ == fan_key_name(index, suffix@),
{
    let mut out = "F".to_owned();
    push_decimal(&mut out, index as u64);
    out.append(suffix);
    out
}

/// The monitor's line for a temperature.
pub open spec fn temperature_line(s: SensorReadingView, ts: u64) -> ReadingView {
    ReadingView {
        name: s.name,
        source: SensorSource::Hid,
        value: s.celsius,
        unit: "C"@,
        timestamp_ms: ts,
    }
}

/// The monitor's lines for a fan: actual, lowest and highest speed.
pub open spec fn fan_line(f: FanReading, k: int, ts: u64) -> ReadingView {
    ReadingView {
        name: fan_key_name(
            f.index,
            if k == 0 {
                "Ac"@
            } else if k == 1 {
                "Mn"@
            } else {
                "Mx"@
            },
        ),
        source: SensorSource::Smc,
        value: if k == 0 {
            f.actual_rpm
        } else if k == 1 {
            f.min_rpm
        } else {
            f.max_rpm
        },
        unit: "rpm"@,
        timestamp_ms: ts,
    }
}

/// All lines of the monitor: the temperatures, then three lines for each fan.
pub open spec fn monitor_lines(
    temps: Seq<SensorReading>,
    fans: Seq<FanReading>,
    ts: u64,
) -> Seq<ReadingView> {
    Seq::new(
        temps.len() + 3 * fans.len(),
        |i: int|
            if i < temps.len() {
                temperature_line(temps[i]@, ts)
            } else {
                fan_line(fans[(i - temps.len()) / 3], (i - temps.len()) % 3, ts)
            },
    )
}

/// The readings in a list.
pub open spec fn readings_view(readings: Seq<Reading>) -> Seq<ReadingView> {
    Seq::new(readings.len(), |i: int| readings[i]@)
}

fn speed_reading(index: u8, suffix: &str, value: Binary64, ts: u64) -> (r: Reading)
    ensures
        r@ == (ReadingView {
            name: fan_key_name(index, suffix@),
            source: SensorSource::Smc,
            value,
            unit: "rpm"@,
            timestamp_ms: ts,
        }),
{
    Reading {
        name: name_fan_key(index, suffix),
        source: SensorSource::Smc,
        value,
        unit: "rpm".to_owned(),
        timestamp_ms: ts,
    }
}

/// Puts all that was read at one time into the monitor's lines. Where the sensors or
/// the fans could not be read, their list is empty.
pub fn collect_readings(temps: &Vec<SensorReading>, fans: &Vec<FanReading>, ts: u64) -> (r: Vec<
    Reading,
>)
    ensures
        readings_view(r@) == monitor_lines(temps@, fans@, ts),
{
    let mut out: Vec<Reading> = Vec::new();
    let ghost lines = monitor_lines(temps@, fans@, ts);
    let mut i: usize = 0;
    while i < temps.len()
        invariant
            i <= temps@.len(),
            lines == monitor_lines(temps@, fans@, ts),
            out@.len() == i,
            forall|k: int| 0 <= k < i ==> (#[trigger] out@[k])@ == lines[k],
        decreases temps@.len() - i,
    {
        let s = &temps[i];
        out.push(
            Reading {
                name: s.name.clone(),
                source: SensorSource::Hid,
                value: s.celsius,
                unit: "C".to_owned(),
                timestamp_ms: ts,
            },
        );
        i = i + 1;
    }
    let mut f: usize = 0;
    while f < fans.len()
        invariant
            f <= fans@.len(),
            lines == monitor_lines(temps@, fans@, ts),
            out@.len() == temps@.len() + 3 * f,
            forall|k: int| 0 <= k < out@.len() ==> (#[trigger] out@[k])@ == lines[k],
        decreases fans@.len() - f,
    {
        let fan: FanReading = fans[f];
        let ghost base = (temps@.len() + 3 * f) as int;
        let ghost before = out@;
        out.push(speed_reading(fan.index, "Ac", fan.actual_rpm, ts));
        out.push(speed_reading(fan.index, "Mn", fan.min_rpm, ts));
        out.push(speed_reading(fan.index, "Mx", fan.max_rpm, ts));
        assert forall|k: int| 0 <= k < out@.len() implies (#[trigger] out@[k])@ == lines[k] by {
            if k < base {
                assert(out@[k] == before[k]);
            } else {
                assert(k == base || k == base + 1 || k == base + 2);
                assert((base - temps@.len()) / 3 == f && (base - temps@.len()) % 3 == 0);
                assert((base + 1 - temps@.len()) / 3 == f && (base + 1 - temps@.len()) % 3 == 1);
                assert((base + 2 - temps@.len()) / 3 == f && (base + 2 - temps@.len()) % 3 == 2);
            }
        }
        f = f + 1;
    }
    assert(readings_view(out@) =~= lines);
    out
}

/// A list of names, if there is one, as sequences of characters.
pub open spec fn names_view(names: Option<Vec<String>>) -> Option<Seq<Seq<char>>> {
    match names {
        Some(v) => Some(Seq::new(v@.len(), |i: int| v@[i]@)),
        None => None,
    }
}

/// Without a list every name counts, with one those on it do.
pub open spec fn counts(names: Option<Seq<Seq<char>>>, name: Seq<char>) -> bool {
    match names {
        Some(v) => v.contains(name),
        None => true,
    }
}

/// Without a list every name counts, with one those on it do.
pub fn in_scope(names: &Option<Vec<String>>, name: &str) -> (r: bool)
    ensures
        r == counts(names_view(*names), name@),
{
    match names {
        None => true,
        Some(v) => {
            let ghost all = names_view(*names)->0;
            let mut i: usize = 0;
            while i < v.len()
                invariant
                    i <= v@.len(),
                    all == Seq::new(v@.len(), |k: int| v@[k]@),
                    names_view(*names) == Some(all),
                    forall|k: int| 0 <= k < i ==> all[k] != name@,
                decreases v@.len() - i,
            {
                if same_text(v[i].as_str(), name) {
                    assert(all[i as int] == name@);
                    return true;
                }
                assert(all[i as int] != name@);
                i = i + 1;
            }
            assert(!all.contains(name@));
            false
        },
    }
}

/// The positions of the names that count, in order.
pub open spec fn positions_that_count(
    names: Seq<Seq<char>>,
    filter: Option<Seq<Seq<char>>>,
) -> Seq<usize>
    decreases names.len(),
{
    if names.len() == 0 {
        seq![]
    } else {
        let before = positions_that_count(names.drop_last(), filter);
        if counts(filter, names.last()) {
            before.push((names.len() - 1) as usize)
        } else {
            before
        }
    }
}

/// `r` counts up, and holds exactly those positions whose name counts.
pub open spec fn selects(
    names: Seq<Seq<char>>,
    filter: Option<Seq<Seq<char>>>,
    r: Seq<usize>,
) -> bool {
    &&& forall|i: int, j: int| 0 <= i < j < r.len() ==> r[i] < r[j]
    &&& forall|i: int| 0 <= i < r.len() ==> #[trigger] r[i] < names.len()
    &&& forall|k: usize| k < names.len() ==> (#[trigger] r.contains(k) <==> counts(filter, names[k as int]))
}

/// The positions that a filter leaves are in order, and are those whose name counts and
/// no others.
pub proof fn filtering_is_exact(names: Seq<Seq<char>>, filter: Option<Seq<Seq<char>>>)
    requires
        names.len() <= usize::MAX,
    ensures
        selects(names, filter, positions_that_count(names, filter)),
    decreases names.len(),
{
    if names.len() > 0 {
        let i: usize = (names.len() - 1) as usize;
        filtering_is_exact(names.drop_last(), filter);
        assert(names.take(i as int) =~= names.drop_last());
        assert(names.take(i + 1) =~= names);
        lemma_selects_one_more(
            names,
            filter,
            positions_that_count(names.drop_last(), filter),
            positions_that_count(names, filter),
            i,
            counts(filter, names.last()),
        );
    }
}

/// The names of readings.
pub open spec fn reading_names(readings: Seq<Reading>) -> Seq<Seq<char>> {
    Seq::new(readings.len(), |i: int| readings[i].name@)
}

/// The names of temperatures.
pub open spec fn temperature_names(temps: Seq<SensorReadingView>) -> Seq<Seq<char>> {
    Seq::new(temps.len(), |i: int| temps[i].name)
}

/// The positions of the readings that a filter lets through.
pub fn passing(readings: &Vec<Reading>, filter: &Option<Vec<String>>) -> (r: Vec<usize>)
    ensures
        r@ == positions_that_count(reading_names(readings@), names_view(*filter)),
{
    let ghost names = reading_names(readings@);
    let ghost wanted = names_view(*filter);
    let mut out: Vec<usize> = Vec::new();
    let mut i: usize = 0;
    while i < readings.len()
        invariant
            i <= readings@.len(),
            names == reading_names(readings@),
            wanted == names_view(*filter),
            out@ == positions_that_count(names.take(i as int), wanted),
        decreases readings@.len() - i,
    {
        proof {
            assert(names.take(i + 1).drop_last() =~= names.take(i as int));
        }
        if in_scope(filter, readings[i].name.as_str()) {
            out.push(i);
        }
        i = i + 1;
    }
    assert(names.take(i as int) =~= names);
    out
}

/// One more line: it is selected if its name counts.
proof fn lemma_selects_one_more(
    names: Seq<Seq<char>>,
    filter: Option<Seq<Seq<char>>>,
    before: Seq<usize>,
    after: Seq<usize>,
    i: usize,
    hit: bool,
)
    requires
        i < names.len(),
        selects(names.take(i as int), filter, before),
        hit == counts(filter, names[i as int]),
        after == if hit {
            before.push(i)
        } else {
            before
        },
    ensures
        selects(names.take(i + 1), filter, after),
{
    let shorter = names.take(i as int);
    let longer = names.take(i + 1);
    assert forall|k: usize| k < longer.len() implies (#[trigger] after.contains(k) <==> counts(
        filter,
        longer[k as int],
    )) by {
        if k < i {
            assert(shorter[k as int] == longer[k as int]);
            assert(before.contains(k) <==> counts(filter, shorter[k as int]));
            if before.contains(k) {
                let p = choose|p: int| 0 <= p < before.len() && before[p] == k;
                assert(after[p] == k);
            }
            if after.contains(k) {
                let p = choose|p: int| 0 <= p < after.len() && after[p] == k;
                assert(before[p] == k);
            }
        } else {
            if hit {
                assert(after[before.len() as int] == i);
            } else if before.contains(i) {
                let p = choose|p: int| 0 <= p < before.len() && before[p] == i;
                assert(before[p] < shorter.len());
            }
        }
    }
    assert forall|p: int| 0 <= p < after.len() implies #[trigger] after[p] < longer.len() by {
        if p < before.len() {
            assert(before[p] < shorter.len());
        }
    }
    assert forall|p: int, q: int| 0 <= p < q < after.len() implies after[p] < after[q] by {
        if q == before.len() {
            assert(before[p] < shorter.len());
        } else {
            assert(before[p] < before[q]);
        }
    }
}

/// The positions of the temperatures that count.
pub fn scope_of(temps: &Vec<SensorReading>, allow: &Option<Vec<String>>) -> (r: Vec<usize>)
    ensures
        r@ == positions_that_count(temperature_names(temps_view(temps@)), names_view(*allow)),
{
    let ghost names = temperature_names(temps_view(temps@));
    let ghost wanted = names_view(*allow);
    let mut out: Vec<usize> = Vec::new();
    let mut i: usize = 0;
    while i < temps.len()
        invariant
            i <= temps@.len(),
            names == temperature_names(temps_view(temps@)),
            wanted == names_view(*allow),
            out@ == positions_that_count(names.take(i as int), wanted),
        decreases temps@.len() - i,
    {
        proof {
            assert(names.take(i + 1).drop_last() =~= names.take(i as int));
        }
        if in_scope(allow, temps[i].name.as_str()) {
            out.push(i);
        }
        i = i + 1;
    }
    assert(names.take(i as int) =~= names);
    out
}

/// Ninety degrees: a sensor above this temperature trips.
pub open spec fn trip_threshold() -> Binary64 {
    Binary64 { bits: 0x4056_8000_0000_0000 }
}

/// A sensor that counts and is above the threshold.
pub open spec fn trips(allow: Option<Seq<Seq<char>>>, s: SensorReadingView) -> bool {
    counts(allow, s.name) && trip_threshold().below(s.celsius)
}

/// The position of the first sensor that trips, if one does.
pub open spec fn first_trip(
    allow: Option<Seq<Seq<char>>>,
    temps: Seq<SensorReadingView>,
) -> Option<int>
    decreases temps.len(),
{
    if temps.len() == 0 {
        None
    } else {
        match first_trip(allow, temps.drop_last()) {
            Some(i) => Some(i),
            None => if trips(allow, temps.last()) {
                Some(temps.len() - 1)
            } else {
                None
            },
        }
    }
}

/// The position of the last sensor that trips, if one does.
pub open spec fn last_trip(
    allow: Option<Seq<Seq<char>>>,
    temps: Seq<SensorReadingView>,
) -> Option<int>
    decreases temps.len(),
{
    if temps.len() == 0 {
        None
    } else if trips(allow, temps.last()) {
        Some(temps.len() - 1)
    } else {
        last_trip(allow, temps.drop_last())
    }
}

/// What the first and the last trip are: a sensor that trips, with none before it, and
/// with none behind it; and there is one as soon as any sensor trips.
pub proof fn trips_are_found(allow: Option<Seq<Seq<char>>>, temps: Seq<SensorReadingView>)
    ensures
        match first_trip(allow, temps) {
            Some(i) => 0 <= i < temps.len() && trips(allow, temps[i]) && forall|k: int|
                0 <= k < i ==> !trips(allow, #[trigger] temps[k]),
            None => forall|k: int| 0 <= k < temps.len() ==> !trips(allow, #[trigger] temps[k]),
        },
        match last_trip(allow, temps) {
            Some(i) => 0 <= i < temps.len() && trips(allow, temps[i]) && forall|k: int|
                i < k < temps.len() ==> !trips(allow, #[trigger] temps[k]),
            None => forall|k: int| 0 <= k < temps.len() ==> !trips(allow, #[trigger] temps[k]),
        },
        first_trip(allow, temps) is Some <==> last_trip(allow, temps) is Some,
    decreases temps.len(),
{
    if temps.len() > 0 {
        let rest = temps.drop_last();
        trips_are_found(allow, rest);
        assert forall|k: int| 0 <= k < rest.len() implies rest[k] == temps[k] by {}
        match first_trip(allow, rest) {
            Some(i) => {
                assert(rest[i] == temps[i]);
                assert forall|k: int| 0 <= k < i implies !trips(allow, #[trigger] temps[k]) by {
                    assert(rest[k] == temps[k]);
                }
            },
            None => {
                assert forall|k: int| 0 <= k < rest.len() implies !trips(
                    allow,
                    #[trigger] temps[k],
                ) by {
                    assert(rest[k] == temps[k]);
                }
            },
        }
        match last_trip(allow, rest) {
            Some(i) => {
                assert(rest[i] == temps[i]);
                assert forall|k: int| i < k < rest.len() implies !trips(
                    allow,
                    #[trigger] temps[k],
                ) by {
                    assert(rest[k] == temps[k]);
                }
            },
            None => {
                assert forall|k: int| 0 <= k < rest.len() implies !trips(
                    allow,
                    #[trigger] temps[k],
                ) by {
                    assert(rest[k] == temps[k]);
                }
            },
        }
    }
}

/// Looks for a sensor that trips: the first one, or the last one if so asked.
pub fn find_trip(temps: &Vec<SensorReading>, allow: &Option<Vec<String>>, want_last: bool) -> (r:
    Option<usize>)
    ensures
        match r {
            Some(i) => i < temps@.len() && Some(i as int) == if want_last {
                last_trip(names_view(*allow), temps_view(temps@))
            } else {
                first_trip(names_view(*allow), temps_view(temps@))
            },
            None => if want_last {
                last_trip(names_view(*allow), temps_view(temps@)) is None
            } else {
                first_trip(names_view(*allow), temps_view(temps@)) is None
            },
        },
{
    let ghost all = temps_view(temps@);
    let ghost wanted = names_view(*allow);
    let mut first: Option<usize> = None;
    let mut last: Option<usize> = None;
    let threshold = Binary64 { bits: 0x4056_8000_0000_0000 };
    let mut i: usize = 0;
    while i < temps.len()
        invariant
            i <= temps@.len(),
            all == temps_view(temps@),
            wanted == names_view(*allow),
            threshold == trip_threshold(),
            match first {
                Some(k) => k < i && first_trip(wanted, all.take(i as int)) == Some(k as int),
                None => first_trip(wanted, all.take(i as int)) is None,
            },
            match last {
                Some(k) => k < i && last_trip(wanted, all.take(i as int)) == Some(k as int),
                None => last_trip(wanted, all.take(i as int)) is None,
            },
        decreases temps@.len() - i,
    {
        let s = &temps[i];
        proof {
            assert(all.take(i + 1).drop_last() =~= all.take(i as int));
            assert(all.take(i + 1).last() == s@);
        }
        if in_scope(allow, s.name.as_str()) && threshold.lt(&s.celsius) {
            if first.is_none() {
                first = Some(i);
            }
            last = Some(i);
        }
        i = i + 1;
    }
    assert(all.take(i as int) =~= all);
    if want_last {
        last
    } else {
        first
    }
}

/// Below every number.
pub open spec fn minus_infinity() -> Binary64 {
    Binary64 { bits: 0xfff0_0000_0000_0000 }
}

/// The largest of the values, taken up one after the other; below every number where
/// there is none.
pub open spec fn hottest_of(values: Seq<Binary64>) -> Binary64
    decreases values.len(),
{
    if values.len() == 0 {
        minus_infinity()
    } else {
        let m = hottest_of(values.drop_last());
        if m.below(values.last()) {
            values.last()
        } else {
            m
        }
    }
}

/// The largest of the values.
pub fn hottest(values: &Vec<Binary64>) -> (r: Binary64)
    ensures
        r == hottest_of(values@),
{
    let mut m = Binary64 { bits: 0xfff0_0000_0000_0000 };
    let mut i: usize = 0;
    while i < values.len()
        invariant
            i <= values@.len(),
            m == hottest_of(values@.take(i as int)),
        decreases values@.len() - i,
    {
        proof {
            assert(values@.take(i + 1).drop_last() =~= values@.take(i as int));
        }
        if m.lt(&values[i]) {
            m = values[i];
        }
        i = i + 1;
    }
    assert(values@.take(i as int) =~= values@);
    m
}

/// The largest value is no NaN, no value is above it, and it is one of them unless it
/// is below every number.
pub proof fn hottest_is_largest(values: Seq<Binary64>)
    ensures
        !hottest_of(values).nan(),
        forall|i: int| 0 <= i < values.len() ==> !hottest_of(values).below(#[trigger] values[i]),
        hottest_of(values) == minus_infinity() || values.contains(hottest_of(values)),
    decreases values.len(),
{
    if values.len() > 0 {
        let rest = values.drop_last();
        hottest_is_largest(rest);
        let m = hottest_of(rest);
        assert forall|i: int| 0 <= i < values.len() implies !hottest_of(values).below(
            #[trigger] values[i],
        ) by {
            if i < rest.len() {
                assert(values[i] == rest[i]);
            }
        }
        if m.below(values.last()) {
            assert(values[values.len() - 1] == values.last());
        } else if m != minus_infinity() {
            let k = choose|k: int| 0 <= k < rest.len() && rest[k] == m;
            assert(values[k] == m);
        }
    }
}

} // verus!
