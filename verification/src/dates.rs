//! Dates in an XML property list that lie beyond the calendar.
//!
//! Years go up to 9999. A date on the last day of that year whose negative offset carries
//! it past midnight lies in the year after, in universal time, and must not get as far as
//! a reader that counts in it. The bytes are cut here into tags, texts and references just
//! as that reader cuts them, so that only an element `date` with such a text is found, and
//! not what merely looks like one: inside a comment, a quoted attribute or a longer name.
use vstd::prelude::*;

verus! {

pub const LESS_THAN: u8 = 0x3c;

pub const GREATER_THAN: u8 = 0x3e;

pub const AMPERSAND: u8 = 0x26;

pub const SEMICOLON: u8 = 0x3b;

pub const SLASH: u8 = 0x2f;

pub const COLON: u8 = 0x3a;

pub const HYPHEN: u8 = 0x2d;

pub const DOT: u8 = 0x2e;

pub const HASH: u8 = 0x23;

pub const QUESTION_MARK: u8 = 0x3f;

pub const EXCLAMATION_MARK: u8 = 0x21;

pub const OPENING_BRACKET: u8 = 0x5b;

pub const CLOSING_BRACKET: u8 = 0x5d;

pub const DOUBLE_QUOTE: u8 = 0x22;

pub const SINGLE_QUOTE: u8 = 0x27;

pub const LOWER_X: u8 = 0x78;

/// The bytes of `<!--`.
pub open spec fn comment_open() -> Seq<u8> {
    seq![0x3cu8, 0x21u8, 0x2du8, 0x2du8]
}

/// The bytes of `<![CDATA[`.
pub open spec fn cdata_open() -> Seq<u8> {
    seq![0x3cu8, 0x21u8, 0x5bu8, 0x43u8, 0x44u8, 0x41u8, 0x54u8, 0x41u8, 0x5bu8]
}

/// The bytes of `doctype`.
pub open spec fn doctype_letters() -> Seq<u8> {
    seq![0x64u8, 0x6fu8, 0x63u8, 0x74u8, 0x79u8, 0x70u8, 0x65u8]
}

/// The bytes of `!--`.
pub open spec fn subset_comment() -> Seq<u8> {
    seq![0x21u8, 0x2du8, 0x2du8]
}

/// The bytes of `!ELEMENT`.
pub open spec fn element_word() -> Seq<u8> {
    seq![0x21u8, 0x45u8, 0x4cu8, 0x45u8, 0x4du8, 0x45u8, 0x4eu8, 0x54u8]
}

/// The bytes of `!ENTITY`.
pub open spec fn entity_word() -> Seq<u8> {
    seq![0x21u8, 0x45u8, 0x4eu8, 0x54u8, 0x49u8, 0x54u8, 0x59u8]
}

/// The bytes of `!ATTLIST`.
pub open spec fn attlist_word() -> Seq<u8> {
    seq![0x21u8, 0x41u8, 0x54u8, 0x54u8, 0x4cu8, 0x49u8, 0x53u8, 0x54u8]
}

/// The bytes of `!NOTATION`.
pub open spec fn notation_word() -> Seq<u8> {
    seq![0x21u8, 0x4eu8, 0x4fu8, 0x54u8, 0x41u8, 0x54u8, 0x49u8, 0x4fu8, 0x4eu8]
}

/// The bytes of `bplist00`.
pub open spec fn binary_mark() -> Seq<u8> {
    seq![0x62u8, 0x70u8, 0x6cu8, 0x69u8, 0x73u8, 0x74u8, 0x30u8, 0x30u8]
}

/// The bytes of `9999-12-31`.
pub open spec fn last_day() -> Seq<u8> {
    seq![0x39u8, 0x39u8, 0x39u8, 0x39u8, 0x2du8, 0x31u8, 0x32u8, 0x2du8, 0x33u8, 0x31u8]
}

/// The bytes of `plist`.
pub open spec fn plist_word() -> Seq<u8> {
    seq![0x70u8, 0x6cu8, 0x69u8, 0x73u8, 0x74u8]
}

/// The bytes of `array`.
pub open spec fn array_word() -> Seq<u8> {
    seq![0x61u8, 0x72u8, 0x72u8, 0x61u8, 0x79u8]
}

/// The bytes of `dict`.
pub open spec fn dict_word() -> Seq<u8> {
    seq![0x64u8, 0x69u8, 0x63u8, 0x74u8]
}

/// The bytes of `true`.
pub open spec fn true_word() -> Seq<u8> {
    seq![0x74u8, 0x72u8, 0x75u8, 0x65u8]
}

/// The bytes of `false`.
pub open spec fn false_word() -> Seq<u8> {
    seq![0x66u8, 0x61u8, 0x6cu8, 0x73u8, 0x65u8]
}

/// The bytes of `key`.
pub open spec fn key_word() -> Seq<u8> {
    seq![0x6bu8, 0x65u8, 0x79u8]
}

/// The bytes of `data`.
pub open spec fn data_word() -> Seq<u8> {
    seq![0x64u8, 0x61u8, 0x74u8, 0x61u8]
}

/// The bytes of `date`.
pub open spec fn date_word() -> Seq<u8> {
    seq![0x64u8, 0x61u8, 0x74u8, 0x65u8]
}

/// The bytes of `integer`.
pub open spec fn integer_word() -> Seq<u8> {
    seq![0x69u8, 0x6eu8, 0x74u8, 0x65u8, 0x67u8, 0x65u8, 0x72u8]
}

/// The bytes of `real`.
pub open spec fn real_word() -> Seq<u8> {
    seq![0x72u8, 0x65u8, 0x61u8, 0x6cu8]
}

/// The bytes of `string`.
pub open spec fn string_word() -> Seq<u8> {
    seq![0x73u8, 0x74u8, 0x72u8, 0x69u8, 0x6eu8, 0x67u8]
}

/// The bytes of `lt`.
pub open spec fn lt_word() -> Seq<u8> {
    seq![0x6cu8, 0x74u8]
}

/// The bytes of `gt`.
pub open spec fn gt_word() -> Seq<u8> {
    seq![0x67u8, 0x74u8]
}

/// The bytes of `amp`.
pub open spec fn amp_word() -> Seq<u8> {
    seq![0x61u8, 0x6du8, 0x70u8]
}

/// The bytes of `apos`.
pub open spec fn apos_word() -> Seq<u8> {
    seq![0x61u8, 0x70u8, 0x6fu8, 0x73u8]
}

/// The bytes of `quot`.
pub open spec fn quot_word() -> Seq<u8> {
    seq![0x71u8, 0x75u8, 0x6fu8, 0x74u8]
}

/// The bytes from `i` on are those of a word.
pub open spec fn word_at(b: Seq<u8>, i: int, word: Seq<u8>) -> bool {
    &&& 0 <= i
    &&& i + word.len() <= b.len()
    &&& forall|k: int| 0 <= k < word.len() ==> #[trigger] b[i + k] == word[k]
}

/// The bytes from `i` on and before `end` are those of a word.
pub open spec fn named(b: Seq<u8>, i: int, end: int, word: Seq<u8>) -> bool {
    end - i == word.len() && word_at(b, i, word)
}

/// The bytes from `i` on are those of a word in small letters, or its capitals.
pub open spec fn letters_at(b: Seq<u8>, i: int, word: Seq<u8>) -> bool {
    &&& 0 <= i
    &&& i + word.len() <= b.len()
    &&& forall|k: int|
        0 <= k < word.len() ==> (#[trigger] b[i + k] == word[k] || b[i + k] + 0x20 == word[k])
}

/// White space in markup.
pub open spec fn is_blank(c: u8) -> bool {
    c == 0x20 || c == 0x0d || c == 0x0a || c == 0x09
}

/// What may be white space in a text: its ASCII characters, and all that is not ASCII.
pub open spec fn may_be_space(c: u8) -> bool {
    c == 0x20 || 0x09 <= c <= 0x0d || c >= 0x80
}

/// The first place of a byte from `i` on; the end of all bytes where there is none.
pub open spec fn first_of(b: Seq<u8>, i: int, c: u8) -> int
    decreases b.len() - i,
{
    if i >= b.len() {
        b.len() as int
    } else if b[i] == c {
        i
    } else {
        first_of(b, i + 1, c)
    }
}

/// The first `>` from `i` on with the byte `c` before it.
pub open spec fn first_after_one(b: Seq<u8>, i: int, c: u8) -> int
    decreases b.len() - i,
{
    if i >= b.len() {
        b.len() as int
    } else if b[i] == GREATER_THAN && b[i - 1] == c {
        i
    } else {
        first_after_one(b, i + 1, c)
    }
}

/// The first `>` from `i` on with the byte `c` twice before it.
pub open spec fn first_after_two(b: Seq<u8>, i: int, c: u8) -> int
    decreases b.len() - i,
{
    if i >= b.len() {
        b.len() as int
    } else if b[i] == GREATER_THAN && b[i - 1] == c && b[i - 2] == c {
        i
    } else {
        first_after_two(b, i + 1, c)
    }
}

/// The first `>` from `i` on that is not inside quotes, where `quote` is the quote that is
/// open at `i`, or zero.
pub open spec fn tag_end(b: Seq<u8>, i: int, quote: u8) -> int
    decreases b.len() - i,
{
    if i >= b.len() {
        b.len() as int
    } else if quote != 0 {
        tag_end(
            b,
            i + 1,
            if b[i] == quote {
                0
            } else {
                quote
            },
        )
    } else if b[i] == GREATER_THAN {
        i
    } else if b[i] == DOUBLE_QUOTE || b[i] == SINGLE_QUOTE {
        tag_end(b, i + 1, b[i])
    } else {
        tag_end(b, i + 1, 0)
    }
}

/// Where to go on behind the byte at `end`, coming from `i`: at the end of all bytes where
/// there is none.
pub open spec fn behind(b: Seq<u8>, i: int, end: int) -> int {
    if i <= end < b.len() {
        end + 1
    } else {
        b.len() as int
    }
}

/// The end of a declaration inside a document type, from behind its `<`.
pub open spec fn declaration_end(b: Seq<u8>, i: int) -> int {
    if i < b.len() && b[i] == QUESTION_MARK {
        first_after_one(b, i + 2, QUESTION_MARK)
    } else if word_at(b, i, subset_comment()) {
        first_after_two(b, i + 5, HYPHEN)
    } else if word_at(b, i, element_word()) {
        first_of(b, i + 8, GREATER_THAN)
    } else if word_at(b, i, entity_word()) {
        tag_end(b, i + 7, 0)
    } else if word_at(b, i, attlist_word()) {
        tag_end(b, i + 8, 0)
    } else if word_at(b, i, notation_word()) {
        tag_end(b, i + 9, 0)
    } else {
        first_of(b, i, GREATER_THAN)
    }
}

/// The end of a document type: before its declarations quotes hide what is in them,
/// `inside` them each one is passed over, and behind them the next `>` is the end.
pub open spec fn doctype_end(b: Seq<u8>, i: int, inside: bool, quote: u8) -> int
    decreases b.len() - i,
{
    if i >= b.len() {
        b.len() as int
    } else if inside {
        if b[i] == CLOSING_BRACKET {
            first_of(b, i + 1, GREATER_THAN)
        } else if b[i] == LESS_THAN {
            doctype_end(b, behind(b, i, declaration_end(b, i + 1)), true, 0)
        } else {
            doctype_end(b, i + 1, true, 0)
        }
    } else if quote != 0 {
        doctype_end(
            b,
            i + 1,
            false,
            if b[i] == quote {
                0
            } else {
                quote
            },
        )
    } else if b[i] == GREATER_THAN {
        i
    } else if b[i] == OPENING_BRACKET {
        doctype_end(b, i + 1, true, 0)
    } else if b[i] == DOUBLE_QUOTE || b[i] == SINGLE_QUOTE {
        doctype_end(b, i + 1, false, b[i])
    } else {
        doctype_end(b, i + 1, false, 0)
    }
}

/// A piece of markup.
#[derive(Debug, Clone, Copy, PartialEq, Eq, Structural)]
pub enum Markup {
    /// None that can be read.
    Broken,
    /// One that says nothing: a comment, an instruction, the document type and the like.
    Skip { end: usize },
    /// A tag that closes an element.
    Close { end: usize },
    /// A tag that opens an element, with the place of its name.
    Open { from: usize, to: usize, end: usize, empty: bool },
}

/// Where the name that starts at `i` ends, at `end` at the latest.
pub open spec fn name_end(b: Seq<u8>, i: int, end: int) -> int
    decreases end - i,
{
    if i >= end || is_blank(b[i]) {
        i
    } else {
        name_end(b, i + 1, end)
    }
}

/// Where the local part of a name starts: behind its first colon.
pub open spec fn local_from(b: Seq<u8>, from: int, to: int) -> int {
    let colon = first_of(b, from, COLON);
    if colon < to {
        colon + 1
    } else {
        from
    }
}

/// A piece of markup that ends at `g`, if that is a place.
pub open spec fn skipped_to(b: Seq<u8>, g: int) -> Markup {
    if g < b.len() {
        Markup::Skip { end: (g + 1) as usize }
    } else {
        Markup::Broken
    }
}

/// The markup at the `<` at `p`.
pub open spec fn markup_at(b: Seq<u8>, p: int) -> Markup {
    if p + 1 >= b.len() {
        Markup::Broken
    } else if b[p + 1] == EXCLAMATION_MARK {
        if word_at(b, p, comment_open()) {
            skipped_to(b, first_after_two(b, p + 6, HYPHEN))
        } else if word_at(b, p, cdata_open()) {
            skipped_to(b, first_after_two(b, p + 9, CLOSING_BRACKET))
        } else if letters_at(b, p + 2, doctype_letters()) {
            skipped_to(b, doctype_end(b, p + 9, false, 0))
        } else {
            Markup::Broken
        }
    } else if b[p + 1] == QUESTION_MARK {
        if p + 2 < b.len() && b[p + 2] == GREATER_THAN {
            Markup::Broken
        } else {
            skipped_to(b, first_after_one(b, p + 3, QUESTION_MARK))
        }
    } else {
        let g = tag_end(b, p + 1, 0);
        if g >= b.len() {
            Markup::Broken
        } else if b[p + 1] == SLASH {
            Markup::Close { end: (g + 1) as usize }
        } else {
            let empty = g > p + 1 && b[g - 1] == SLASH;
            let inner = if empty {
                g - 1
            } else {
                g
            };
            Markup::Open {
                from: (p + 1) as usize,
                to: name_end(b, p + 1, inner) as usize,
                end: (g + 1) as usize,
                empty,
            }
        }
    }
}

/// An element that holds a text.
pub open spec fn holds_text(b: Seq<u8>, from: int, to: int) -> bool {
    ||| named(b, from, to, key_word())
    ||| named(b, from, to, data_word())
    ||| named(b, from, to, date_word())
    ||| named(b, from, to, integer_word())
    ||| named(b, from, to, real_word())
    ||| named(b, from, to, string_word())
}

/// An element that holds other elements, or nothing.
pub open spec fn holds_no_text(b: Seq<u8>, from: int, to: int) -> bool {
    ||| named(b, from, to, plist_word())
    ||| named(b, from, to, array_word())
    ||| named(b, from, to, dict_word())
    ||| named(b, from, to, true_word())
    ||| named(b, from, to, false_word())
}

/// What a reference stands for.
#[derive(Debug, Clone, Copy, PartialEq, Eq, Structural)]
pub enum Referred {
    /// For no character at all: it cannot be read.
    Bad,
    /// For nothing: its name is not known.
    Nothing,
    Ascii(u8),
    /// For a character that is not ASCII.
    Wide,
}

/// The value of a digit in the given base.
pub open spec fn digit_of(c: u8, base: nat) -> Option<nat> {
    if 0x30 <= c <= 0x39 {
        Some((c - 0x30) as nat)
    } else if base == 16 && 0x61 <= c <= 0x66 {
        Some((c - 0x61 + 10) as nat)
    } else if base == 16 && 0x41 <= c <= 0x46 {
        Some((c - 0x41 + 10) as nat)
    } else {
        None
    }
}

/// The number that the digits from `i` on and before `end` spell.
pub open spec fn number_of(b: Seq<u8>, i: int, end: int, base: nat) -> Option<nat>
    decreases end - i,
{
    if i >= end {
        Some(0)
    } else {
        match (number_of(b, i, end - 1, base), digit_of(b[end - 1], base)) {
            (Some(n), Some(d)) => Some(n * base + d),
            _ => None,
        }
    }
}

/// The character that a number stands for.
pub open spec fn referred_number(b: Seq<u8>, i: int, end: int, base: nat) -> Referred {
    if i >= end {
        Referred::Bad
    } else {
        match number_of(b, i, end, base) {
            None => Referred::Bad,
            Some(n) => if n == 0 {
                Referred::Bad
            } else if n < 0x80 {
                Referred::Ascii(n as u8)
            } else {
                Referred::Wide
            },
        }
    }
}

/// What a reference stands for whose inner part starts at `i` and ends before `end`.
pub open spec fn referred(b: Seq<u8>, i: int, end: int) -> Referred {
    if i < end && b[i] == HASH {
        if i + 1 < end && b[i + 1] == LOWER_X {
            referred_number(b, i + 2, end, 16)
        } else {
            referred_number(b, i + 1, end, 10)
        }
    } else if named(b, i, end, lt_word()) {
        Referred::Ascii(LESS_THAN)
    } else if named(b, i, end, gt_word()) {
        Referred::Ascii(GREATER_THAN)
    } else if named(b, i, end, amp_word()) {
        Referred::Ascii(AMPERSAND)
    } else if named(b, i, end, apos_word()) {
        Referred::Ascii(SINGLE_QUOTE)
    } else if named(b, i, end, quot_word()) {
        Referred::Ascii(DOUBLE_QUOTE)
    } else {
        Referred::Nothing
    }
}

/// Where the inner part of a reference that starts at `i` ends.
pub open spec fn reference_end(b: Seq<u8>, i: int) -> int
    decreases b.len() - i,
{
    if i >= b.len() {
        b.len() as int
    } else if b[i] == SEMICOLON || b[i] == AMPERSAND || b[i] == LESS_THAN {
        i
    } else {
        reference_end(b, i + 1)
    }
}

/// What the reference at the `&` at `p` stands for.
pub open spec fn reference_at(b: Seq<u8>, p: int) -> Referred {
    let end = reference_end(b, p + 1);
    if end < b.len() && b[end] == SEMICOLON {
        referred(b, p + 1, end)
    } else {
        Referred::Bad
    }
}

/// A byte that is in no text of ASCII characters.
pub const WIDE_BYTE: u8 = 0xff;

/// A text with a byte before it.
pub open spec fn with_byte(c: u8, rest: Option<(Seq<u8>, int)>) -> Option<(Seq<u8>, int)> {
    match rest {
        Some((text, end)) => Some((seq![c] + text, end)),
        None => None,
    }
}

/// The text of an element from `i` on, with its references resolved, and where its closing
/// tag ends; none where another element opens inside or the text cannot be read.
pub open spec fn element_text(b: Seq<u8>, i: int) -> Option<(Seq<u8>, int)>
    decreases b.len() - i,
{
    if i >= b.len() {
        None
    } else if b[i] == LESS_THAN {
        match markup_at(b, i) {
            Markup::Close { end } => Some((seq![], end as int)),
            Markup::Skip { end } => element_text(b, behind(b, i, end - 1)),
            _ => None,
        }
    } else if b[i] == AMPERSAND {
        let rest = element_text(b, behind(b, i, reference_end(b, i + 1)));
        match reference_at(b, i) {
            Referred::Bad => None,
            Referred::Nothing => rest,
            Referred::Ascii(c) => with_byte(c, rest),
            Referred::Wide => with_byte(WIDE_BYTE, rest),
        }
    } else {
        with_byte(b[i], element_text(b, i + 1))
    }
}

/// A decimal digit.
pub open spec fn is_digit(c: u8) -> bool {
    0x30 <= c <= 0x39
}

/// The number that two decimal digits spell.
pub open spec fn two_digits(t: Seq<u8>, i: int) -> int {
    10 * (t[i] - 0x30) + (t[i + 1] - 0x30)
}

/// Two decimal digits, a colon and two decimal digits.
pub open spec fn is_clock(t: Seq<u8>, i: int) -> bool {
    &&& is_digit(t[i])
    &&& is_digit(t[i + 1])
    &&& t[i + 2] == COLON
    &&& is_digit(t[i + 3])
    &&& is_digit(t[i + 4])
}

/// The minutes of hours and minutes.
pub open spec fn clock_minutes(t: Seq<u8>, i: int) -> int {
    60 * two_digits(t, i) + two_digits(t, i + 3)
}

/// Where the decimal digits from `i` on end.
pub open spec fn digits_end(t: Seq<u8>, i: int) -> int
    decreases t.len() - i,
{
    if i >= t.len() || !is_digit(t[i]) {
        i
    } else {
        digits_end(t, i + 1)
    }
}

/// Where the offset of a time starts: behind the seconds and their fraction.
pub open spec fn offset_from(t: Seq<u8>) -> int {
    if t[19] == DOT {
        digits_end(t, 20)
    } else {
        19
    }
}

/// A date on the last day whose negative offset carries it past midnight: `9999-12-31`,
/// any separator, hours, minutes and seconds, then a minus and the offset.
pub open spec fn is_late(t: Seq<u8>) -> bool {
    &&& t.len() >= 25
    &&& word_at(t, 0, last_day())
    &&& t[10] < 0x80
    &&& is_clock(t, 11)
    &&& t[16] == COLON
    &&& is_digit(t[17])
    &&& is_digit(t[18])
    &&& t[19] == DOT ==> offset_from(t) > 20
    &&& t.len() == offset_from(t) + 6
    &&& t[offset_from(t)] == HYPHEN
    &&& is_clock(t, offset_from(t) + 1)
    &&& clock_minutes(t, 11) + clock_minutes(t, offset_from(t) + 1) >= 24 * 60
}

/// A reference between elements may stand for white space.
pub open spec fn is_space_reference(r: Referred) -> bool {
    match r {
        Referred::Ascii(c) => may_be_space(c),
        Referred::Wide => true,
        _ => false,
    }
}

/// An element `date` from `i` on, outside of any text, lies beyond the calendar. What
/// cannot be read ends the search.
pub open spec fn late_from(b: Seq<u8>, i: int) -> bool
    decreases b.len() - i,
{
    if i >= b.len() {
        false
    } else if b[i] == LESS_THAN {
        match markup_at(b, i) {
            Markup::Broken => false,
            Markup::Skip { end } => late_from(b, behind(b, i, end - 1)),
            Markup::Close { end } => late_from(b, behind(b, i, end - 1)),
            Markup::Open { from, to, end, empty } => {
                let local = local_from(b, from as int, to as int);
                if holds_text(b, local, to as int) && !empty {
                    match element_text(b, end as int) {
                        None => false,
                        Some((text, after)) => (named(b, local, to as int, date_word()) && is_late(
                            text,
                        )) || late_from(b, behind(b, i, after - 1)),
                    }
                } else if holds_text(b, local, to as int) || holds_no_text(b, local, to as int) {
                    late_from(b, behind(b, i, end - 1))
                } else {
                    false
                }
            },
        }
    } else if b[i] == AMPERSAND {
        is_space_reference(reference_at(b, i)) && late_from(
            b,
            behind(b, i, reference_end(b, i + 1)),
        )
    } else {
        may_be_space(b[i]) && late_from(b, i + 1)
    }
}

/// The bytes are an XML property list with a date beyond the calendar.
pub open spec fn has_late_date(b: Seq<u8>) -> bool {
    !word_at(b, 0, binary_mark()) && late_from(b, 0)
}

fn is_word(b: &Vec<u8>, i: usize, word: &[u8]) -> (r: bool)
    ensures
        r == word_at(b@, i as int, word@),
{
    if i > b.len() || b.len() - i < word.len() {
        return false;
    }
    let mut k: usize = 0;
    while k < word.len()
        invariant
            k <= word@.len(),
            i + word@.len() <= b.len(),
            forall|j: int| 0 <= j < k ==> #[trigger] b@[i + j] == word@[j],
        decreases word@.len() - k,
    {
        if b[i + k] != word[k] {
            assert(b@[i + k] != word@[k as int]);
            return false;
        }
        k = k + 1;
    }
    true
}

fn is_named(b: &Vec<u8>, i: usize, end: usize, word: &[u8]) -> (r: bool)
    requires
        i <= end,
    ensures
        r == named(b@, i as int, end as int, word@),
{
    end - i == word.len() && is_word(b, i, word)
}

fn find_first_of(b: &Vec<u8>, i: usize, c: u8) -> (r: usize)
    ensures
        r == first_of(b@, i as int, c),
        r <= b@.len(),
        i <= b@.len() ==> i <= r,
{
    let mut k: usize = i;
    while k < b.len()
        invariant
            i <= k,
            i <= b@.len() ==> k <= b@.len(),
            first_of(b@, i as int, c) == first_of(b@, k as int, c),
        decreases b@.len() - k,
    {
        if b[k] == c {
            return k;
        }
        k = k + 1;
    }
    b.len()
}

fn find_after_one(b: &Vec<u8>, i: usize, c: u8) -> (r: usize)
    requires
        i >= 1,
    ensures
        r == first_after_one(b@, i as int, c),
        r <= b@.len(),
        i <= b@.len() ==> i <= r,
{
    let mut k: usize = i;
    while k < b.len()
        invariant
            1 <= i <= k,
            i <= b@.len() ==> k <= b@.len(),
            first_after_one(b@, i as int, c) == first_after_one(b@, k as int, c),
        decreases b@.len() - k,
    {
        if b[k] == GREATER_THAN && b[k - 1] == c {
            return k;
        }
        k = k + 1;
    }
    b.len()
}

fn find_after_two(b: &Vec<u8>, i: usize, c: u8) -> (r: usize)
    requires
        i >= 2,
    ensures
        r == first_after_two(b@, i as int, c),
        r <= b@.len(),
        i <= b@.len() ==> i <= r,
{
    let mut k: usize = i;
    while k < b.len()
        invariant
            2 <= i <= k,
            i <= b@.len() ==> k <= b@.len(),
            first_after_two(b@, i as int, c) == first_after_two(b@, k as int, c),
        decreases b@.len() - k,
    {
        if b[k] == GREATER_THAN && b[k - 1] == c && b[k - 2] == c {
            return k;
        }
        k = k + 1;
    }
    b.len()
}

fn find_tag_end(b: &Vec<u8>, i: usize) -> (r: usize)
    ensures
        r == tag_end(b@, i as int, 0),
        r <= b@.len(),
        i <= b@.len() ==> i <= r,
{
    let mut k: usize = i;
    let mut quote: u8 = 0;
    while k < b.len()
        invariant
            i <= k,
            i <= b@.len() ==> k <= b@.len(),
            tag_end(b@, i as int, 0) == tag_end(b@, k as int, quote),
        decreases b@.len() - k,
    {
        let c: u8 = b[k];
        if quote != 0 {
            if c == quote {
                quote = 0;
            }
        } else if c == GREATER_THAN {
            return k;
        } else if c == DOUBLE_QUOTE || c == SINGLE_QUOTE {
            quote = c;
        }
        k = k + 1;
    }
    b.len()
}

fn find_declaration_end(b: &Vec<u8>, i: usize) -> (r: usize)
    requires
        i <= b@.len(),
    ensures
        r == declaration_end(b@, i as int),
        i <= r <= b@.len(),
{
    if i < b.len() && b[i] == QUESTION_MARK {
        if b.len() - i < 2 {
            return b.len();
        }
        return find_after_one(b, i + 2, QUESTION_MARK);
    }
    let comment: [u8; 3] = [0x21, 0x2d, 0x2d];
    let element: [u8; 8] = [0x21, 0x45, 0x4c, 0x45, 0x4d, 0x45, 0x4e, 0x54];
    let entity: [u8; 7] = [0x21, 0x45, 0x4e, 0x54, 0x49, 0x54, 0x59];
    let attlist: [u8; 8] = [0x21, 0x41, 0x54, 0x54, 0x4c, 0x49, 0x53, 0x54];
    let notation: [u8; 9] = [0x21, 0x4e, 0x4f, 0x54, 0x41, 0x54, 0x49, 0x4f, 0x4e];
    proof {
        assert(comment@ =~= subset_comment());
        assert(element@ =~= element_word());
        assert(entity@ =~= entity_word());
        assert(attlist@ =~= attlist_word());
        assert(notation@ =~= notation_word());
    }
    if is_word(b, i, &comment) {
        if b.len() - i < 5 {
            return b.len();
        }
        return find_after_two(b, i + 5, HYPHEN);
    }
    if is_word(b, i, &element) {
        return find_first_of(b, i + 8, GREATER_THAN);
    }
    if is_word(b, i, &entity) {
        return find_tag_end(b, i + 7);
    }
    if is_word(b, i, &attlist) {
        return find_tag_end(b, i + 8);
    }
    if is_word(b, i, &notation) {
        return find_tag_end(b, i + 9);
    }
    find_first_of(b, i, GREATER_THAN)
}

fn find_doctype_end(b: &Vec<u8>, i: usize) -> (r: usize)
    requires
        i <= b@.len(),
    ensures
        r == doctype_end(b@, i as int, false, 0),
        i <= r <= b@.len(),
{
    let mut k: usize = i;
    let mut inside: bool = false;
    let mut quote: u8 = 0;
    while k < b.len()
        invariant
            i <= k <= b@.len(),
            doctype_end(b@, i as int, false, 0) == doctype_end(b@, k as int, inside, quote),
        decreases b@.len() - k,
    {
        let c: u8 = b[k];
        if inside {
            if c == CLOSING_BRACKET {
                return find_first_of(b, k + 1, GREATER_THAN);
            }
            if c == LESS_THAN {
                let end: usize = find_declaration_end(b, k + 1);
                quote = 0;
                k = if end < b.len() {
                    end + 1
                } else {
                    b.len()
                };
            } else {
                quote = 0;
                k = k + 1;
            }
        } else if quote != 0 {
            if c == quote {
                quote = 0;
            }
            k = k + 1;
        } else if c == GREATER_THAN {
            return k;
        } else if c == OPENING_BRACKET {
            inside = true;
            k = k + 1;
        } else {
            if c == DOUBLE_QUOTE || c == SINGLE_QUOTE {
                quote = c;
            }
            k = k + 1;
        }
    }
    b.len()
}

fn find_name_end(b: &Vec<u8>, i: usize, end: usize) -> (r: usize)
    requires
        i <= end <= b@.len(),
    ensures
        r == name_end(b@, i as int, end as int),
        i <= r <= end,
{
    let mut k: usize = i;
    while k < end && !(b[k] == 0x20 || b[k] == 0x0d || b[k] == 0x0a || b[k] == 0x09)
        invariant
            i <= k <= end <= b@.len(),
            name_end(b@, i as int, end as int) == name_end(b@, k as int, end as int),
        decreases end - k,
    {
        k = k + 1;
    }
    k
}

fn is_doctype(b: &Vec<u8>, i: usize) -> (r: bool)
    ensures
        r == letters_at(b@, i as int, doctype_letters()),
{
    let word: [u8; 7] = [0x64, 0x6f, 0x63, 0x74, 0x79, 0x70, 0x65];
    assert(word@ =~= doctype_letters());
    if i > b.len() || b.len() - i < 7 {
        return false;
    }
    let mut k: usize = 0;
    while k < 7
        invariant
            k <= 7,
            word@ == doctype_letters(),
            i + 7 <= b.len(),
            forall|j: int|
                0 <= j < k ==> (#[trigger] b@[i + j] == word@[j] || b@[i + j] + 0x20 == word@[j]),
        decreases 7 - k,
    {
        let c: u8 = b[i + k];
        if !(c == word[k] || c == word[k] - 0x20) {
            assert(!(b@[i + k] == word@[k as int] || b@[i + k] + 0x20 == word@[k as int]));
            return false;
        }
        k = k + 1;
    }
    true
}

fn skip_to(b: &Vec<u8>, g: usize) -> (r: Markup)
    requires
        g <= b@.len(),
    ensures
        r == skipped_to(b@, g as int),
        r matches Markup::Skip { end } ==> end == g + 1 && end <= b@.len(),
{
    if g < b.len() {
        Markup::Skip { end: g + 1 }
    } else {
        Markup::Broken
    }
}

fn read_markup(b: &Vec<u8>, p: usize) -> (r: Markup)
    requires
        p < b@.len(),
        b@[p as int] == LESS_THAN,
    ensures
        r == markup_at(b@, p as int),
        match r {
            Markup::Broken => true,
            Markup::Skip { end } => p < end <= b@.len(),
            Markup::Close { end } => p < end <= b@.len(),
            Markup::Open { from, to, end, empty } => p < from <= to < end <= b@.len(),
        },
{
    if b.len() - p < 2 {
        return Markup::Broken;
    }
    let next: u8 = b[p + 1];
    if next == EXCLAMATION_MARK {
        let comment: [u8; 4] = [0x3c, 0x21, 0x2d, 0x2d];
        let cdata: [u8; 9] = [0x3c, 0x21, 0x5b, 0x43, 0x44, 0x41, 0x54, 0x41, 0x5b];
        assert(comment@ =~= comment_open());
        assert(cdata@ =~= cdata_open());
        if is_word(b, p, &comment) {
            if b.len() - p < 6 {
                proof {
                    assert(first_after_two(b@, p + 6, HYPHEN) == b@.len());
                }
                return Markup::Broken;
            }
            return skip_to(b, find_after_two(b, p + 6, HYPHEN));
        }
        if is_word(b, p, &cdata) {
            return skip_to(b, find_after_two(b, p + 9, CLOSING_BRACKET));
        }
        if is_doctype(b, p + 2) {
            return skip_to(b, find_doctype_end(b, p + 9));
        }
        return Markup::Broken;
    }
    if next == QUESTION_MARK {
        if b.len() - p < 3 {
            proof {
                assert(first_after_one(b@, p + 3, QUESTION_MARK) == b@.len());
            }
            return Markup::Broken;
        }
        if b[p + 2] == GREATER_THAN {
            return Markup::Broken;
        }
        return skip_to(b, find_after_one(b, p + 3, QUESTION_MARK));
    }
    let g: usize = find_tag_end(b, p + 1);
    if g >= b.len() {
        return Markup::Broken;
    }
    if next == SLASH {
        return Markup::Close { end: g + 1 };
    }
    let empty: bool = g > p + 1 && b[g - 1] == SLASH;
    let inner: usize = if empty {
        g - 1
    } else {
        g
    };
    Markup::Open { from: p + 1, to: find_name_end(b, p + 1, inner), end: g + 1, empty }
}

fn is_text_element(b: &Vec<u8>, from: usize, to: usize) -> (r: bool)
    requires
        from <= to,
    ensures
        r == holds_text(b@, from as int, to as int),
{
    let key_bytes: [u8; 3] = [0x6b, 0x65, 0x79];
    let data_bytes: [u8; 4] = [0x64, 0x61, 0x74, 0x61];
    let date_bytes: [u8; 4] = [0x64, 0x61, 0x74, 0x65];
    let integer_bytes: [u8; 7] = [0x69, 0x6e, 0x74, 0x65, 0x67, 0x65, 0x72];
    let real_bytes: [u8; 4] = [0x72, 0x65, 0x61, 0x6c];
    let string_bytes: [u8; 6] = [0x73, 0x74, 0x72, 0x69, 0x6e, 0x67];
    proof {
        assert(key_bytes@ =~= key_word());
        assert(data_bytes@ =~= data_word());
        assert(date_bytes@ =~= date_word());
        assert(integer_bytes@ =~= integer_word());
        assert(real_bytes@ =~= real_word());
        assert(string_bytes@ =~= string_word());
    }
    is_named(b, from, to, &key_bytes) || is_named(b, from, to, &data_bytes) || is_named(b, from, to, &date_bytes) || is_named(b, from, to, &integer_bytes) || is_named(b, from, to, &real_bytes) || is_named(b, from, to, &string_bytes)
}

fn is_other_element(b: &Vec<u8>, from: usize, to: usize) -> (r: bool)
    requires
        from <= to,
    ensures
        r == holds_no_text(b@, from as int, to as int),
{
    let plist_bytes: [u8; 5] = [0x70, 0x6c, 0x69, 0x73, 0x74];
    let array_bytes: [u8; 5] = [0x61, 0x72, 0x72, 0x61, 0x79];
    let dict_bytes: [u8; 4] = [0x64, 0x69, 0x63, 0x74];
    let true_bytes: [u8; 4] = [0x74, 0x72, 0x75, 0x65];
    let false_bytes: [u8; 5] = [0x66, 0x61, 0x6c, 0x73, 0x65];
    proof {
        assert(plist_bytes@ =~= plist_word());
        assert(array_bytes@ =~= array_word());
        assert(dict_bytes@ =~= dict_word());
        assert(true_bytes@ =~= true_word());
        assert(false_bytes@ =~= false_word());
    }
    is_named(b, from, to, &plist_bytes) || is_named(b, from, to, &array_bytes) || is_named(b, from, to, &dict_bytes) || is_named(b, from, to, &true_bytes) || is_named(
        b,
        from,
        to,
        &false_bytes,
    )
}

fn is_date_element(b: &Vec<u8>, from: usize, to: usize) -> (r: bool)
    requires
        from <= to,
    ensures
        r == named(b@, from as int, to as int, date_word()),
{
    let date: [u8; 4] = [0x64, 0x61, 0x74, 0x65];
    assert(date@ =~= date_word());
    is_named(b, from, to, &date)
}

fn read_digit(c: u8, base: u32) -> (r: Option<u32>)
    requires
        base == 10 || base == 16,
    ensures
        match r {
            Some(d) => digit_of(c, base as nat) == Some(d as nat) && d < base,
            None => digit_of(c, base as nat) is None,
        },
{
    if 0x30 <= c && c <= 0x39 {
        Some((c - 0x30) as u32)
    } else if base == 16 && 0x61 <= c && c <= 0x66 {
        Some((c - 0x61) as u32 + 10)
    } else if base == 16 && 0x41 <= c && c <= 0x46 {
        Some((c - 0x41) as u32 + 10)
    } else {
        None
    }
}

/// Digits that spell no number do not spell one with more digits behind them.
proof fn lemma_no_number(b: Seq<u8>, i: int, k: int, end: int, base: nat)
    requires
        i < k <= end,
        number_of(b, i, k, base) is None,
    ensures
        number_of(b, i, end, base) is None,
    decreases end - k,
{
    if k < end {
        lemma_no_number(b, i, k, end - 1, base);
    }
}

fn read_number(b: &Vec<u8>, i: usize, end: usize, base: u32) -> (r: Referred)
    requires
        end <= b@.len(),
        base == 10 || base == 16,
    ensures
        r == referred_number(b@, i as int, end as int, base as nat),
{
    if i >= end {
        return Referred::Bad;
    }
    let mut n: u32 = 0;
    let mut k: usize = i;
    while k < end
        invariant
            i <= k <= end <= b@.len(),
            base == 10 || base == 16,
            n <= 0x80,
            number_of(b@, i as int, k as int, base as nat) matches Some(v) && (v == n || (n == 0x80
                && v >= 0x80)),
        decreases end - k,
    {
        let ghost v = number_of(b@, i as int, k as int, base as nat)->0;
        match read_digit(b[k], base) {
            Some(d) => {
                proof {
                    assert(number_of(b@, i as int, k + 1, base as nat) == Some(
                        v * (base as nat) + d as nat,
                    ));
                    assert(v * (base as nat) >= v) by (nonlinear_arith)
                        requires
                            base >= 1,
                            v >= 0,
                    ;
                }
                if n >= 0x80 {
                    n = 0x80;
                } else {
                    let next: u32 = n * base + d;
                    n = if next < 0x80 {
                        next
                    } else {
                        0x80
                    };
                }
            },
            None => {
                proof {
                    assert(number_of(b@, i as int, k + 1, base as nat) is None);
                    lemma_no_number(b@, i as int, k + 1, end as int, base as nat);
                }
                return Referred::Bad;
            },
        }
        k = k + 1;
    }
    if n == 0 {
        Referred::Bad
    } else if n < 0x80 {
        Referred::Ascii(n as u8)
    } else {
        Referred::Wide
    }
}

fn read_referred(b: &Vec<u8>, i: usize, end: usize) -> (r: Referred)
    requires
        i <= end <= b@.len(),
    ensures
        r == referred(b@, i as int, end as int),
{
    if i < end && b[i] == HASH {
        if end - i > 1 && b[i + 1] == LOWER_X {
            return read_number(b, i + 2, end, 16);
        }
        return read_number(b, i + 1, end, 10);
    }
    let lt: [u8; 2] = [0x6c, 0x74];
    let gt: [u8; 2] = [0x67, 0x74];
    let amp: [u8; 3] = [0x61, 0x6d, 0x70];
    let apos: [u8; 4] = [0x61, 0x70, 0x6f, 0x73];
    let quot: [u8; 4] = [0x71, 0x75, 0x6f, 0x74];
    proof {
        assert(lt@ =~= lt_word());
        assert(gt@ =~= gt_word());
        assert(amp@ =~= amp_word());
        assert(apos@ =~= apos_word());
        assert(quot@ =~= quot_word());
    }
    if is_named(b, i, end, &lt) {
        return Referred::Ascii(LESS_THAN);
    }
    if is_named(b, i, end, &gt) {
        return Referred::Ascii(GREATER_THAN);
    }
    if is_named(b, i, end, &amp) {
        return Referred::Ascii(AMPERSAND);
    }
    if is_named(b, i, end, &apos) {
        return Referred::Ascii(SINGLE_QUOTE);
    }
    if is_named(b, i, end, &quot) {
        return Referred::Ascii(DOUBLE_QUOTE);
    }
    Referred::Nothing
}

fn find_reference_end(b: &Vec<u8>, i: usize) -> (r: usize)
    requires
        i <= b@.len(),
    ensures
        r == reference_end(b@, i as int),
        i <= r <= b@.len(),
{
    let mut k: usize = i;
    while k < b.len() && !(b[k] == SEMICOLON || b[k] == AMPERSAND || b[k] == LESS_THAN)
        invariant
            i <= k <= b@.len(),
            reference_end(b@, i as int) == reference_end(b@, k as int),
        decreases b@.len() - k,
    {
        k = k + 1;
    }
    k
}

/// What the reference at `p` stands for, and where it ends.
fn read_reference(b: &Vec<u8>, p: usize) -> (r: (Referred, usize))
    requires
        p < b.len(),
    ensures
        r.0 == reference_at(b@, p as int),
        r.1 == behind(b@, p as int, reference_end(b@, p + 1)),
        p < r.1 <= b@.len(),
{
    let end: usize = find_reference_end(b, p + 1);
    if end < b.len() {
        if b[end] == SEMICOLON {
            (read_referred(b, p + 1, end), end + 1)
        } else {
            (Referred::Bad, end + 1)
        }
    } else {
        (Referred::Bad, b.len())
    }
}

/// The text of an element, and where its closing tag ends.
fn read_text(b: &Vec<u8>, i: usize) -> (r: Option<(Vec<u8>, usize)>)
    requires
        i <= b@.len(),
    ensures
        match r {
            Some((text, end)) => {
                &&& element_text(b@, i as int) == Some((text@, end as int))
                &&& i < end <= b@.len()
            },
            None => element_text(b@, i as int) is None,
        },
{
    let mut text: Vec<u8> = Vec::new();
    let mut k: usize = i;
    while k < b.len()
        invariant
            i <= k <= b@.len(),
            match element_text(b@, k as int) {
                Some((rest, end)) => element_text(b@, i as int) == Some((text@ + rest, end)),
                None => element_text(b@, i as int) is None,
            },
        decreases b@.len() - k,
    {
        let ghost before = text@;
        let c: u8 = b[k];
        if c == LESS_THAN {
            match read_markup(b, k) {
                Markup::Close { end } => {
                    assert(text@ + Seq::<u8>::empty() =~= text@);
                    return Some((text, end));
                },
                Markup::Skip { end } => {
                    k = end;
                },
                _ => return None,
            }
        } else if c == AMPERSAND {
            let (value, end) = read_reference(b, k);
            let ghost rest = element_text(b@, end as int);
            match value {
                Referred::Bad => return None,
                Referred::Nothing => {},
                Referred::Ascii(x) => text.push(x),
                Referred::Wide => text.push(WIDE_BYTE),
            }
            proof {
                if let Some((more, _)) = rest {
                    if text@.len() > before.len() {
                        assert(text@ + more =~= before + (seq![text@.last()] + more));
                    }
                }
            }
            k = end;
        } else {
            text.push(c);
            proof {
                if let Some((more, _)) = element_text(b@, k + 1) {
                    assert(text@ + more =~= before + (seq![c] + more));
                }
            }
            k = k + 1;
        }
    }
    None
}

fn is_clock_at(t: &Vec<u8>, i: usize) -> (r: bool)
    requires
        i + 5 <= t.len(),
    ensures
        r == is_clock(t@, i as int),
{
    0x30 <= t[i] && t[i] <= 0x39 && 0x30 <= t[i + 1] && t[i + 1] <= 0x39 && t[i + 2] == COLON && 0x30
        <= t[i + 3] && t[i + 3] <= 0x39 && 0x30 <= t[i + 4] && t[i + 4] <= 0x39
}

fn read_clock(t: &Vec<u8>, i: usize) -> (r: u32)
    requires
        i + 5 <= t.len(),
        is_clock(t@, i as int),
    ensures
        r == clock_minutes(t@, i as int),
        r <= 60 * 99 + 99,
{
    let hours: u32 = 10 * (t[i] - 0x30) as u32 + (t[i + 1] - 0x30) as u32;
    let minutes: u32 = 10 * (t[i + 3] - 0x30) as u32 + (t[i + 4] - 0x30) as u32;
    60 * hours + minutes
}

fn find_digits_end(t: &Vec<u8>, i: usize) -> (r: usize)
    requires
        i <= t@.len(),
    ensures
        r == digits_end(t@, i as int),
        i <= r <= t@.len(),
{
    let mut k: usize = i;
    while k < t.len() && 0x30 <= t[k] && t[k] <= 0x39
        invariant
            i <= k <= t@.len(),
            digits_end(t@, i as int) == digits_end(t@, k as int),
        decreases t@.len() - k,
    {
        k = k + 1;
    }
    k
}

fn is_late_text(t: &Vec<u8>) -> (r: bool)
    ensures
        r == is_late(t@),
{
    if t.len() < 25 {
        return false;
    }
    let day: [u8; 10] = [0x39, 0x39, 0x39, 0x39, 0x2d, 0x31, 0x32, 0x2d, 0x33, 0x31];
    assert(day@ =~= last_day());
    if !is_word(t, 0, &day) || t[10] >= 0x80 || !is_clock_at(t, 11) || t[16] != COLON || t[17] < 0x30
        || t[17] > 0x39 || t[18] < 0x30 || t[18] > 0x39 {
        return false;
    }
    let offset: usize = if t[19] == DOT {
        find_digits_end(t, 20)
    } else {
        19
    };
    if (t[19] == DOT && offset <= 20) || t.len() - offset != 6 {
        return false;
    }
    t[offset] == HYPHEN && is_clock_at(t, offset + 1) && read_clock(t, 11) + read_clock(
        t,
        offset + 1,
    ) >= 24 * 60
}

/// Whether the bytes are an XML property list with a date beyond the calendar.
pub fn find_late_date(b: &Vec<u8>) -> (r: bool)
    ensures
        r == has_late_date(b@),
{
    let mark: [u8; 8] = [0x62, 0x70, 0x6c, 0x69, 0x73, 0x74, 0x30, 0x30];
    assert(mark@ =~= binary_mark());
    if is_word(b, 0, &mark) {
        return false;
    }
    let mut i: usize = 0;
    while i < b.len()
        invariant
            i <= b@.len(),
            !word_at(b@, 0, binary_mark()),
            late_from(b@, 0) == late_from(b@, i as int),
        decreases b@.len() - i,
    {
        let c: u8 = b[i];
        if c == LESS_THAN {
            match read_markup(b, i) {
                Markup::Broken => return false,
                Markup::Skip { end } => {
                    i = end;
                },
                Markup::Close { end } => {
                    i = end;
                },
                Markup::Open { from, to, end, empty } => {
                    let colon: usize = find_first_of(b, from, COLON);
                    let local: usize = if colon < to {
                        colon + 1
                    } else {
                        from
                    };
                    let holds: bool = is_text_element(b, local, to);
                    if holds && !empty {
                        match read_text(b, end) {
                            None => return false,
                            Some((text, after)) => {
                                if is_date_element(b, local, to) && is_late_text(&text) {
                                    return true;
                                }
                                i = after;
                            },
                        }
                    } else if holds || is_other_element(b, local, to) {
                        i = end;
                    } else {
                        return false;
                    }
                },
            }
        } else if c == AMPERSAND {
            let (value, end) = read_reference(b, i);
            let space: bool = match value {
                Referred::Ascii(x) => x == 0x20 || (0x09 <= x && x <= 0x0d) || x >= 0x80,
                Referred::Wide => true,
                _ => false,
            };
            if !space {
                return false;
            }
            i = end;
        } else {
            if !(c == 0x20 || (0x09 <= c && c <= 0x0d) || c >= 0x80) {
                return false;
            }
            i = i + 1;
        }
    }
    false
}

/// Bytes in which the word `date` does not occur hold no date beyond the calendar.
pub proof fn no_date_without_its_name(b: Seq<u8>)
    requires
        forall|p: int| !#[trigger] word_at(b, p, date_word()),
    ensures
        !has_late_date(b),
{
    lemma_no_date_from(b, 0);
}

proof fn lemma_no_date_from(b: Seq<u8>, i: int)
    requires
        forall|p: int| !#[trigger] word_at(b, p, date_word()),
    ensures
        !late_from(b, i),
    decreases b.len() - i,
{
    if i < b.len() {
        lemma_no_date_from(b, i + 1);
        if b[i] == LESS_THAN {
            match markup_at(b, i) {
                Markup::Broken => {},
                Markup::Skip { end } => lemma_no_date_from(b, behind(b, i, end - 1)),
                Markup::Close { end } => lemma_no_date_from(b, behind(b, i, end - 1)),
                Markup::Open { from, to, end, empty } => {
                    lemma_no_date_from(b, behind(b, i, end - 1));
                    if let Some((text, after)) = element_text(b, end as int) {
                        lemma_no_date_from(b, behind(b, i, after - 1));
                    }
                },
            }
        } else if b[i] == AMPERSAND {
            lemma_no_date_from(b, behind(b, i, reference_end(b, i + 1)));
        }
    }
}

} // verus!
