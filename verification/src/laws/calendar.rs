//! Which dates lie beyond the calendar.
use vstd::prelude::*;

verus! {

/// The value of the two digits at `i`.
pub open spec fn pair(t: Seq<u8>, i: int) -> int {
    (t[i] - '0' as int) * 10 + (t[i + 1] - '0' as int)
}

/// There are two digits at `i`.
pub open spec fn is_pair(t: Seq<u8>, i: int) -> bool {
    '0' as int <= t[i] <= '9' as int && '0' as int <= t[i + 1] <= '9' as int
}

/// A text has the form `9999-12-31T00:00:00-00:00`, with any digits in the time and in
/// the offset.
pub open spec fn last_day_of_all(t: Seq<u8>) -> bool {
    &&& t.len() == 25
    &&& t[0] == '9' as int && t[1] == '9' as int && t[2] == '9' as int && t[3] == '9' as int
    &&& t[4] == '-' as int && t[5] == '1' as int && t[6] == '2' as int && t[7] == '-' as int
    &&& t[8] == '3' as int && t[9] == '1' as int && t[10] == 'T' as int
    &&& is_pair(t, 11) && t[13] == ':' as int && is_pair(t, 14) && t[16] == ':' as int
    &&& is_pair(t, 17) && t[19] == '-' as int && is_pair(t, 20) && t[22] == ':' as int
    &&& is_pair(t, 23)
}

/// A time on the last day with a negative offset is beyond the calendar exactly if the
/// offset carries it to midnight or past it.
pub proof fn offsets_carry_past_midnight(t: Seq<u8>)
    requires
        last_day_of_all(t),
    ensures
        crate::dates::is_late(t) <==> 60 * (pair(t, 11) + pair(t, 20)) + pair(t, 14) + pair(t, 23)
            >= 24 * 60,
{
    let d = crate::dates::last_day();
    assert forall|k: int| 0 <= k < d.len() implies #[trigger] t[0 + k] == d[k] by {}
    assert(crate::dates::word_at(t, 0, d));
}

/// No other day and no other offset is beyond the calendar: the text starts with the
/// last day of all, and its offset is negative.
pub proof fn only_the_last_day_is_late(t: Seq<u8>)
    requires
        crate::dates::is_late(t),
    ensures
        t.len() >= 25,
        t[0] == '9' as int && t[1] == '9' as int && t[2] == '9' as int && t[3] == '9' as int,
        t[5] == '1' as int && t[6] == '2' as int && t[8] == '3' as int && t[9] == '1' as int,
        t[t.len() - 6] == '-' as int,
        is_pair(t, 11) && is_pair(t, 14) && is_pair(t, t.len() - 5) && is_pair(t, t.len() - 2),
        60 * (pair(t, 11) + pair(t, t.len() - 5)) + pair(t, 14) + pair(t, t.len() - 2) >= 24 * 60,
{
    let d = crate::dates::last_day();
    assert forall|k: int| 0 <= k < 10 implies #[trigger] t[k] == d[k] by {
        assert(t[0 + k] == d[k]);
    }
}

/// The bytes of an element `date` with a text in it.
pub open spec fn date_element(t: Seq<u8>) -> Seq<u8> {
    seq![0x3cu8, 0x64u8, 0x61u8, 0x74u8, 0x65u8, 0x3eu8] + t + seq![
        0x3cu8,
        0x2fu8,
        0x64u8,
        0x61u8,
        0x74u8,
        0x65u8,
        0x3eu8,
    ]
}

/// A text without markup or references in it.
pub open spec fn is_plain_text(t: Seq<u8>) -> bool {
    forall|i: int| 0 <= i < t.len() ==> #[trigger] t[i] != '<' as int && t[i] != '&' as int
}

proof fn lemma_date_text(b: Seq<u8>, t: Seq<u8>, i: int)
    requires
        b == date_element(t),
        is_plain_text(t),
        b.len() <= usize::MAX,
        6 <= i <= 6 + t.len(),
    ensures
        crate::dates::element_text(b, i) == Some((t.skip(i - 6), b.len() as int)),
    decreases 6 + t.len() - i,
{
    let n = t.len() as int;
    if i < 6 + n {
        assert(b[i] == t[i - 6]);
        lemma_date_text(b, t, i + 1);
        assert(seq![t[i - 6]] + t.skip(i + 1 - 6) =~= t.skip(i - 6));
    } else {
        assert(b[i] == 0x3c && b[i + 1] == 0x2f && b[i + 2] == 0x64 && b[i + 3] == 0x61);
        assert(b[i + 4] == 0x74 && b[i + 5] == 0x65 && b[i + 6] == 0x3e);
        reveal_with_fuel(crate::dates::tag_end, 8);
        assert(crate::dates::tag_end(b, i + 1, 0) == i + 6);
        assert(t.skip(i - 6) =~= Seq::empty());
    }
}

/// An element `date` alone is a property list with a date beyond the calendar exactly
/// if its text is such a date.
pub proof fn a_date_is_found_in_its_element(t: Seq<u8>)
    requires
        is_plain_text(t),
        date_element(t).len() <= usize::MAX,
    ensures
        crate::dates::has_late_date(date_element(t)) <==> crate::dates::is_late(t),
{
    let b = date_element(t);
    assert(b[0] == 0x3c && b[1] == 0x64 && b[2] == 0x61 && b[3] == 0x74 && b[4] == 0x65);
    assert(b[5] == 0x3e);
    assert(!crate::dates::word_at(b, 0, crate::dates::binary_mark())) by {
        if crate::dates::word_at(b, 0, crate::dates::binary_mark()) {
            assert(b[0int + 0] == crate::dates::binary_mark()[0]);
        }
    }
    reveal_with_fuel(crate::dates::tag_end, 6);
    reveal_with_fuel(crate::dates::name_end, 6);
    reveal_with_fuel(crate::dates::first_of, 6);
    assert(crate::dates::tag_end(b, 1, 0) == 5);
    assert(crate::dates::name_end(b, 1, 5) == 5);
    lemma_first_of_is_behind(b, 5, crate::dates::COLON);
    assert(crate::dates::first_of(b, 1, crate::dates::COLON) >= 5);
    assert(crate::dates::local_from(b, 1, 5) == 1);
    let d = crate::dates::date_word();
    assert(crate::dates::named(b, 1, 5, d)) by {
        assert forall|k: int| 0 <= k < d.len() implies #[trigger] b[1 + k] == d[k] by {}
    }
    lemma_date_text(b, t, 6);
    assert(t.skip(0) =~= t);
    assert(crate::dates::behind(b, 0, b.len() - 1) == b.len());
    assert(!crate::dates::late_from(b, b.len() as int));
}

proof fn lemma_first_of_is_behind(b: Seq<u8>, i: int, c: u8)
    requires
        0 <= i <= b.len(),
    ensures
        crate::dates::first_of(b, i, c) >= i,
    decreases b.len() - i,
{
    if i < b.len() {
        lemma_first_of_is_behind(b, i + 1, c);
    }
}

} // verus!
