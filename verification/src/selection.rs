//! Which fans a command is about: all that can be controlled, or a list of indices.
use crate::text::{push_decimal, same_text};
use vstd::prelude::*;
use vstd::string::*;

verus! {

/// The fans that a command is about.
#[derive(Debug, Clone)]
pub enum FanSelection {
    /// Every fan that can be controlled.
    All,
    /// The fans with these indices.
    Only(Vec<u8>),
}

pub ghost enum FanSelectionView {
    All,
    Only(Seq<u8>),
}

impl View for FanSelection {
    type V = FanSelectionView;

    open spec fn view(&self) -> FanSelectionView {
        match *self {
            FanSelection::All => FanSelectionView::All,
            FanSelection::Only(v) => FanSelectionView::Only(v@),
        }
    }
}

/// A decimal digit.
pub open spec fn is_digit(c: char) -> bool {
    '0' <= c <= '9'
}

/// The value of a sequence of decimal digits.
pub open spec fn digits_value(f: Seq<char>) -> Option<nat>
    decreases f.len(),
{
    if f.len() == 0 {
        Some(0)
    } else {
        match digits_value(f.drop_last()) {
            Some(v) => if is_digit(f.last()) {
                Some(10 * v + (f.last() as nat - '0' as nat) as nat)
            } else {
                None
            },
            None => None,
        }
    }
}

/// A field without the plus sign that it may start with.
pub open spec fn unsigned_part(f: Seq<char>) -> Seq<char> {
    if f.len() > 0 && f[0] == '+' {
        f.skip(1)
    } else {
        f
    }
}

/// The index that a field names: digits, with a plus sign before them or not, and no
/// more than a byte can hold.
pub open spec fn field_value(f: Seq<char>) -> Option<u8> {
    let d = unsigned_part(f);
    if d.len() == 0 {
        None
    } else {
        match digits_value(d) {
            Some(v) => if v <= 255 {
                Some(v as u8)
            } else {
                None
            },
            None => None,
        }
    }
}

/// Reading a list up to some point: the indices before the last comma, and the field
/// behind it.
pub open spec fn scanned(s: Seq<char>) -> Option<(Seq<u8>, Seq<char>)>
    decreases s.len(),
{
    if s.len() == 0 {
        Some((seq![], seq![]))
    } else {
        match scanned(s.drop_last()) {
            None => None,
            Some((list, field)) => if s.last() == ',' {
                match field_value(field) {
                    Some(v) => Some((list.push(v), seq![])),
                    None => None,
                }
            } else {
                Some((list, field.push(s.last())))
            },
        }
    }
}

/// The indices of a comma-separated list.
pub open spec fn listed(s: Seq<char>) -> Option<Seq<u8>> {
    match scanned(s) {
        None => None,
        Some((list, field)) => match field_value(field) {
            Some(v) => Some(list.push(v)),
            None => None,
        },
    }
}

/// The fans that a text names: `all`, or a comma-separated list of indices.
pub open spec fn selection_named(s: Seq<char>) -> Option<FanSelectionView> {
    if s == "all"@ {
        Some(FanSelectionView::All)
    } else {
        match listed(s) {
            Some(list) => Some(FanSelectionView::Only(list)),
            None => None,
        }
    }
}

/// The value of the digits of `s` from `from` on and before `to`.
fn parse_digits(s: &str, from: usize, to: usize) -> (r: Option<u8>)
    requires
        from <= to <= s@.len(),
    ensures
        r == match digits_value(s@.subrange(from as int, to as int)) {
            Some(v) => if v <= 255 {
                Some(v as u8)
            } else {
                None
            },
            None => None,
        },
{
    let mut value: u32 = 0;
    let mut i: usize = from;
    while i < to
        invariant
            from <= i <= to <= s@.len(),
            value <= 2560,
            match digits_value(s@.subrange(from as int, i as int)) {
                Some(v) => v == value || (v > 255 && value > 255),
                None => false,
            },
        decreases to - i,
    {
        let c: char = s.get_char(i);
        let ghost longer = s@.subrange(from as int, i + 1);
        proof {
            assert(longer.drop_last() =~= s@.subrange(from as int, i as int));
            assert(longer.last() == c);
        }
        if !('0' <= c && c <= '9') {
            proof {
                lemma_bad_digit(s@.subrange(from as int, to as int), i - from);
            }
            return None;
        }
        if value <= 255 {
            value = 10 * value + (c as u32 - '0' as u32);
        }
        i = i + 1;
    }
    if value <= 255 {
        Some(value as u8)
    } else {
        None
    }
}

/// A field with something else than a digit in it has no value.
proof fn lemma_bad_digit(f: Seq<char>, k: int)
    requires
        0 <= k < f.len(),
        !is_digit(f[k]),
    ensures
        digits_value(f) is None,
    decreases f.len(),
{
    if k < f.len() - 1 {
        lemma_bad_digit(f.drop_last(), k);
    }
}

/// The index that the field of `s` from `from` on and before `to` names.
fn parse_field(s: &str, from: usize, to: usize) -> (r: Option<u8>)
    requires
        from <= to <= s@.len(),
    ensures
        r == field_value(s@.subrange(from as int, to as int)),
{
    let ghost f = s@.subrange(from as int, to as int);
    let mut start: usize = from;
    if from < to && s.get_char(from) == '+' {
        start = from + 1;
        assert(f.skip(1) =~= s@.subrange(start as int, to as int));
    }
    if start == to {
        return None;
    }
    parse_digits(s, start, to)
}

/// Reads which fans a text names; nothing where it names none.
pub fn parse_fan_selection(s: &str) -> (r: Option<FanSelection>)
    ensures
        match r {
            Some(sel) => selection_named(s@) == Some(sel@),
            None => selection_named(s@) is None,
        },
{
    if same_text(s, "all") {
        return Some(FanSelection::All);
    }
    let n: usize = s.unicode_len();
    let mut list: Vec<u8> = Vec::new();
    let mut start: usize = 0;
    let mut i: usize = 0;
    while i < n
        invariant
            start <= i <= n == s@.len(),
            s@ != "all"@,
            scanned(s@.take(i as int)) == Some((list@, s@.subrange(start as int, i as int))),
        decreases n - i,
    {
        let c: char = s.get_char(i);
        proof {
            assert(s@.take(i + 1).drop_last() =~= s@.take(i as int));
            assert(s@.take(i + 1).last() == c);
        }
        if c == ',' {
            match parse_field(s, start, i) {
                Some(v) => {
                    list.push(v);
                    start = i + 1;
                    assert(s@.subrange(start as int, i + 1) =~= seq![]);
                },
                None => {
                    proof {
                        lemma_scan_stays_broken(s@, i + 1);
                    }
                    return None;
                },
            }
        } else {
            assert(s@.subrange(start as int, i + 1) =~= s@.subrange(start as int, i as int).push(
                c,
            ));
        }
        i = i + 1;
    }
    assert(s@.take(n as int) =~= s@);
    match parse_field(s, start, n) {
        Some(v) => {
            list.push(v);
            Some(FanSelection::Only(list))
        },
        None => None,
    }
}

/// Where a list is broken it stays broken.
proof fn lemma_scan_stays_broken(s: Seq<char>, k: int)
    requires
        0 <= k <= s.len(),
        scanned(s.take(k)) is None,
    ensures
        scanned(s) is None,
    decreases s.len(),
{
    if k == s.len() {
        assert(s.take(k) =~= s);
    } else {
        assert(s.drop_last().take(k) =~= s.take(k));
        lemma_scan_stays_broken(s.drop_last(), k);
    }
}

/// A list of indices, written with commas between them.
pub open spec fn list_text(list: Seq<u8>) -> Seq<char>
    decreases list.len(),
{
    if list.len() == 0 {
        seq![]
    } else if list.len() == 1 {
        crate::text::decimal(list[0] as nat)
    } else {
        list_text(list.drop_last()) + ","@ + crate::text::decimal(list.last() as nat)
    }
}

impl FanSelectionView {
    /// The text that names the selection.
    pub open spec fn words(self) -> Seq<char> {
        match self {
            FanSelectionView::All => "all"@,
            FanSelectionView::Only(list) => list_text(list),
        }
    }
}

impl FanSelection {
    /// The text that names the selection.
    pub fn text(&self) -> (r: String)
        ensures
            r@ == self@.words(),
    {
        match self {
            FanSelection::All => "all".to_owned(),
            FanSelection::Only(list) => {
                let mut out = String::new();
                let mut i: usize = 0;
                while i < list.len()
                    invariant
                        i <= list@.len(),
                        out@ == list_text(list@.take(i as int)),
                    decreases list@.len() - i,
                {
                    proof {
                        assert(list@.take(i + 1).drop_last() =~= list@.take(i as int));
                    }
                    if i > 0 {
                        out.append(",");
                    }
                    push_decimal(&mut out, list[i] as u64);
                    assert(out@ =~= list_text(list@.take(i + 1)));
                    i = i + 1;
                }
                assert(list@.take(i as int) =~= list@);
                out
            },
        }
    }
}

/// A decimal numeral is made of digits and has the value that it was made from.
pub proof fn lemma_decimal_value(n: nat)
    ensures
        digits_value(crate::text::decimal(n)) == Some(n),
        crate::text::decimal(n).len() > 0,
        forall|i: int|
            0 <= i < crate::text::decimal(n).len() ==> is_digit(
                #[trigger] crate::text::decimal(n)[i],
            ),
    decreases n,
{
    reveal_strlit("0123456789abcdef");
    let d = crate::text::decimal(n);
    if n < 10 {
        assert(d.drop_last() =~= seq![]);
        assert(digits_value(d.drop_last()) == Some(0nat));
    } else {
        lemma_decimal_value(n / 10);
        assert(d.drop_last() =~= crate::text::decimal(n / 10));
    }
}

/// Reading on through a field that has no comma in it.
proof fn lemma_scan_field(s: Seq<char>, f: Seq<char>, list: Seq<u8>)
    requires
        scanned(s) == Some((list, Seq::<char>::empty())),
        forall|i: int| 0 <= i < f.len() ==> is_digit(#[trigger] f[i]),
    ensures
        scanned(s + f) == Some((list, f)),
    decreases f.len(),
{
    if f.len() == 0 {
        assert(s + f =~= s);
        assert(f =~= Seq::<char>::empty());
    } else {
        lemma_scan_field(s, f.drop_last(), list);
        assert((s + f).drop_last() =~= s + f.drop_last());
        assert(f.drop_last().push(f.last()) =~= f);
    }
}

/// Reading a written list up to its last index.
proof fn lemma_scan_list(list: Seq<u8>)
    requires
        list.len() > 0,
    ensures
        scanned(list_text(list)) == Some(
            (list.drop_last(), crate::text::decimal(list.last() as nat)),
        ),
    decreases list.len(),
{
    let last = crate::text::decimal(list.last() as nat);
    lemma_decimal_value(list.last() as nat);
    if list.len() == 1 {
        assert(list.drop_last() =~= seq![]);
        lemma_scan_field(seq![], last, seq![]);
        assert(seq![] + last =~= last);
    } else {
        let front = list.drop_last();
        lemma_scan_list(front);
        lemma_decimal_value(front.last() as nat);
        reveal_strlit(",");
        let s = list_text(front) + ","@;
        assert(s.drop_last() =~= list_text(front));
        let f = crate::text::decimal(front.last() as nat);
        assert(field_value(f) == Some(front.last())) by {
            assert(is_digit(f[0]));
        }
        assert(front.drop_last().push(front.last()) =~= front);
        assert(scanned(s) == Some((front, Seq::<char>::empty())));
        lemma_scan_field(s, last, front);
    }
}

/// The text of a selection is read back as that selection.
pub proof fn selection_text_round_trip(sel: FanSelectionView)
    requires
        sel matches FanSelectionView::Only(list) ==> list.len() > 0,
    ensures
        selection_named(sel.words()) == Some(sel),
{
    if let FanSelectionView::Only(list) = sel {
        lemma_scan_list(list);
        let last = crate::text::decimal(list.last() as nat);
        lemma_decimal_value(list.last() as nat);
        assert(is_digit(last[0]));
        assert(field_value(last) == Some(list.last()));
        assert(list.drop_last().push(list.last()) =~= list);
        assert(listed(list_text(list)) == Some(list));
        reveal_strlit("all");
        if list_text(list) == "all"@ {
            assert("all"@[2] == 'l');
            let t = list_text(list);
            lemma_list_text_ends_in_digit(list);
            assert(t.last() == 'l');
        }
    }
}

proof fn lemma_list_text_ends_in_digit(list: Seq<u8>)
    requires
        list.len() > 0,
    ensures
        list_text(list).len() > 0,
        is_digit(list_text(list).last()),
{
    let last = crate::text::decimal(list.last() as nat);
    lemma_decimal_value(list.last() as nat);
    assert(is_digit(last[last.len() - 1]));
}

} // verus!
