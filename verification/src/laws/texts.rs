//! What numerals and lists of fans say.
use vstd::prelude::*;

verus! {

/// What a digit is worth.
pub open spec fn digit_worth(c: char) -> int {
    if '0' <= c <= '9' {
        c as int - '0' as int
    } else if 'a' <= c <= 'f' {
        c as int - 'a' as int + 10
    } else {
        -1
    }
}

/// What a row of digits is worth.
pub open spec fn worth(base: int, s: Seq<char>) -> int
    decreases s.len(),
{
    if s.len() == 0 {
        0
    } else {
        base * worth(base, s.drop_last()) + digit_worth(s.last())
    }
}

/// `s` is the numeral of `n`: digits of the base, without needless zeros before them,
/// that are worth `n`.
pub open spec fn is_numeral(base: int, s: Seq<char>, n: int) -> bool {
    &&& s.len() > 0
    &&& forall|i: int| 0 <= i < s.len() ==> 0 <= digit_worth(#[trigger] s[i]) < base
    &&& s.len() > 1 ==> s[0] != '0'
    &&& worth(base, s) == n
}

proof fn lemma_digit(d: nat)
    requires
        d < 16,
    ensures
        digit_worth(crate::text::digit(d)) == d,
        d > 0 ==> crate::text::digit(d) != '0',
{
    reveal_strlit("0123456789abcdef");
}

/// Every number is shown as its numeral.
pub proof fn numbers_are_shown_as_numerals(base: nat, n: nat)
    requires
        2 <= base <= 16,
    ensures
        is_numeral(base as int, crate::text::numeral(base, n), n as int),
    decreases n,
{
    let s = crate::text::numeral(base, n);
    if n < base {
        lemma_digit(n);
        assert(s.drop_last() =~= Seq::empty());
        assert(worth(base as int, s.drop_last()) == 0);
    } else {
        vstd::arithmetic::div_mod::lemma_fundamental_div_mod(n as int, base as int);
        vstd::arithmetic::div_mod::lemma_mod_bound(n as int, base as int);
        assert(n / base < n && n / base > 0) by (nonlinear_arith)
            requires
                n >= base,
                base >= 2,
        ;
        numbers_are_shown_as_numerals(base, n / base);
        lemma_digit(n % base);
        let front = crate::text::numeral(base, n / base);
        assert(s.drop_last() =~= front);
        assert forall|i: int| 0 <= i < s.len() implies 0 <= digit_worth(#[trigger] s[i]) < base by {
            if i < front.len() {
                assert(s[i] == front[i]);
            }
        }
        assert(s[0] == front[0]);
        if front.len() == 1 {
            assert(front.drop_last() =~= Seq::empty());
            assert(worth(base as int, front.drop_last()) == 0);
            assert(worth(base as int, front) == digit_worth(front[0]));
        }
    }
}

/// A byte is shown as two hexadecimal digits that are worth it.
pub proof fn bytes_are_shown_as_two_digits(b: u8)
    ensures
        crate::text::two_hex_digits(b).len() == 2,
        digit_worth(crate::text::two_hex_digits(b)[0]) * 16 + digit_worth(
            crate::text::two_hex_digits(b)[1],
        ) == b,
        0 <= digit_worth(crate::text::two_hex_digits(b)[0]) < 16,
        0 <= digit_worth(crate::text::two_hex_digits(b)[1]) < 16,
{
    lemma_digit((b / 16) as nat);
    lemma_digit((b % 16) as nat);
}

/// A code is shown as the 32-bit pattern that stands for it.
pub proof fn codes_are_shown_as_patterns(rc: i32)
    ensures
        crate::error::two_complement(rc) < 0x1_0000_0000,
        (crate::error::two_complement(rc) - rc) % 0x1_0000_0000 == 0,
        crate::error::hex(crate::error::two_complement(rc)).len() > 2,
        is_numeral(
            16,
            crate::error::hex(crate::error::two_complement(rc)).skip(2),
            crate::error::two_complement(rc) as int,
        ),
        crate::error::hex(crate::error::two_complement(rc)).take(2) == seq!['0', 'x'],
{
    let n = crate::error::two_complement(rc);
    numbers_are_shown_as_numerals(16, n);
    reveal_strlit("0x");
    let h = crate::error::hex(n);
    assert(h.skip(2) =~= crate::text::numeral(16, n));
    assert(h.take(2) =~= seq!['0', 'x']);
}

/// A text that is padded keeps all its characters, at the near end, and has blanks up
/// to the width at the other.
pub proof fn padding_adds_blanks_only(s: Seq<char>, width: nat)
    ensures
        ({
            let l = crate::text::padded_left(s, width);
            let r = crate::text::padded_right(s, width);
            let n: int = if s.len() < width {
                width as int
            } else {
                s.len() as int
            };
            &&& l.len() == n && r.len() == n
            &&& r.take(s.len() as int) == s
            &&& l.skip(n - s.len()) == s
            &&& forall|i: int| s.len() <= i < n ==> #[trigger] r[i] == ' '
            &&& forall|i: int| 0 <= i < n - s.len() ==> #[trigger] l[i] == ' '
        }),
{
    let l = crate::text::padded_left(s, width);
    let r = crate::text::padded_right(s, width);
    assert(r.take(s.len() as int) =~= s);
    assert(l.skip(l.len() - s.len()) =~= s);
}

/// A text is made of decimal digits.
pub open spec fn all_digits(s: Seq<char>) -> bool {
    forall|i: int| 0 <= i < s.len() ==> '0' <= #[trigger] s[i] <= '9'
}

proof fn lemma_digits_value(s: Seq<char>)
    ensures
        all_digits(s) ==> crate::selection::digits_value(s) == Some(worth(10, s) as nat) && worth(
            10,
            s,
        ) >= 0,
        !all_digits(s) ==> crate::selection::digits_value(s) is None,
    decreases s.len(),
{
    if s.len() > 0 {
        let front = s.drop_last();
        lemma_digits_value(front);
        if all_digits(s) {
            assert(all_digits(front));
            assert('0' <= s[s.len() - 1] <= '9');
        } else if crate::selection::digits_value(s) is Some {
            assert forall|i: int| 0 <= i < s.len() implies '0' <= #[trigger] s[i] <= '9' by {
                if i < front.len() {
                    assert(front[i] == s[i]);
                }
            }
        }
    }
}

/// A text without a comma in it: reading it is gathering its characters.
proof fn lemma_scan_plain(s: Seq<char>)
    requires
        forall|i: int| 0 <= i < s.len() ==> #[trigger] s[i] != ',',
    ensures
        crate::selection::scanned(s) == Some((Seq::<u8>::empty(), s)),
    decreases s.len(),
{
    if s.len() == 0 {
        assert(s =~= Seq::empty());
    } else {
        let front = s.drop_last();
        assert forall|i: int| 0 <= i < front.len() implies #[trigger] front[i] != ',' by {
            assert(front[i] == s[i]);
        }
        lemma_scan_plain(front);
        assert(s.last() == s[s.len() - 1]);
        assert(front.push(s.last()) =~= s);
    }
}

/// A text without a comma names one fan, by a row of digits with a plus sign before
/// them or not, if they are worth what a byte can hold; it names no fan in any other
/// way, and only `all` names all of them.
pub proof fn one_index_names_one_fan(s: Seq<char>)
    requires
        forall|i: int| 0 <= i < s.len() ==> #[trigger] s[i] != ',',
    ensures
        ({
            let d = if s.len() > 0 && s[0] == '+' {
                s.skip(1)
            } else {
                s
            };
            let named = crate::selection::selection_named(s);
            &&& s == "all"@ ==> named == Some(crate::selection::FanSelectionView::All)
            &&& s != "all"@ && d.len() > 0 && all_digits(d) && worth(10, d) <= 255 ==> named
                == Some(crate::selection::FanSelectionView::Only(seq![worth(10, d) as u8]))
            &&& s != "all"@ && (d.len() == 0 || !all_digits(d) || worth(10, d) > 255)
                ==> named is None
        }),
{
    lemma_scan_plain(s);
    let d = if s.len() > 0 && s[0] == '+' {
        s.skip(1)
    } else {
        s
    };
    lemma_digits_value(d);
    assert(Seq::<u8>::empty().push(worth(10, d) as u8) =~= seq![worth(10, d) as u8]);
}

proof fn lemma_scan_on(s: Seq<char>, list: Seq<u8>, b: Seq<char>)
    requires
        crate::selection::scanned(s) == Some((list, Seq::<char>::empty())),
    ensures
        match crate::selection::scanned(b) {
            Some((more, field)) => crate::selection::scanned(s + b) == Some((list + more, field)),
            None => crate::selection::scanned(s + b) is None,
        },
    decreases b.len(),
{
    if b.len() == 0 {
        assert(s + b =~= s);
        assert(list + Seq::<u8>::empty() =~= list);
    } else {
        lemma_scan_on(s, list, b.drop_last());
        assert((s + b).drop_last() =~= s + b.drop_last());
        assert((s + b).last() == b.last());
        if let Some((more, field)) = crate::selection::scanned(b.drop_last()) {
            if b.last() == ',' {
                if let Some(v) = crate::selection::field_value(field) {
                    assert((list + more).push(v) =~= list + more.push(v));
                }
            }
        }
    }
}

/// Two lists with a comma between them name the fans of the first and then those of
/// the second, in order; and nothing is named where one of the two is no list.
pub proof fn lists_are_read_in_order(a: Seq<char>, b: Seq<char>)
    ensures
        ({
            let both = crate::selection::selection_named(a + seq![','] + b);
            match (crate::selection::listed(a), crate::selection::listed(b)) {
                (Some(x), Some(y)) => both == Some(
                    crate::selection::FanSelectionView::Only(x + y),
                ),
                _ => both is None,
            }
        }),
{
    let s = a + seq![','];
    assert(s.drop_last() =~= a);
    assert(s.last() == ',');
    reveal_strlit("all");
    assert((s + b)[a.len() as int] == ',');
    assert("all"@[0] != ',' && "all"@[1] != ',' && "all"@[2] != ',');
    assert(s + b != "all"@);
    if let Some(x) = crate::selection::listed(a) {
        assert(crate::selection::scanned(s) == Some((x, Seq::<char>::empty())));
        lemma_scan_on(s, x, b);
        if let Some((more, field)) = crate::selection::scanned(b) {
            if let Some(v) = crate::selection::field_value(field) {
                assert((x + more).push(v) =~= x + more.push(v));
            }
        }
    } else {
        assert(crate::selection::scanned(s) is None);
        lemma_scan_fails(s, b);
    }
}

proof fn lemma_scan_fails(s: Seq<char>, b: Seq<char>)
    requires
        crate::selection::scanned(s) is None,
    ensures
        crate::selection::scanned(s + b) is None,
    decreases b.len(),
{
    if b.len() == 0 {
        assert(s + b =~= s);
    } else {
        lemma_scan_fails(s, b.drop_last());
        assert((s + b).drop_last() =~= s + b.drop_last());
    }
}

/// A selection is written as the word `all`, or as the numerals of its fans in order,
/// with a comma between each two and nothing else.
pub proof fn selections_are_written_plainly(list: Seq<u8>, fan: u8)
    ensures
        crate::selection::FanSelectionView::All.words() == "all"@,
        crate::selection::FanSelectionView::Only(seq![fan]).words() == crate::text::decimal(
            fan as nat,
        ),
        list.len() > 0 ==> crate::selection::FanSelectionView::Only(list.push(fan)).words()
            == crate::selection::FanSelectionView::Only(list).words() + seq![',']
            + crate::text::decimal(fan as nat),
{
    reveal_strlit(",");
    assert(","@ =~= seq![',']);
    assert(list.push(fan).drop_last() =~= list);
    assert(seq![fan].drop_last() =~= Seq::empty());
}

/// A list is what names fans, but for the word `all`.
pub proof fn only_lists_and_all_name_fans(s: Seq<char>)
    ensures
        s != "all"@ ==> crate::selection::selection_named(s) == match crate::selection::listed(s) {
            Some(list) => Some(crate::selection::FanSelectionView::Only(list)),
            None => None,
        },
        crate::selection::selection_named(s) matches Some(
            crate::selection::FanSelectionView::Only(list),
        ) ==> list.len() > 0,
{
}

} // verus!
