//! Numerals, padding and cutting of text.
use vstd::prelude::*;
use vstd::string::*;

verus! {

/// The digit with the given value.
pub open spec fn digit(d: nat) -> char {
    "0123456789abcdef"@[d as int]
}

/// The numeral of `n` in the given base, without leading zeros.
pub open spec fn numeral(base: nat, n: nat) -> Seq<char>
    decreases n,
    when base >= 2
{
    if n < base {
        seq![digit(n)]
    } else {
        proof {
            assert(n / base < n) by (nonlinear_arith)
                requires
                    n >= base,
                    base >= 2,
            ;
        }
        numeral(base, n / base).push(digit(n % base))
    }
}

/// The decimal numeral of `n`.
pub open spec fn decimal(n: nat) -> Seq<char> {
    numeral(10, n)
}

/// `width` blanks, none for a negative width.
pub open spec fn blanks(width: int) -> Seq<char> {
    Seq::new(
        if width > 0 {
            width as nat
        } else {
            0
        },
        |i: int| ' ',
    )
}

/// The text `s` with blanks behind it up to `width` characters.
pub open spec fn padded_right(s: Seq<char>, width: nat) -> Seq<char> {
    s + blanks(width - s.len())
}

/// The text `s` with blanks before it up to `width` characters.
pub open spec fn padded_left(s: Seq<char>, width: nat) -> Seq<char> {
    blanks(width - s.len()) + s
}

/// What the `{:?}` format makes of a text: the text in double quotes, with the
/// characters escaped that Rust escapes there.
pub uninterp spec fn debug_quoted(s: Seq<char>) -> Seq<char>;

/// `format!("{:?}", s)` of std. Its result depends on the text alone, and is named
/// here; which characters Rust escapes in it is not stated.
#[verifier::external_body]
pub(crate) fn quote(s: &str) -> (r: String)
    ensures
        r@ == debug_quoted(s@),
{
    format!("{:?}", s)
}

/// Two texts hold the same characters.
pub fn same_text(a: &str, b: &str) -> (r: bool)
    ensures
        r == (a@ == b@),
{
    a.to_owned() == b.to_owned()
}

/// Appends the digit with the given value.
fn push_digit(out: &mut String, d: u64)
    requires
        d < 16,
    ensures
        final(out)@ == old(out)@.push(digit(d as nat)),
{
    proof {
        reveal_strlit("0123456789abcdef");
    }
    let table = "0123456789abcdef";
    let one = table.substring_char(d as usize, d as usize + 1);
    assert(one@ =~= seq![digit(d as nat)]);
    out.append(one);
    assert(out@ =~= old(out)@.push(digit(d as nat)));
}

/// Appends the numeral of `n` in the given base.
pub fn push_numeral(out: &mut String, base: u64, n: u64)
    requires
        2 <= base <= 16,
    ensures
        final(out)@ == old(out)@ + numeral(base as nat, n as nat),
    decreases n,
{
    if n < base {
        push_digit(out, n);
    } else {
        assert(n / base < n) by (nonlinear_arith)
            requires
                n >= base,
                base >= 2,
        ;
        push_numeral(out, base, n / base);
        push_digit(out, n % base);
    }
    assert(out@ =~= old(out)@ + numeral(base as nat, n as nat));
}

/// Appends the decimal numeral of `n`.
pub fn push_decimal(out: &mut String, n: u64)
    ensures
        final(out)@ == old(out)@ + decimal(n as nat),
{
    push_numeral(out, 10, n);
}

/// The two hexadecimal digits of a byte.
pub open spec fn two_hex_digits(b: u8) -> Seq<char> {
    seq![digit((b / 16) as nat), digit((b % 16) as nat)]
}

/// Appends the two hexadecimal digits of a byte.
pub fn push_two_hex_digits(out: &mut String, b: u8)
    ensures
        final(out)@ == old(out)@ + two_hex_digits(b),
{
    push_digit(out, (b / 16) as u64);
    push_digit(out, (b % 16) as u64);
    assert(out@ =~= old(out)@ + two_hex_digits(b));
}

/// Appends `width` blanks.
pub fn push_blanks(out: &mut String, width: usize)
    ensures
        final(out)@ == old(out)@ + blanks(width as int),
    decreases width,
{
    if width > 0 {
        push_blanks(out, width - 1);
        proof {
            reveal_strlit(" ");
        }
        out.append(" ");
    }
    assert(out@ =~= old(out)@ + blanks(width as int));
}

/// Appends `s` and blanks up to `width` characters.
pub fn push_padded_right(out: &mut String, s: &str, width: usize)
    ensures
        final(out)@ == old(out)@ + padded_right(s@, width as nat),
{
    let n: usize = s.unicode_len();
    out.append(s);
    if n < width {
        push_blanks(out, width - n);
    }
    assert(out@ =~= old(out)@ + padded_right(s@, width as nat));
}

/// Appends `s` with blanks before it up to `width` characters.
pub fn push_padded_left(out: &mut String, s: &str, width: usize)
    ensures
        final(out)@ == old(out)@ + padded_left(s@, width as nat),
{
    let n: usize = s.unicode_len();
    if n < width {
        push_blanks(out, width - n);
    }
    out.append(s);
    assert(out@ =~= old(out)@ + padded_left(s@, width as nat));
}

/// The first `max` characters of `s`, or all of it where it is no longer than that.
pub fn truncate(s: &str, max: usize) -> (r: &str)
    ensures
        s@.len() <= max ==> r@ == s@,
        s@.len() > max ==> r@ == s@.take(max as int),
{
    if s.unicode_len() > max {
        s.substring_char(0, max)
    } else {
        s
    }
}

} // verus!
