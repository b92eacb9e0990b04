//! Small text building blocks: decimal numerals, padding to a column width,
//! and removal of a marker from a label.

use vstd::prelude::*;
use vstd::string::*;

verus! {

/// The character that writes a single decimal digit.
pub open spec fn digit_char(d: int) -> char {
    if d == 0 {
        '0'
    } else if d == 1 {
        '1'
    } else if d == 2 {
        '2'
    } else if d == 3 {
        '3'
    } else if d == 4 {
        '4'
    } else if d == 5 {
        '5'
    } else if d == 6 {
        '6'
    } else if d == 7 {
        '7'
    } else if d == 8 {
        '8'
    } else {
        '9'
    }
}

/// The decimal numeral of a natural number, without leading zeros.
pub open spec fn decimal(n: nat) -> Seq<char>
    decreases n,
{
    if n < 10 {
        seq![digit_char(n as int)]
    } else {
        decimal(n / 10).push(digit_char((n % 10) as int))
    }
}

/// The decimal numeral of an integer, with a minus sign below zero.
pub open spec fn signed_decimal(i: int) -> Seq<char> {
    if i < 0 {
        seq!['-'] + decimal((-i) as nat)
    } else {
        decimal(i as nat)
    }
}

/// A run of `count` spaces.
pub open spec fn spaces(count: nat) -> Seq<char> {
    Seq::new(count, |i: int| ' ')
}

/// How many spaces bring a text of `len` characters up to `width`.
pub open spec fn padding(len: nat, width: nat) -> nat {
    if len < width {
        (width - len) as nat
    } else {
        0
    }
}

/// The text moved to the right edge of a column: spaces first. A text wider
/// than the column is kept whole.
pub open spec fn right_aligned(text: Seq<char>, width: nat) -> Seq<char> {
    spaces(padding(text.len(), width)) + text
}

/// The text at the left edge of a column: spaces after it. A text wider
/// than the column is kept whole.
pub open spec fn left_aligned(text: Seq<char>, width: nat) -> Seq<char> {
    text + spaces(padding(text.len(), width))
}

/// The text with every occurrence of `marker` taken out, reading from the
/// left and never reusing a character for two occurrences.
pub open spec fn without(text: Seq<char>, marker: Seq<char>) -> Seq<char>
    decreases text.len(),
{
    if marker.len() == 0 || text.len() < marker.len() {
        text
    } else if text.subrange(0, marker.len() as int) == marker {
        without(text.skip(marker.len() as int), marker)
    } else {
        seq![text[0]] + without(text.skip(1), marker)
    }
}

/// The one-character text of a decimal digit.
pub fn digit_str(d: u8) -> (text: &'static str)
    requires
        d < 10,
    ensures
        text@ == seq![digit_char(d as int)],
{
    proof {
        reveal_strlit("0");
        reveal_strlit("1");
        reveal_strlit("2");
        reveal_strlit("3");
        reveal_strlit("4");
        reveal_strlit("5");
        reveal_strlit("6");
        reveal_strlit("7");
        reveal_strlit("8");
        reveal_strlit("9");
    }
    let text: &'static str = match d {
        0 => "0",
        1 => "1",
        2 => "2",
        3 => "3",
        4 => "4",
        5 => "5",
        6 => "6",
        7 => "7",
        8 => "8",
        _ => "9",
    };
    assert(text@ =~= seq![digit_char(d as int)]);
    text
}

/// Writes the decimal numeral of `n` at the end of `out`.
pub fn append_decimal(out: &mut String, n: usize)
    ensures
        final(out)@ == old(out)@ + decimal(n as nat),
    decreases n,
{
    if n >= 10 {
        append_decimal(out, n / 10);
    }
    let last: u8 = (n % 10) as u8;
    out.append(digit_str(last));
    proof {
        if n >= 10 {
            assert(final(out)@ =~= old(out)@ + decimal(n as nat));
        } else {
            assert(final(out)@ =~= old(out)@ + decimal(n as nat));
        }
    }
}

/// Writes `count` spaces at the end of `out`.
pub fn append_spaces(out: &mut String, count: usize)
    ensures
        final(out)@ == old(out)@ + spaces(count as nat),
{
    proof {
        reveal_strlit(" ");
    }
    let mut done: usize = 0;
    assert(out@ =~= old(out)@ + spaces(0));
    while done < count
        invariant
            done <= count,
            out@ == old(out)@ + spaces(done as nat),
            " "@ == seq![' '],
        decreases count - done,
    {
        out.append(" ");
        done = done + 1;
        assert(out@ =~= old(out)@ + spaces(done as nat));
    }
}

/// How many spaces a text of `len` characters needs to fill `width`.
pub fn padding_for(len: usize, width: usize) -> (count: usize)
    ensures
        count as nat == padding(len as nat, width as nat),
{
    if len < width {
        width - len
    } else {
        0
    }
}

/// The text at the right edge of a column of `width` characters.
pub fn align_right(text: &str, width: usize) -> (out: String)
    ensures
        out@ == right_aligned(text@, width as nat),
{
    let mut out = String::new();
    append_spaces(&mut out, padding_for(text.unicode_len(), width));
    out.append(text);
    assert(out@ =~= right_aligned(text@, width as nat));
    out
}

/// The text at the left edge of a column of `width` characters.
pub fn align_left(text: &str, width: usize) -> (out: String)
    ensures
        out@ == left_aligned(text@, width as nat),
{
    let mut out = String::from_str(text);
    append_spaces(&mut out, padding_for(text.unicode_len(), width));
    out
}

/// Whether `marker` stands in `text` at character `at`.
pub open spec fn stands_at(text: Seq<char>, marker: Seq<char>, at: int) -> bool {
    0 <= at && at + marker.len() <= text.len() && text.subrange(at, at + marker.len()) == marker
}

/// Whether `marker` stands in `text` at character `at`.
pub fn occurs_at(text: &str, marker: &str, at: usize) -> (found: bool)
    ensures
        found == stands_at(text@, marker@, at as int),
{
    let len: usize = marker.unicode_len();
    let whole: usize = text.unicode_len();
    if at > whole || whole - at < len {
        return false;
    }
    let mut k: usize = 0;
    while k < len
        invariant
            k <= len,
            len == marker@.len(),
            at + len <= text@.len(),
            text@.len() == whole,
            forall|j: int| 0 <= j < k ==> text@[at + j] == marker@[j],
        decreases len - k,
    {
        if text.get_char(at + k) != marker.get_char(k) {
            assert(text@.subrange(at as int, at + len)[k as int] != marker@[k as int]);
            return false;
        }
        k = k + 1;
    }
    assert(text@.subrange(at as int, at + len) =~= marker@);
    true
}

/// The text with every occurrence of `marker` taken out.
pub fn remove_all(text: &str, marker: &str) -> (out: String)
    ensures
        out@ == without(text@, marker@),
{
    let len: usize = text.unicode_len();
    let width: usize = marker.unicode_len();
    if width == 0 || len < width {
        return String::from_str(text);
    }
    let mut out = String::new();
    let mut at: usize = 0;
    assert(text@.skip(0) =~= text@);
    assert(out@ + without(text@.skip(0), marker@) =~= without(text@, marker@));
    while at < len
        invariant
            at <= len,
            len == text@.len(),
            width == marker@.len(),
            width > 0,
            without(text@, marker@) == out@ + without(text@.skip(at as int), marker@),
        decreases len - at,
    {
        let ghost rest = text@.skip(at as int);
        let ghost before = out@;
        if occurs_at(text, marker, at) {
            proof {
                assert(rest.subrange(0, width as int) =~= text@.subrange(at as int, at + width));
                assert(rest.skip(width as int) =~= text@.skip(at + width));
            }
            at = at + width;
        } else {
            proof {
                if len - at >= width {
                    assert(rest.subrange(0, width as int) =~= text@.subrange(
                        at as int,
                        at + width,
                    ));
                } else {
                    assert(without(rest.skip(1), marker@) == rest.skip(1));
                    assert(seq![rest[0]] + rest.skip(1) =~= rest);
                }
                assert(rest.skip(1) =~= text@.skip(at + 1));
                assert(text@.subrange(at as int, at + 1) =~= seq![rest[0]]);
            }
            out.append(text.substring_char(at, at + 1));
            at = at + 1;
            assert(out@ + without(text@.skip(at as int), marker@) =~= before + without(
                rest,
                marker@,
            ));
        }
    }
    assert(text@.skip(len as int) =~= Seq::<char>::empty());
    assert(out@ + Seq::<char>::empty() =~= out@);
    out
}

} // verus!
