//! Reading a typed answer as an index: surrounding white space is dropped,
//! then a decimal numeral is expected.

use vstd::prelude::*;
use vstd::string::*;

verus! {

/// Whether a character is white space.
pub open spec fn is_space(c: char) -> bool {
    let u = c as u32;
    ||| 0x09 <= u <= 0x0D
    ||| u == 0x20
    ||| u == 0x85
    ||| u == 0xA0
    ||| u == 0x1680
    ||| 0x2000 <= u <= 0x200A
    ||| u == 0x2028
    ||| u == 0x2029
    ||| u == 0x202F
    ||| u == 0x205F
    ||| u == 0x3000
}

/// Whether a character is one of the ten decimal digits.
pub open spec fn is_digit(c: char) -> bool {
    0x30 <= c as u32 <= 0x39
}

/// The value of a decimal digit; zero for any other character.
pub open spec fn digit_value(c: char) -> nat {
    if is_digit(c) {
        (c as u32 - 0x30) as nat
    } else {
        0
    }
}

/// The text without the white space at its start.
pub open spec fn trim_start(text: Seq<char>) -> Seq<char>
    decreases text.len(),
{
    if text.len() > 0 && is_space(text[0]) {
        trim_start(text.skip(1))
    } else {
        text
    }
}

/// The text without the white space at its end.
pub open spec fn trim_end(text: Seq<char>) -> Seq<char>
    decreases text.len(),
{
    if text.len() > 0 && is_space(text.last()) {
        trim_end(text.drop_last())
    } else {
        text
    }
}

/// The text without the white space at either end.
pub open spec fn trimmed(text: Seq<char>) -> Seq<char> {
    trim_end(trim_start(text))
}

/// A numeral without the plus sign that may stand before it.
pub open spec fn unsigned_part(numeral: Seq<char>) -> Seq<char> {
    if numeral.len() > 0 && numeral[0] == '+' {
        numeral.skip(1)
    } else {
        numeral
    }
}

/// Whether a text holds decimal digits only.
pub open spec fn all_digits(text: Seq<char>) -> bool {
    forall|i: int| 0 <= i < text.len() ==> is_digit(#[trigger] text[i])
}

/// The number that a run of decimal digits writes.
pub open spec fn number_of(digits: Seq<char>) -> nat
    decreases digits.len(),
{
    if digits.len() == 0 {
        0
    } else {
        number_of(digits.drop_last()) * 10 + digit_value(digits.last())
    }
}

/// The index that an answer gives: after trimming, an optional plus sign
/// and at least one decimal digit, writing a number that fits the machine's
/// index type. Any other answer gives none.
pub open spec fn parsed_index(answer: Seq<char>) -> Option<usize> {
    let digits = unsigned_part(trimmed(answer));
    if digits.len() == 0 || !all_digits(digits) || number_of(digits) > usize::MAX {
        None
    } else {
        Some(number_of(digits) as usize)
    }
}

/// Whether a character is white space.
pub fn is_space_char(c: char) -> (space: bool)
    ensures
        space == is_space(c),
{
    let u: u32 = c as u32;
    (0x09 <= u && u <= 0x0D) || u == 0x20 || u == 0x85 || u == 0xA0 || u == 0x1680 || (0x2000 <= u
        && u <= 0x200A) || u == 0x2028 || u == 0x2029 || u == 0x202F || u == 0x205F || u == 0x3000
}

/// The value of a character as a decimal digit, if it is one.
pub fn digit_of(c: char) -> (digit: Option<u8>)
    ensures
        digit is Some <==> is_digit(c),
        digit is Some ==> digit->0 as nat == digit_value(c) && digit->0 < 10,
{
    let u: u32 = c as u32;
    if 0x30 <= u && u <= 0x39 {
        Some((u - 0x30) as u8)
    } else {
        None
    }
}

/// A run of digits writes a number no smaller than any of its beginnings.
pub proof fn lemma_number_grows(digits: Seq<char>, taken: int)
    requires
        0 <= taken <= digits.len(),
    ensures
        number_of(digits.subrange(0, taken)) <= number_of(digits),
    decreases digits.len(),
{
    if taken == digits.len() {
        assert(digits.subrange(0, taken) =~= digits);
    } else {
        lemma_number_grows(digits.drop_last(), taken);
        assert(digits.drop_last().subrange(0, taken) =~= digits.subrange(0, taken));
    }
}

/// Where the trimmed text starts and ends within `text`.
pub fn trim_bounds(text: &str) -> (bounds: (usize, usize))
    ensures
        bounds.0 <= bounds.1 <= text@.len(),
        trimmed(text@) == text@.subrange(bounds.0 as int, bounds.1 as int),
{
    let len: usize = text.unicode_len();
    let mut start: usize = 0;
    assert(text@.skip(0) =~= text@);
    while start < len && is_space_char(text.get_char(start))
        invariant
            start <= len,
            len == text@.len(),
            trim_start(text@) == trim_start(text@.skip(start as int)),
        decreases len - start,
    {
        assert(text@.skip(start as int).skip(1) =~= text@.skip(start + 1));
        start = start + 1;
    }
    let mut end: usize = len;
    assert(text@.skip(start as int) =~= text@.subrange(start as int, len as int));
    assert(trim_start(text@) == text@.subrange(start as int, len as int));
    while end > start && is_space_char(text.get_char(end - 1))
        invariant
            start <= end <= len,
            len == text@.len(),
            trimmed(text@) == trim_end(text@.subrange(start as int, end as int)),
        decreases end,
    {
        assert(text@.subrange(start as int, end as int).drop_last() =~= text@.subrange(
            start as int,
            end - 1,
        ));
        end = end - 1;
    }
    (start, end)
}

/// Reads an answer as an index.
pub fn parse_index(answer: &str) -> (index: Option<usize>)
    ensures
        index == parsed_index(answer@),
{
    let (start, end) = trim_bounds(answer);
    let mut at: usize = start;
    if at < end && answer.get_char(at) == '+' {
        at = at + 1;
    }
    let first: usize = at;
    let ghost digits = answer@.subrange(first as int, end as int);
    proof {
        let body = answer@.subrange(start as int, end as int);
        if first > start {
            assert(body.skip(1) =~= digits);
        } else {
            assert(body =~= digits);
        }
        assert(unsigned_part(trimmed(answer@)) == digits);
    }
    if first == end {
        return None;
    }
    let mut value: usize = 0;
    assert(answer@.subrange(first as int, first as int) =~= Seq::<char>::empty());
    while at < end
        invariant
            first <= at <= end <= answer@.len(),
            digits == answer@.subrange(first as int, end as int),
            digits == unsigned_part(trimmed(answer@)),
            all_digits(answer@.subrange(first as int, at as int)),
            value as nat == number_of(answer@.subrange(first as int, at as int)),
        decreases end - at,
    {
        let ghost seen = answer@.subrange(first as int, at as int);
        let ghost more = answer@.subrange(first as int, at + 1);
        proof {
            assert(more.drop_last() =~= seen);
            assert(more =~= digits.subrange(0, at + 1 - first));
            assert(more.last() == digits[at - first]);
        }
        match digit_of(answer.get_char(at)) {
            None => {
                assert(!is_digit(digits[at - first]));
                return None;
            },
            Some(digit) => {
                if value > (usize::MAX - digit as usize) / 10 {
                    proof {
                        lemma_number_grows(digits, at + 1 - first);
                        assert(number_of(more) == value * 10 + digit);
                    }
                    return None;
                }
                value = value * 10 + digit as usize;
            },
        }
        at = at + 1;
        assert(all_digits(more)) by {
            assert forall|i: int| 0 <= i < more.len() implies is_digit(#[trigger] more[i]) by {
                if i < seen.len() {
                    assert(more[i] == seen[i]);
                }
            }
        }
    }
    assert(answer@.subrange(first as int, end as int) =~= digits);
    Some(value)
}

} // verus!
