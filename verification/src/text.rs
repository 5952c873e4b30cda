//! Decimal text: the form in which the driver's files and the command line
//! hold numbers.
//!
//! A number is written as one or more of the digits `0` to `9`, with an
//! optional `+` before them and nothing else. What a device file holds may
//! end in white space, which is not part of the number.

use vstd::prelude::*;

verus! {

/// Whether `c` is white space: one of the characters to which Unicode gives
/// the property `White_Space`.
pub open spec fn is_whitespace(c: char) -> bool {
    ||| '\u{9}' <= c <= '\u{d}'
    ||| c == ' '
    ||| c == '\u{85}'
    ||| c == '\u{a0}'
    ||| c == '\u{1680}'
    ||| '\u{2000}' <= c <= '\u{200a}'
    ||| c == '\u{2028}'
    ||| c == '\u{2029}'
    ||| c == '\u{202f}'
    ||| c == '\u{205f}'
    ||| c == '\u{3000}'
}

/// Whether `c` is one of the digits `0` to `9`.
pub open spec fn is_digit(c: char) -> bool {
    '0' <= c <= '9'
}

/// The number that the digit `c` stands for.
pub open spec fn digit_value(c: char) -> nat
    recommends
        is_digit(c),
{
    (c as u32 - '0' as u32) as nat
}

/// `text` without the white space at its end.
pub open spec fn trim_end(text: Seq<char>) -> Seq<char>
    decreases text.len(),
{
    if text.len() > 0 && is_whitespace(text.last()) {
        trim_end(text.drop_last())
    } else {
        text
    }
}

/// Whether `digits` is one or more digits and nothing else.
pub open spec fn is_decimal(digits: Seq<char>) -> bool {
    &&& digits.len() > 0
    &&& forall|i: int| 0 <= i < digits.len() ==> is_digit(#[trigger] digits[i])
}

/// The number that a run of digits stands for, the first digit counting most.
pub open spec fn decimal_value(digits: Seq<char>) -> nat
    decreases digits.len(),
{
    if digits.len() == 0 {
        0
    } else {
        10 * decimal_value(digits.drop_last()) + digit_value(digits.last())
    }
}

/// `text` without the one `+` that may stand at its start.
pub open spec fn unsigned_digits(text: Seq<char>) -> Seq<char> {
    if text.len() > 0 && text[0] == '+' {
        text.drop_first()
    } else {
        text
    }
}

/// The number that `text` stands for, if it is a number in decimal text.
pub open spec fn parse_unsigned(text: Seq<char>) -> Option<nat> {
    if is_decimal(unsigned_digits(text)) {
        Some(decimal_value(unsigned_digits(text)))
    } else {
        None
    }
}

/// The number that `text` stands for, if it is a number in decimal text and
/// fits in 32 bits.
pub open spec fn parse_u32(text: Seq<char>) -> Option<u32> {
    match parse_unsigned(text) {
        Some(n) => if n <= u32::MAX {
            Some(n as u32)
        } else {
            None
        },
        None => None,
    }
}

/// The digit that stands for `d`, a number below ten.
pub open spec fn digit_char(d: nat) -> char
    recommends
        d < 10,
{
    ('0' as u8 + d) as u8 as char
}

/// `n` in decimal text: its digits, the first counting most, with no `+`
/// and no zero before them; zero is the one digit `0`.
pub open spec fn decimal_digits(n: nat) -> Seq<char>
    decreases n,
{
    if n < 10 {
        seq![digit_char(n)]
    } else {
        decimal_digits(n / 10).push(digit_char(n % 10))
    }
}

/// Whether `c` is white space.
fn whitespace(c: char) -> (b: bool)
    ensures
        b == is_whitespace(c),
{
    ('\u{9}' <= c && c <= '\u{d}') || c == ' ' || c == '\u{85}' || c == '\u{a0}' || c == '\u{1680}'
        || ('\u{2000}' <= c && c <= '\u{200a}') || c == '\u{2028}' || c == '\u{2029}' || c
        == '\u{202f}' || c == '\u{205f}' || c == '\u{3000}'
}

/// The characters of `text`, in order.
pub(crate) fn chars_of(text: &str) -> (chars: Vec<char>)
    ensures
        chars@ == text@,
{
    let mut chars: Vec<char> = Vec::new();
    for c in it: text.chars()
        invariant
            chars@ == it.seq().take(it.index()),
    {
        chars.push(c);
    }
    chars
}

/// The number that the first `end` characters of `chars` stand for.
fn parse_prefix(chars: &Vec<char>, end: usize) -> (value: Option<u32>)
    requires
        end <= chars.len(),
    ensures
        value == parse_u32(chars@.take(end as int)),
{
    let start: usize = if end > 0 && chars[0] == '+' {
        1
    } else {
        0
    };
    let ghost digits = unsigned_digits(chars@.take(end as int));
    if start == end {
        return None;
    }
    let mut value: u64 = 0;
    let mut fits = true;
    let mut i: usize = start;
    while i < end
        invariant
            start <= i <= end <= chars.len(),
            digits == unsigned_digits(chars@.take(end as int)),
            digits == chars@.subrange(start as int, end as int),
            forall|j: int| 0 <= j < i - start ==> is_digit(#[trigger] digits[j]),
            fits ==> value == decimal_value(digits.take(i - start)) && value <= u32::MAX,
            !fits ==> decimal_value(digits.take(i - start)) > u32::MAX,
        decreases end - i,
    {
        let c = chars[i];
        assert(c == digits[i - start]);
        if !('0' <= c && c <= '9') {
            return None;
        }
        proof {
            let longer = digits.take(i - start + 1);
            assert(longer.drop_last() == digits.take(i - start));
        }
        if fits {
            value = value * 10 + (c as u32 - '0' as u32) as u64;
            if value > u32::MAX as u64 {
                fits = false;
            }
        }
        i += 1;
    }
    assert(digits.take(end - start) == digits);
    if fits {
        Some(value as u32)
    } else {
        None
    }
}

/// The number that `text` stands for, if it is a number in decimal text and
/// fits in 32 bits.
pub fn parse_number(text: &str) -> (value: Option<u32>)
    ensures
        value == parse_u32(text@),
{
    let chars = chars_of(text);
    assert(chars@.take(chars@.len() as int) == chars@);
    parse_prefix(&chars, chars.len())
}

/// The number that `content` stands for once the white space at its end is
/// taken off, if what is left is a number in decimal text and fits in 32
/// bits.
pub fn parse_trimmed(content: &str) -> (value: Option<u32>)
    ensures
        value == parse_u32(trim_end(content@)),
{
    let chars = chars_of(content);
    let mut end: usize = chars.len();
    assert(chars@.take(end as int) == chars@);
    while end > 0 && whitespace(chars[end - 1])
        invariant
            end <= chars.len(),
            trim_end(chars@) == trim_end(chars@.take(end as int)),
        decreases end,
    {
        assert(chars@.take(end as int).drop_last() == chars@.take(end - 1));
        end -= 1;
    }
    parse_prefix(&chars, end)
}

/// The text of the one digit that stands for `d`.
fn digit_text(d: u64) -> (text: &'static str)
    requires
        d < 10,
    ensures
        text@ == seq![digit_char(d as nat)],
{
    proof {
        reveal_strlit("0");
        reveal_strlit("1");
        reveal_strlit("2");
        reveal_strlit("3");
        reveal_strlit("4");
        reveal_strlit("5");
        reveal_strlit("6");
        reveal_strlit("7");
        reveal_strlit("8");
        reveal_strlit("9");
    }
    match d {
        0 => "0",
        1 => "1",
        2 => "2",
        3 => "3",
        4 => "4",
        5 => "5",
        6 => "6",
        7 => "7",
        8 => "8",
        _ => "9",
    }
}

/// Puts `value` in decimal text at the end of `text`.
fn append_decimal(text: &mut String, value: u64)
    ensures
        final(text)@ == old(text)@ + decimal_digits(value as nat),
    decreases value,
{
    if value >= 10 {
        append_decimal(text, value / 10);
    }
    text.append(digit_text(value % 10));
}

/// `value` in decimal text, as it is shown and as it is written to a device
/// file.
pub fn decimal_text(value: u64) -> (text: String)
    ensures
        text@ == decimal_digits(value as nat),
{
    let mut text = String::new();
    append_decimal(&mut text, value);
    text
}

/// What [`decimal_digits`] writes is read back as the same number, and has
/// no white space at its end to take off.
pub proof fn lemma_decimal_digits_parse(n: nat)
    ensures
        is_decimal(decimal_digits(n)),
        decimal_value(decimal_digits(n)) == n,
        parse_unsigned(decimal_digits(n)) == Some(n),
        trim_end(decimal_digits(n)) == decimal_digits(n),
    decreases n,
{
    let digits = decimal_digits(n);
    if n < 10 {
        assert(decimal_value(digits.drop_last()) == 0);
    } else {
        lemma_decimal_digits_parse(n / 10);
        assert(digits.drop_last() =~= decimal_digits(n / 10));
    }
}

} // verus!
