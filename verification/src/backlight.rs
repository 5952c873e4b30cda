//! The operations on the backlight, as computations on what the device
//! files hold.
//!
//! The driver shows two files: one holds the highest raw brightness, a
//! positive number, the other the raw brightness now, which may be written.
//! Each operation here takes what was read and gives what is to be shown or
//! written; reading and writing the files is the caller's part.

use crate::error::Error;
use crate::percent::{
    current_percentage, lemma_raw_of_bounded, lemma_round_trip, percentage_of, percentage_to_raw,
    raw_of, MAX_PERCENT,
};
use crate::text::{
    decimal_digits, decimal_text, lemma_decimal_digits_parse, parse_trimmed, parse_u32, trim_end,
};
use vstd::prelude::*;

verus! {

/// `value`, but no more than one hundred.
pub open spec fn clamped(value: nat) -> nat {
    if value <= 100 {
        value
    } else {
        100
    }
}

/// The raw brightness that setting `value` percent writes: the raw value for
/// the clamped percentage, and no more than `raw_max`.
pub open spec fn set_raw(raw_max: nat, value: nat) -> nat {
    if raw_of(raw_max, clamped(value)) <= raw_max {
        raw_of(raw_max, clamped(value))
    } else {
        raw_max
    }
}

/// The number that a device file with the content `content` holds.
///
/// The content stands for a number once the white space at its end is taken
/// off; it must then be decimal text and fit in 32 bits.
pub open spec fn raw_value(content: Seq<char>) -> Result<u32, Error> {
    match parse_u32(trim_end(content)) {
        Some(value) => Ok(value),
        None => Err(Error::ParseError),
    }
}

/// The number that a device file holds, from what reading the file gave:
/// its content, or `None` where it could not be read.
///
/// A file that could not be read gives [`Error::IoError`], and a content
/// that is no number in decimal text of 32 bits, white space at its end
/// apart, gives [`Error::ParseError`].
pub fn read_value(read: Option<&str>) -> (value: Result<u32, Error>)
    ensures
        read is None ==> value == Err::<u32, Error>(Error::IoError),
        read matches Some(content) ==> value == raw_value(content@),
{
    match read {
        None => Err(Error::IoError),
        Some(content) => match parse_trimmed(content) {
            Some(value) => Ok(value),
            None => Err(Error::ParseError),
        },
    }
}

/// The highest raw brightness, from what reading the file that holds it
/// gave: its content, or `None` where it could not be read.
///
/// It fails as [`read_value`] does.
pub fn maximum(read: Option<&str>) -> (raw_max: Result<u32, Error>)
    ensures
        read is None ==> raw_max == Err::<u32, Error>(Error::IoError),
        read matches Some(content) ==> raw_max == raw_value(content@),
{
    read_value(read)
}

/// The brightness now, in percent of the highest, rounded down.
pub fn current(raw_current: u32, raw_max: u32) -> (percentage: u64)
    requires
        raw_max > 0,
    ensures
        percentage == percentage_of(raw_current as nat, raw_max as nat),
        percentage <= raw_current * 100,
{
    assert(raw_current * 100 / (raw_max as int) <= raw_current * 100) by (nonlinear_arith)
        requires
            raw_max > 0,
    ;
    current_percentage(raw_current, raw_max)
}

/// What is shown of the brightness now: its percentage in decimal text.
pub fn get(raw_current: u32, raw_max: u32) -> (shown: String)
    requires
        raw_max > 0,
    ensures
        shown@ == decimal_digits(percentage_of(raw_current as nat, raw_max as nat)),
{
    decimal_text(current(raw_current, raw_max))
}

/// The raw brightness to write so that the brightness becomes `value`
/// percent; a `value` above one hundred counts as one hundred.
pub fn set(raw_max: u32, value: u32) -> (raw: u32)
    ensures
        raw == set_raw(raw_max as nat, value as nat),
        raw <= raw_max,
{
    let actual: u32 = if value > MAX_PERCENT {
        MAX_PERCENT
    } else {
        value
    };
    let raw: u32 = percentage_to_raw(raw_max, actual);
    if raw > raw_max {
        raw_max
    } else {
        raw
    }
}

/// The raw brightness to write so that the brightness rises by `value`
/// percent; a `value` above one hundred counts as one hundred.
///
/// It is what [`set`] gives for the brightness now plus the clamped `value`.
pub fn inc(raw_current: u32, raw_max: u32, value: u32) -> (raw: u32)
    requires
        raw_max > 0,
    ensures
        raw == set_raw(
            raw_max as nat,
            percentage_of(raw_current as nat, raw_max as nat) + clamped(value as nat),
        ),
        raw <= raw_max,
{
    let delta: u32 = if value > MAX_PERCENT {
        MAX_PERCENT
    } else {
        value
    };
    let target: u64 = current(raw_current, raw_max) + delta as u64;
    if target > MAX_PERCENT as u64 {
        set(raw_max, MAX_PERCENT)
    } else {
        set(raw_max, target as u32)
    }
}

/// The raw brightness to write so that the brightness falls by `value`
/// percent, and to zero percent where `value` is more than the brightness
/// now.
///
/// It is what [`set`] gives for the brightness now minus `value`, or for
/// zero.
pub fn dec(raw_current: u32, raw_max: u32, value: u32) -> (raw: u32)
    requires
        raw_max > 0,
    ensures
        raw == set_raw(
            raw_max as nat,
            if value > percentage_of(raw_current as nat, raw_max as nat) {
                0
            } else {
                (percentage_of(raw_current as nat, raw_max as nat) - value) as nat
            },
        ),
        raw <= raw_max,
{
    let now: u64 = current(raw_current, raw_max);
    if value as u64 > now {
        set(raw_max, 0)
    } else {
        let target: u64 = now - value as u64;
        if target > MAX_PERCENT as u64 {
            set(raw_max, MAX_PERCENT)
        } else {
            set(raw_max, target as u32)
        }
    }
}

/// Neither clamp changes what is written: setting `value` percent writes the
/// raw value for `value`, which is at most `raw_max`, and writes `raw_max`
/// from ninety-nine percent on.
pub proof fn lemma_set_raw(raw_max: nat, value: nat)
    ensures
        set_raw(raw_max, value) == raw_of(raw_max, value),
        set_raw(raw_max, value) <= raw_max,
        value >= 99 ==> set_raw(raw_max, value) == raw_max,
{
    lemma_raw_of_bounded(raw_max, value);
    lemma_raw_of_bounded(raw_max, clamped(value));
}

/// After `value` percent is set, the brightness that is read back is at most
/// one hundred percent, and at most one percent above the clamped `value`.
/// It is below the clamped `value` by less than one raw step, so with a
/// highest raw brightness of at least one hundred it is that percentage or
/// the one above it.
pub proof fn lemma_set_then_current(raw_max: nat, value: nat)
    requires
        raw_max > 0,
    ensures
        percentage_of(set_raw(raw_max, value), raw_max) <= 100,
        percentage_of(set_raw(raw_max, value), raw_max) <= clamped(value) + 1,
        (clamped(value) - percentage_of(set_raw(raw_max, value), raw_max)) * raw_max < 100,
        raw_max >= 100 ==> clamped(value) <= percentage_of(set_raw(raw_max, value), raw_max),
{
    lemma_raw_of_bounded(raw_max, clamped(value));
    lemma_round_trip(raw_max, clamped(value));
}

/// A raw brightness that was written in decimal text is read back as the
/// same number.
pub proof fn lemma_written_is_read(raw: u32)
    ensures
        raw_value(decimal_digits(raw as nat)) == Ok::<u32, Error>(raw),
{
    lemma_decimal_digits_parse(raw as nat);
}

} // verus!
