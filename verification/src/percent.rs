//! Conversion between the raw units of the driver and percentages.
//!
//! A raw value is a number between zero and the driver's maximum. Towards the
//! user it is shown as a percentage of that maximum, rounded down. In the
//! other direction a percentage is first raised by one, and at most to one
//! hundred, so that a value that was read and is written back unchanged does
//! not sink by rounding.

use vstd::prelude::*;

verus! {

/// The highest percentage.
pub const MAX_PERCENT: u32 = 100;

/// The percentage that `raw` is of `raw_max`, rounded down.
pub open spec fn percentage_of(raw: nat, raw_max: nat) -> nat
    recommends
        raw_max > 0,
{
    raw * 100 / raw_max
}

/// The percentage that stands for `percentage` when it is turned into raw
/// units: one more, but no more than one hundred.
pub open spec fn biased(percentage: nat) -> nat {
    if percentage + 1 <= 100 {
        percentage + 1
    } else {
        100
    }
}

/// The raw value for `percentage`: the biased percentage of `raw_max`, the
/// hundredth taken exactly and the product rounded down.
pub open spec fn raw_of(raw_max: nat, percentage: nat) -> nat {
    raw_max * biased(percentage) / 100
}

/// The percentage that `raw_current` is of `raw_max`, rounded down.
pub fn current_percentage(raw_current: u32, raw_max: u32) -> (percentage: u64)
    requires
        raw_max > 0,
    ensures
        percentage == percentage_of(raw_current as nat, raw_max as nat),
{
    (raw_current as u64) * 100 / (raw_max as u64)
}

/// The raw value for `percentage`, which is never above `raw_max`.
pub fn percentage_to_raw(raw_max: u32, percentage: u32) -> (raw: u32)
    ensures
        raw == raw_of(raw_max as nat, percentage as nat),
        raw <= raw_max,
{
    let factor: u64 = if percentage >= MAX_PERCENT {
        100
    } else {
        percentage as u64 + 1
    };
    proof {
        lemma_raw_of_bounded(raw_max as nat, percentage as nat);
        assert(raw_max * factor <= raw_max * 100) by (nonlinear_arith)
            requires
                factor <= 100,
        ;
    }
    (raw_max as u64 * factor / 100) as u32
}

/// A percentage turned into raw units is never above the maximum, and it is
/// the maximum from ninety-nine percent on.
pub proof fn lemma_raw_of_bounded(raw_max: nat, percentage: nat)
    ensures
        raw_of(raw_max, percentage) <= raw_max,
        percentage >= 99 ==> raw_of(raw_max, percentage) == raw_max,
{
    let factor = biased(percentage);
    assert(raw_max * factor <= raw_max * 100) by (nonlinear_arith)
        requires
            factor <= 100,
    ;
}

/// A raw value that is not above the maximum is at most one hundred percent.
pub proof fn lemma_percentage_bounded(raw: nat, raw_max: nat)
    requires
        raw_max > 0,
        raw <= raw_max,
    ensures
        percentage_of(raw, raw_max) <= 100,
{
    assert(raw * 100 / raw_max <= 100) by (nonlinear_arith)
        requires
            raw_max > 0,
            raw <= raw_max,
    ;
}

/// Turning a percentage of at most one hundred into raw units and reading
/// the percentage back gives the percentage again within the rounding of the
/// two divisions: at most one percent more, and less by under one raw step,
/// which is `100 / raw_max` percent. With a maximum of at least one hundred
/// the result is therefore the percentage or the one above it.
pub proof fn lemma_round_trip(raw_max: nat, percentage: nat)
    requires
        raw_max > 0,
        percentage <= 100,
    ensures
        percentage_of(raw_of(raw_max, percentage), raw_max) <= percentage + 1,
        percentage_of(raw_of(raw_max, percentage), raw_max) <= 100,
        (percentage - percentage_of(raw_of(raw_max, percentage), raw_max)) * raw_max < 100,
        raw_max >= 100 ==> percentage <= percentage_of(raw_of(raw_max, percentage), raw_max),
{
    let factor = biased(percentage);
    let raw = raw_of(raw_max, percentage);
    let back = percentage_of(raw, raw_max);
    // raw is the quotient of raw_max * factor by 100
    assert(raw * 100 <= raw_max * factor < raw * 100 + 100) by (nonlinear_arith)
        requires
            raw == raw_max * factor / 100,
    ;
    // back is the quotient of raw * 100 by raw_max
    assert(back * raw_max <= raw * 100 < back * raw_max + raw_max) by (nonlinear_arith)
        requires
            raw_max > 0,
            back == raw * 100 / raw_max,
    ;
    assert(back <= factor) by (nonlinear_arith)
        requires
            raw_max > 0,
            back * raw_max <= raw_max * factor,
    ;
    if percentage == 100 {
        lemma_raw_of_bounded(raw_max, percentage);
        assert(raw_max * 100 / raw_max == 100) by (nonlinear_arith)
            requires
                raw_max > 0,
        ;
        assert((percentage - back) * raw_max == 0) by (nonlinear_arith)
            requires
                percentage == back,
        ;
    } else {
        assert((percentage - back) * raw_max == raw_max * factor - raw_max - back * raw_max)
            by (nonlinear_arith)
            requires
                factor == percentage + 1,
        ;
        if raw_max >= 100 {
            assert(percentage <= back) by (nonlinear_arith)
                requires
                    raw_max >= 100,
                    (percentage - back) * raw_max < 100,
            ;
        }
    }
}

/// A raw value of at most the maximum that is read as a percentage and
/// written back as that percentage does not get smaller: this is what the
/// bias is for.
pub proof fn lemma_read_then_written(raw: nat, raw_max: nat)
    requires
        raw_max > 0,
        raw <= raw_max,
    ensures
        raw <= raw_of(raw_max, percentage_of(raw, raw_max)),
{
    let read = percentage_of(raw, raw_max);
    lemma_percentage_bounded(raw, raw_max);
    lemma_raw_of_bounded(raw_max, read);
    if read < 99 {
        // read is the quotient of raw * 100 by raw_max
        assert(raw * 100 < (read + 1) * raw_max) by (nonlinear_arith)
            requires
                raw_max > 0,
                read == raw * 100 / raw_max,
        ;
        assert(raw <= raw_max * (read + 1) / 100) by (nonlinear_arith)
            requires
                raw * 100 < (read + 1) * raw_max,
        ;
    }
}

} // verus!
