//! Signal power to percent quality.

use vstd::prelude::*;

verus! {

/// Signal power at and above which the quality is 100, in hundredths of a dBm.
pub const BEST_SIGNAL_MBM: i32 = -4000;

/// Signal power at and below which the quality is 0, in hundredths of a dBm.
pub const WORST_SIGNAL_MBM: i32 = -10000;

/// The signal limited to the range from -100 dBm to -40 dBm.
pub open spec fn clamp_signal(signal: int) -> int {
    if signal < -10000 {
        -10000
    } else if signal > -4000 {
        -4000
    } else {
        signal
    }
}

/// Distance of the clamped signal below -40 dBm, in hundredths of a dBm.
pub open spec fn magnitude(signal: int) -> int {
    -4000 - clamp_signal(signal)
}

/// The integer nearest to `n / d`, halves going up; `d` is positive and even.
pub open spec fn round_div(n: int, d: int) -> int {
    (n + d / 2) / d
}

/// `value` limited to the range from 0 to 100.
pub open spec fn clamp_percent(value: int) -> int {
    if value < 0 {
        0
    } else if value > 100 {
        100
    } else {
        value
    }
}

/// The quality of a signal: `100 - 100 * m / 60` for a magnitude of `m` dBm,
/// rounded to the nearest integer. With the magnitude in hundredths of a dBm
/// that is `(6000 - magnitude) / 60`.
pub open spec fn quality_of(signal: int) -> int {
    clamp_percent(round_div(6000 - magnitude(signal), 60))
}

/// The quality never leaves the range from 0 to 100.
pub proof fn quality_is_bounded(signal: int)
    ensures
        0 <= quality_of(signal) <= 100,
{
}

/// A weaker signal never has a higher quality.
pub proof fn quality_is_monotonic(weaker: int, stronger: int)
    requires
        weaker <= stronger,
    ensures
        quality_of(weaker) <= quality_of(stronger),
{
}

/// From -40 dBm upwards the quality is 100, from -100 dBm downwards it is 0,
/// and in between it is the exact rounded quotient.
pub proof fn quality_at_the_limits(signal: int)
    ensures
        signal >= -4000 ==> quality_of(signal) == 100,
        signal <= -10000 ==> quality_of(signal) == 0,
        -10000 <= signal <= -4000 ==> quality_of(signal) == (signal + 10030) / 60,
{
}

/// Between the limits the quality is the percentage nearest to the exact
/// value `(signal + 10000) / 60`: it is off by half a percent at most, and by
/// exactly half only upwards.
pub proof fn quality_is_the_nearest_percent(signal: int)
    requires
        -10000 <= signal <= -4000,
    ensures
        -30 < 60 * quality_of(signal) - (signal + 10000) <= 30,
{
}

/// Converts a signal power in hundredths of a dBm to a quality in percent.
pub fn dbm_level_to_quality(signal: i32) -> (quality: u8)
    ensures
        quality == quality_of(signal as int),
        quality <= 100,
{
    let clamped: i32 = if signal < WORST_SIGNAL_MBM {
        WORST_SIGNAL_MBM
    } else if signal > BEST_SIGNAL_MBM {
        BEST_SIGNAL_MBM
    } else {
        signal
    };
    let magnitude: i32 = BEST_SIGNAL_MBM - clamped;
    let rounded: i32 = (6000 - magnitude + 30) / 60;
    rounded as u8
}

} // verus!
