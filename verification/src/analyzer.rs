//! The smallest and the largest value of a waveform.

use crate::models::{MusicSample, Sample};
use crate::scalar::{zero, Scalar};
use vstd::prelude::*;

verus! {

/// The smaller of `low` and `value`: `value` where it is below `low`.
pub open spec fn lower_of<T: Scalar>(low: T, value: T) -> T {
    if value.below_spec(low) {
        value
    } else {
        low
    }
}

/// The larger of `high` and `value`: `value` where `high` is below it.
pub open spec fn higher_of<T: Scalar>(high: T, value: T) -> T {
    if high.below_spec(value) {
        value
    } else {
        high
    }
}

/// The smallest of zero and the first `n` values of `s`.
pub open spec fn lowest<T: Scalar>(s: Seq<T>, n: nat) -> T
    decreases n,
{
    if n == 0 {
        zero()
    } else {
        lower_of(lowest(s, (n - 1) as nat), s[n - 1])
    }
}

/// The largest of zero and the first `n` values of `s`.
pub open spec fn highest<T: Scalar>(s: Seq<T>, n: nat) -> T
    decreases n,
{
    if n == 0 {
        zero()
    } else {
        higher_of(highest(s, (n - 1) as nat), s[n - 1])
    }
}

/// The smallest of zero and all values of the first `n` channels of `x`.
pub open spec fn lowest_of_all<T: Scalar>(x: Seq<Seq<T>>, n: nat) -> T
    decreases n,
{
    if n == 0 {
        zero()
    } else {
        lower_of(lowest_of_all(x, (n - 1) as nat), lowest(x[n - 1], x[n - 1].len()))
    }
}

/// The largest of zero and all values of the first `n` channels of `x`.
pub open spec fn highest_of_all<T: Scalar>(x: Seq<Seq<T>>, n: nat) -> T
    decreases n,
{
    if n == 0 {
        zero()
    } else {
        higher_of(highest_of_all(x, (n - 1) as nat), highest(x[n - 1], x[n - 1].len()))
    }
}

/// The smallest and the largest value of a waveform; zero counts as one of
/// its values.
pub fn find_minmax_sample<T: Scalar>(sample: &Sample<T>) -> (minmax: (T, T))
    ensures
        minmax.0 == lowest(sample@, sample@.len()),
        minmax.1 == highest(sample@, sample@.len()),
{
    let len: usize = sample.len();
    let mut min: T = T::from_int(0);
    let mut max: T = T::from_int(0);
    let mut i: usize = 0;
    while i < len
        invariant
            i <= len,
            len == sample@.len(),
            min == lowest(sample@, i as nat),
            max == highest(sample@, i as nat),
        decreases len - i,
    {
        let y: T = sample.value(i);
        if y.below(min) {
            min = y;
        }
        if max.below(y) {
            max = y;
        }
        i += 1;
    }
    (min, max)
}

/// The smallest and the largest value of all channels of a clip; zero
/// counts as one of its values.
pub fn find_minmax_music_sample<T: Scalar>(sample: &MusicSample<T>) -> (minmax: (T, T))
    ensures
        minmax.0 == lowest_of_all(sample.waves(), sample.waves().len()),
        minmax.1 == highest_of_all(sample.waves(), sample.waves().len()),
{
    let channels: usize = sample.channels();
    let mut min: T = T::from_int(0);
    let mut max: T = T::from_int(0);
    let mut channel: usize = 0;
    while channel < channels
        invariant
            channel <= channels,
            channels == sample.waves().len(),
            min == lowest_of_all(sample.waves(), channel as nat),
            max == highest_of_all(sample.waves(), channel as nat),
        decreases channels - channel,
    {
        let found = find_minmax_sample(sample.multi_channel_sample().sample(channel));
        if found.0.below(min) {
            min = found.0;
        }
        if max.below(found.1) {
            max = found.1;
        }
        channel += 1;
    }
    (min, max)
}

} // verus!
