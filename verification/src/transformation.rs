//! The transformations: each maps a set of channels to a new set.

use crate::models::{MultiChannelSample, MusicSample, Sample, Transformation};
use crate::scalar::{zero, Scalar};
use vstd::prelude::*;

verus! {

/// The number of values after which the variable speed changes, and by
/// which the echo is delayed.
pub const WINDOW: usize = 22000;

/// `s` played backwards.
pub open spec fn reversed<T>(s: Seq<T>) -> Seq<T> {
    Seq::new(s.len(), |i: int| s[s.len() - 1 - i])
}

/// Every second value of `s`, starting with the first.
pub open spec fn decimated<T>(s: Seq<T>) -> Seq<T> {
    Seq::new(((s.len() + 1) / 2) as nat, |k: int| s[2 * k])
}

/// The speed at which the value at index `i` plays: 0 for the normal
/// speed, 1 for the double, 2 for the half. The speed changes with every
/// window, in this order, and starts as normal.
pub open spec fn speed_mode(i: int) -> int {
    (i / (WINDOW as int)) % 3
}

/// What the value at index `i` of `s` adds to the output at variable speed:
/// itself at normal speed; itself at double speed if `i` is even, and nothing
/// if it is odd; at half speed itself if `i` is even, and the value before it
/// if `i` is odd.
pub open spec fn emitted<T>(s: Seq<T>, i: int) -> Seq<T> {
    if speed_mode(i) == 0 {
        seq![s[i]]
    } else if speed_mode(i) == 1 {
        if i % 2 == 0 {
            seq![s[i]]
        } else {
            Seq::empty()
        }
    } else {
        if i % 2 == 0 {
            seq![s[i]]
        } else {
            seq![s[i - 1]]
        }
    }
}

/// The output at variable speed of the first `n` values of `s`.
pub open spec fn variable_speed<T>(s: Seq<T>, n: nat) -> Seq<T>
    decreases n,
{
    if n == 0 {
        Seq::empty()
    } else {
        variable_speed(s, (n - 1) as nat) + emitted(s, n - 1)
    }
}

/// The value at index `i` of `s` delayed by a window: a window of zeros,
/// then `s`.
pub open spec fn delayed_before<T: Scalar>(s: Seq<T>, i: int) -> T {
    if i < WINDOW {
        zero()
    } else {
        s[i - WINDOW]
    }
}

/// The value at index `i` of `s` followed by zeros.
pub open spec fn delayed_after<T: Scalar>(s: Seq<T>, i: int) -> T {
    if i < s.len() {
        s[i]
    } else {
        zero()
    }
}

/// `s` with its echo: at each index the sum of `s` followed by a window of
/// zeros and of `s` delayed by a window. It is one window longer than `s`.
pub open spec fn echoed<T: Scalar>(s: Seq<T>) -> Seq<T> {
    Seq::new(
        s.len() + WINDOW as nat,
        |i: int| delayed_after(s, i).plus_spec(delayed_before(s, i)),
    )
}

/// The value at index `i` of `s`, to which the `n` values that end at index
/// `i` were added one by one, the value at `i` first.
pub open spec fn window_sum<T: Scalar>(s: Seq<T>, i: int, n: nat) -> T
    decreases n,
{
    if n == 0 {
        s[i]
    } else {
        window_sum(s, i, (n - 1) as nat).plus_spec(s[i - (n - 1)])
    }
}

/// The smoothed value at index `i` of `s`: below index 10 the value itself;
/// from there on, a tenth of the value plus the ten values that end at `i`.
pub open spec fn smoothed_at<T: Scalar>(s: Seq<T>, i: int) -> T {
    if i < 10 {
        s[i]
    } else {
        window_sum(s, i, 10).over_spec(T::from_int_spec(10))
    }
}

/// `s` smoothed.
pub open spec fn smoothed<T: Scalar>(s: Seq<T>) -> Seq<T> {
    Seq::new(s.len(), |i: int| smoothed_at(s, i))
}

/// `s` with each value twice in a row.
pub open spec fn stuttered<T>(s: Seq<T>) -> Seq<T> {
    Seq::new(2 * s.len(), |i: int| s[i / 2])
}

/// `s` followed by `s` once more.
pub open spec fn repeated<T>(s: Seq<T>) -> Seq<T> {
    s + s
}

/// One channel played backwards.
pub fn reverse_channel<T: Copy>(sample: &Sample<T>) -> (out: Sample<T>)
    ensures
        out@ == reversed(sample@),
{
    let len: usize = sample.len();
    let mut values: Vec<T> = Vec::new();
    let mut i: usize = len;
    while i > 0
        invariant
            i <= len,
            len == sample@.len(),
            values@.len() == len - i,
            forall|k: int| 0 <= k < values@.len() ==> values@[k] == sample@[len - 1 - k],
        decreases i,
    {
        values.push(sample.value(i - 1));
        i -= 1;
    }
    assert(values@ =~= reversed(sample@));
    Sample::new(values)
}

/// One channel at twice the speed.
pub fn double_speed_channel<T: Copy>(sample: &Sample<T>) -> (out: Sample<T>)
    ensures
        out@ == decimated(sample@),
{
    let len: usize = sample.len();
    let mut values: Vec<T> = Vec::new();
    let mut i: usize = 0;
    while i < len
        invariant
            i % 2 == 0,
            i <= len + 1,
            len == sample@.len(),
            values@.len() == i / 2,
            forall|k: int| 0 <= k < values@.len() ==> values@[k] == sample@[2 * k],
        decreases len + 1 - i,
    {
        values.push(sample.value(i));
        if i == usize::MAX - 1 {
            // the next even index does not exist: `len` is the largest
            // length and `i` the last even index below it
            assert(values@ =~= decimated(sample@));
            return Sample::new(values);
        }
        i += 2;
    }
    assert(values@ =~= decimated(sample@));
    Sample::new(values)
}

/// One channel at the variable speed.
pub fn speed_chelou_channel<T: Copy>(sample: &Sample<T>) -> (out: Sample<T>)
    ensures
        out@ == variable_speed(sample@, sample@.len()),
{
    let len: usize = sample.len();
    let mut values: Vec<T> = Vec::new();
    let mut i: usize = 0;
    while i < len
        invariant
            i <= len,
            len == sample@.len(),
            values@ == variable_speed(sample@, i as nat),
        decreases len - i,
    {
        let mode: usize = (i / WINDOW) % 3;
        if mode == 0 {
            values.push(sample.value(i));
        } else if mode == 1 {
            if i % 2 == 0 {
                values.push(sample.value(i));
            }
        } else {
            if i % 2 == 0 {
                values.push(sample.value(i));
            } else {
                values.push(sample.value(i - 1));
            }
        }
        proof {
            let before = variable_speed(sample@, i as nat);
            assert(variable_speed(sample@, (i + 1) as nat) == before + emitted(sample@, i as int));
            assert(values@ =~= before + emitted(sample@, i as int));
        }
        i += 1;
    }
    Sample::new(values)
}

/// One channel with its echo.
pub fn echo_channel<T: Scalar>(sample: &Sample<T>) -> (out: Sample<T>)
    ensures
        out@ == echoed(sample@),
{
    let len: usize = sample.len();
    let silence: T = T::from_int(0);
    let mut values: Vec<T> = Vec::new();
    let mut i: usize = 0;
    while i < len
        invariant
            i <= len,
            len == sample@.len(),
            silence == zero::<T>(),
            values@.len() == i,
            forall|k: int|
                0 <= k < i ==> values@[k] == delayed_after(sample@, k).plus_spec(
                    delayed_before(sample@, k),
                ),
        decreases len - i,
    {
        let before: T = if i < WINDOW {
            silence
        } else {
            sample.value(i - WINDOW)
        };
        values.push(sample.value(i).plus(before));
        i += 1;
    }
    let mut j: usize = 0;
    while j < WINDOW
        invariant
            j <= WINDOW,
            len == sample@.len(),
            silence == zero::<T>(),
            values@.len() == len + j,
            forall|k: int|
                0 <= k < len + j ==> values@[k] == delayed_after(sample@, k).plus_spec(
                    delayed_before(sample@, k),
                ),
        decreases WINDOW - j,
    {
        let before: T = if len < WINDOW - j {
            silence
        } else {
            sample.value(len - (WINDOW - j))
        };
        values.push(silence.plus(before));
        j += 1;
    }
    assert(values@ =~= echoed(sample@));
    Sample::new(values)
}

/// One channel smoothed.
pub fn flat_channel<T: Scalar>(sample: &Sample<T>) -> (out: Sample<T>)
    ensures
        out@ == smoothed(sample@),
{
    let len: usize = sample.len();
    let ten: T = T::from_int(10);
    let mut values: Vec<T> = Vec::new();
    let mut i: usize = 0;
    while i < len
        invariant
            i <= len,
            len == sample@.len(),
            ten == T::from_int_spec(10),
            values@.len() == i,
            forall|k: int| 0 <= k < i ==> values@[k] == smoothed_at(sample@, k),
        decreases len - i,
    {
        if i < 10 {
            values.push(sample.value(i));
        } else {
            let mut value: T = sample.value(i);
            let mut j: usize = 0;
            while j < 10
                invariant
                    j <= 10,
                    10 <= i < len,
                    len == sample@.len(),
                    value == window_sum(sample@, i as int, j as nat),
                decreases 10 - j,
            {
                value = value.plus(sample.value(i - j));
                j += 1;
            }
            values.push(value.over(ten));
        }
        i += 1;
    }
    assert(values@ =~= smoothed(sample@));
    Sample::new(values)
}

/// One channel with each value twice in a row.
pub fn stutter_channel<T: Copy>(sample: &Sample<T>) -> (out: Sample<T>)
    ensures
        out@ == stuttered(sample@),
{
    let len: usize = sample.len();
    let mut values: Vec<T> = Vec::new();
    let mut i: usize = 0;
    while i < len
        invariant
            i <= len,
            len == sample@.len(),
            values@.len() == 2 * i,
            forall|k: int| 0 <= k < 2 * i ==> values@[k] == sample@[k / 2],
        decreases len - i,
    {
        values.push(sample.value(i));
        values.push(sample.value(i));
        i += 1;
    }
    assert(values@ =~= stuttered(sample@));
    Sample::new(values)
}

/// One channel followed by itself once more.
pub fn repeat_channel<T: Copy>(sample: &Sample<T>) -> (out: Sample<T>)
    ensures
        out@ == repeated(sample@),
{
    let len: usize = sample.len();
    let mut values: Vec<T> = Vec::new();
    let mut i: usize = 0;
    while i < len
        invariant
            i <= len,
            len == sample@.len(),
            values@ == sample@.subrange(0, i as int),
        decreases len - i,
    {
        values.push(sample.value(i));
        i += 1;
        assert(values@ =~= sample@.subrange(0, i as int));
    }
    assert(values@ =~= sample@);
    let mut i: usize = 0;
    while i < len
        invariant
            i <= len,
            len == sample@.len(),
            values@ == sample@ + sample@.subrange(0, i as int),
        decreases len - i,
    {
        values.push(sample.value(i));
        i += 1;
        assert(values@ =~= sample@ + sample@.subrange(0, i as int));
    }
    assert(values@ =~= repeated(sample@));
    Sample::new(values)
}

/// What a transformation makes of a set of channels. All but one work
/// channel by channel; `DoubleLeft` gives two channels, the first of the set
/// with each value twice in a row, and the second followed by itself.
pub open spec fn transformed<T: Scalar>(x: Seq<Seq<T>>, transformation: Transformation) -> Seq<
    Seq<T>,
> {
    match transformation {
        Transformation::Reverse => x.map_values(|s: Seq<T>| reversed(s)),
        Transformation::Flat => x.map_values(|s: Seq<T>| smoothed(s)),
        Transformation::SpeedChelou => x.map_values(|s: Seq<T>| variable_speed(s, s.len())),
        Transformation::DoubleSpeed => x.map_values(|s: Seq<T>| decimated(s)),
        Transformation::Echo => x.map_values(|s: Seq<T>| echoed(s)),
        Transformation::DoubleLeft => seq![stuttered(x[0]), repeated(x[1])],
    }
}

/// Plays every channel backwards.
pub fn transform_reverse<T: Copy>(multi_channel_sample: &MultiChannelSample<T>) -> (out:
    MultiChannelSample<T>)
    ensures
        out@ == multi_channel_sample@.map_values(|s: Seq<T>| reversed(s)),
{
    let channels: usize = multi_channel_sample.channels();
    let mut result: MultiChannelSample<T> = MultiChannelSample::empty();
    let mut channel: usize = 0;
    while channel < channels
        invariant
            channel <= channels,
            channels == multi_channel_sample@.len(),
            result@.len() == channel,
            forall|c: int| 0 <= c < channel ==> result@[c] == reversed(multi_channel_sample@[c]),
        decreases channels - channel,
    {
        result.push(reverse_channel(multi_channel_sample.sample(channel)));
        channel += 1;
    }
    assert(result@ =~= multi_channel_sample@.map_values(|s: Seq<T>| reversed(s)));
    result
}

/// Smooths every channel.
pub fn transform_flat<T: Scalar>(multi_channel_sample: &MultiChannelSample<T>) -> (out:
    MultiChannelSample<T>)
    ensures
        out@ == multi_channel_sample@.map_values(|s: Seq<T>| smoothed(s)),
{
    let channels: usize = multi_channel_sample.channels();
    let mut result: MultiChannelSample<T> = MultiChannelSample::empty();
    let mut channel: usize = 0;
    while channel < channels
        invariant
            channel <= channels,
            channels == multi_channel_sample@.len(),
            result@.len() == channel,
            forall|c: int| 0 <= c < channel ==> result@[c] == smoothed(multi_channel_sample@[c]),
        decreases channels - channel,
    {
        result.push(flat_channel(multi_channel_sample.sample(channel)));
        channel += 1;
    }
    assert(result@ =~= multi_channel_sample@.map_values(|s: Seq<T>| smoothed(s)));
    result
}

/// Plays every channel at the variable speed.
pub fn transform_speed_chelou<T: Copy>(multi_channel_sample: &MultiChannelSample<T>) -> (out:
    MultiChannelSample<T>)
    ensures
        out@ == multi_channel_sample@.map_values(|s: Seq<T>| variable_speed(s, s.len())),
{
    let channels: usize = multi_channel_sample.channels();
    let mut result: MultiChannelSample<T> = MultiChannelSample::empty();
    let mut channel: usize = 0;
    while channel < channels
        invariant
            channel <= channels,
            channels == multi_channel_sample@.len(),
            result@.len() == channel,
            forall|c: int|
                0 <= c < channel ==> result@[c] == variable_speed(
                    multi_channel_sample@[c],
                    multi_channel_sample@[c].len(),
                ),
        decreases channels - channel,
    {
        result.push(speed_chelou_channel(multi_channel_sample.sample(channel)));
        channel += 1;
    }
    assert(result@ =~= multi_channel_sample@.map_values(
        |s: Seq<T>| variable_speed(s, s.len()),
    ));
    result
}

/// Plays every channel at twice the speed.
pub fn transform_double_speed<T: Copy>(multi_channel_sample: &MultiChannelSample<T>) -> (out:
    MultiChannelSample<T>)
    ensures
        out@ == multi_channel_sample@.map_values(|s: Seq<T>| decimated(s)),
{
    let channels: usize = multi_channel_sample.channels();
    let mut result: MultiChannelSample<T> = MultiChannelSample::empty();
    let mut channel: usize = 0;
    while channel < channels
        invariant
            channel <= channels,
            channels == multi_channel_sample@.len(),
            result@.len() == channel,
            forall|c: int| 0 <= c < channel ==> result@[c] == decimated(multi_channel_sample@[c]),
        decreases channels - channel,
    {
        result.push(double_speed_channel(multi_channel_sample.sample(channel)));
        channel += 1;
    }
    assert(result@ =~= multi_channel_sample@.map_values(|s: Seq<T>| decimated(s)));
    result
}

/// Adds its echo to every channel.
pub fn transform_echo<T: Scalar>(multi_channel_sample: &MultiChannelSample<T>) -> (out:
    MultiChannelSample<T>)
    ensures
        out@ == multi_channel_sample@.map_values(|s: Seq<T>| echoed(s)),
{
    let channels: usize = multi_channel_sample.channels();
    let mut result: MultiChannelSample<T> = MultiChannelSample::empty();
    let mut channel: usize = 0;
    while channel < channels
        invariant
            channel <= channels,
            channels == multi_channel_sample@.len(),
            result@.len() == channel,
            forall|c: int| 0 <= c < channel ==> result@[c] == echoed(multi_channel_sample@[c]),
        decreases channels - channel,
    {
        result.push(echo_channel(multi_channel_sample.sample(channel)));
        channel += 1;
    }
    assert(result@ =~= multi_channel_sample@.map_values(|s: Seq<T>| echoed(s)));
    result
}

/// Doubles the length of the first two channels: the first by playing each
/// value twice in a row, the second by playing the channel twice. Further
/// channels are dropped.
pub fn transform_double_left<T: Copy>(multi_channel_sample: &MultiChannelSample<T>) -> (out:
    MultiChannelSample<T>)
    requires
        multi_channel_sample@.len() >= 2,
    ensures
        out@ == seq![stuttered(multi_channel_sample@[0]), repeated(multi_channel_sample@[1])],
{
    let left: Sample<T> = stutter_channel(multi_channel_sample.first_channel());
    let right: Sample<T> = repeat_channel(multi_channel_sample.sample(1));
    let mut result: MultiChannelSample<T> = MultiChannelSample::empty();
    result.push(left);
    result.push(right);
    assert(result@ =~= seq![
        stuttered(multi_channel_sample@[0]),
        repeated(multi_channel_sample@[1]),
    ]);
    result
}

/// Applies `transformation` to a set of channels.
pub fn transform_generic<T: Scalar>(
    multi_channel_sample: &MultiChannelSample<T>,
    transformation: Transformation,
) -> (out: MultiChannelSample<T>)
    requires
        transformation == Transformation::DoubleLeft ==> multi_channel_sample@.len() >= 2,
    ensures
        out@ == transformed(multi_channel_sample@, transformation),
{
    match transformation {
        Transformation::Reverse => transform_reverse(multi_channel_sample),
        Transformation::Flat => transform_flat(multi_channel_sample),
        Transformation::SpeedChelou => transform_speed_chelou(multi_channel_sample),
        Transformation::DoubleSpeed => transform_double_speed(multi_channel_sample),
        Transformation::Echo => transform_echo(multi_channel_sample),
        Transformation::DoubleLeft => transform_double_left(multi_channel_sample),
    }
}

/// The clip played backwards, at the same rate.
pub fn transform_abstract<T: Scalar>(sample: &MusicSample<T>) -> (out: MusicSample<T>)
    ensures
        out.waves() == transformed(sample.waves(), Transformation::Reverse),
        out.clock() == sample.clock(),
{
    sample.copy(transform_generic(sample.multi_channel_sample(), Transformation::Reverse))
}

/// Playing a waveform backwards twice gives the waveform.
pub proof fn reverse_twice_is_identity<T>(s: Seq<T>)
    ensures
        reversed(reversed(s)) == s,
{
    assert(reversed(reversed(s)) =~= s);
}

/// Playing a set of channels backwards twice gives the set.
pub proof fn reverse_set_twice_is_identity<T: Scalar>(x: Seq<Seq<T>>)
    ensures
        transformed(transformed(x, Transformation::Reverse), Transformation::Reverse) == x,
{
    let once = transformed(x, Transformation::Reverse);
    let twice = transformed(once, Transformation::Reverse);
    assert forall|c: int| 0 <= c < x.len() implies twice[c] == x[c] by {
        reverse_twice_is_identity(x[c]);
    }
    assert(twice =~= x);
}

/// At twice the speed a waveform has half its length, rounded up, and holds
/// the values that stood at the even indices.
pub proof fn double_speed_keeps_even_indices<T>(s: Seq<T>)
    ensures
        decimated(s).len() == (s.len() + 1) / 2,
        2 * decimated(s).len() == s.len() || 2 * decimated(s).len() == s.len() + 1,
        forall|k: int| 0 <= k < decimated(s).len() ==> decimated(s)[k] == s[2 * k],
{
}

/// With its echo a waveform is one window longer; within the first window
/// each value is the one of the waveform, or zero past its end, plus the
/// zero of the lead-in; after it, the value plus the one a window earlier.
pub proof fn echo_starts_with_the_signal<T: Scalar>(s: Seq<T>)
    ensures
        echoed(s).len() == s.len() + WINDOW,
        forall|i: int|
            0 <= i < WINDOW && i < s.len() ==> #[trigger] echoed(s)[i] == s[i].plus_spec(zero()),
        forall|i: int|
            s.len() <= i < WINDOW ==> #[trigger] echoed(s)[i] == zero::<T>().plus_spec(zero()),
        forall|i: int|
            WINDOW <= i < s.len() ==> #[trigger] echoed(s)[i] == s[i].plus_spec(s[i - WINDOW]),
        forall|i: int|
            WINDOW <= i < s.len() + WINDOW && s.len() <= i ==> #[trigger] echoed(s)[i]
                == zero::<T>().plus_spec(s[i - WINDOW]),
{
}

} // verus!
