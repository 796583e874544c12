//! Waveforms: one channel, a bundle of channels, and a bundle with its rate.

use crate::rate::Rate;
use vstd::prelude::*;

verus! {

/// One channel's waveform: its values in the order in which they play.
#[derive(Clone, Debug)]
pub struct Sample<T> {
    values: Vec<T>,
}

impl<T> View for Sample<T> {
    type V = Seq<T>;

    closed spec fn view(&self) -> Seq<T> {
        self.values@
    }
}

impl<T: Copy> Sample<T> {
    pub fn empty() -> (sample: Sample<T>)
        ensures
            sample@ == Seq::<T>::empty(),
    {
        Sample { values: Vec::new() }
    }

    pub fn new(values: Vec<T>) -> (sample: Sample<T>)
        ensures
            sample@ == values@,
    {
        Sample { values }
    }

    pub fn len(&self) -> (len: usize)
        ensures
            len == self@.len(),
    {
        self.values.len()
    }

    pub fn values(&self) -> (values: &Vec<T>)
        ensures
            values@ == self@,
    {
        &self.values
    }

    pub fn values_mut(&mut self) -> (values: &mut Vec<T>)
        ensures
            values@ == old(self)@,
            final(self)@ == final(values)@,
    {
        &mut self.values
    }

    pub fn value(&self, index: usize) -> (value: T)
        requires
            index < self@.len(),
        ensures
            value == self@[index as int],
    {
        self.values[index]
    }

    pub fn push(&mut self, value: T)
        ensures
            final(self)@ == old(self)@.push(value),
    {
        self.values.push(value);
    }

    /// Cuts the waveform in two at `mid`: the values before it, and those
    /// from it on.
    pub fn split_at(&self, mid: usize) -> (parts: (Sample<T>, Sample<T>))
        requires
            mid <= self@.len(),
        ensures
            parts.0@ == self@.subrange(0, mid as int),
            parts.1@ == self@.subrange(mid as int, self@.len() as int),
    {
        let mut left: Vec<T> = Vec::new();
        let mut right: Vec<T> = Vec::new();
        let len: usize = self.values.len();
        let mut i: usize = 0;
        while i < mid
            invariant
                i <= mid <= len,
                len == self@.len(),
                left@ == self@.subrange(0, i as int),
            decreases mid - i,
        {
            left.push(self.values[i]);
            i += 1;
            assert(left@ =~= self@.subrange(0, i as int));
        }
        while i < len
            invariant
                mid <= i <= len,
                len == self@.len(),
                right@ == self@.subrange(mid as int, i as int),
            decreases len - i,
        {
            right.push(self.values[i]);
            i += 1;
            assert(right@ =~= self@.subrange(mid as int, i as int));
        }
        (Sample { values: left }, Sample { values: right })
    }
}

/// The waveforms of several channels, by channel number.
#[derive(Clone, Debug)]
pub struct MultiChannelSample<T> {
    samples: Vec<Sample<T>>,
}

impl<T> View for MultiChannelSample<T> {
    type V = Seq<Seq<T>>;

    closed spec fn view(&self) -> Seq<Seq<T>> {
        Seq::new(self.samples@.len(), |c: int| self.samples@[c]@)
    }
}

/// Whether the channels of `x` can be played frame by frame: there is a
/// channel, and none is shorter than the first.
pub open spec fn framed<T>(x: Seq<Seq<T>>) -> bool {
    x.len() > 0 && forall|c: int| 0 <= c < x.len() ==> x[0].len() <= (#[trigger] x[c]).len()
}

/// The channels of `x` frame by frame: the values of the first frame,
/// channel after channel, then those of the second, and so on for as many
/// frames as the first channel has values.
pub open spec fn interleaved<T>(x: Seq<Seq<T>>) -> Seq<T> {
    Seq::new(
        x[0].len() * x.len(),
        |i: int| x[i % (x.len() as int)][i / (x.len() as int)],
    )
}

/// The waveform of each of `samples`, in their order.
pub open spec fn waveforms<T>(samples: Seq<Sample<T>>) -> Seq<Seq<T>> {
    Seq::new(samples.len(), |c: int| samples[c]@)
}

impl<T: Copy> MultiChannelSample<T> {
    pub fn empty() -> (set: MultiChannelSample<T>)
        ensures
            set@ == Seq::<Seq<T>>::empty(),
    {
        let set = MultiChannelSample { samples: Vec::new() };
        assert(set@ =~= Seq::<Seq<T>>::empty());
        set
    }

    pub fn new(samples: Vec<Sample<T>>) -> (set: MultiChannelSample<T>)
        ensures
            set@ == waveforms(samples@),
    {
        MultiChannelSample { samples }
    }

    /// A set of `capacity` channels, each with an empty waveform.
    pub fn with_capacity(capacity: usize) -> (set: MultiChannelSample<T>)
        ensures
            set@ == Seq::new(capacity as nat, |c: int| Seq::<T>::empty()),
    {
        let mut samples: Vec<Sample<T>> = Vec::new();
        let mut c: usize = 0;
        while c < capacity
            invariant
                c <= capacity,
                samples@.len() == c,
                forall|k: int| 0 <= k < c ==> (#[trigger] samples@[k])@ == Seq::<T>::empty(),
            decreases capacity - c,
        {
            samples.push(Sample::empty());
            c += 1;
        }
        let set = MultiChannelSample { samples };
        assert(set@ =~= Seq::new(capacity as nat, |c: int| Seq::<T>::empty()));
        set
    }

    pub fn mono(sample: Sample<T>) -> (set: MultiChannelSample<T>)
        ensures
            set@ == seq![sample@],
    {
        let mut samples: Vec<Sample<T>> = Vec::new();
        samples.push(sample);
        let set = MultiChannelSample { samples };
        assert(set@ =~= seq![sample@]);
        set
    }

    pub fn channels(&self) -> (channels: usize)
        ensures
            channels == self@.len(),
    {
        self.samples.len()
    }

    pub fn samples(&self) -> (samples: &Vec<Sample<T>>)
        ensures
            waveforms(samples@) == self@,
    {
        &self.samples
    }

    pub fn samples_mut(&mut self) -> (samples: &mut Vec<Sample<T>>)
        ensures
            waveforms(samples@) == old(self)@,
            final(self)@ == waveforms(final(samples)@),
    {
        &mut self.samples
    }

    pub fn sample(&self, index: usize) -> (sample: &Sample<T>)
        requires
            index < self@.len(),
        ensures
            sample@ == self@[index as int],
    {
        &self.samples[index]
    }

    pub fn sample_mut(&mut self, index: usize) -> (sample: &mut Sample<T>)
        requires
            index < old(self)@.len(),
        ensures
            sample@ == old(self)@[index as int],
            final(self)@ == old(self)@.update(index as int, final(sample)@),
    {
        &mut self.samples[index]
    }

    /// Tells whether the channels can be played frame by frame.
    pub fn is_framed(&self) -> (ok: bool)
        ensures
            ok == framed(self@),
    {
        let channels: usize = self.samples.len();
        if channels == 0 {
            return false;
        }
        let frames: usize = self.samples[0].len();
        let mut channel: usize = 0;
        while channel < channels
            invariant
                channel <= channels,
                channels == self@.len(),
                frames == self@[0].len(),
                forall|c: int| 0 <= c < channel ==> frames <= (#[trigger] self@[c]).len(),
            decreases channels - channel,
        {
            if self.samples[channel].len() < frames {
                assert(self@[channel as int].len() < self@[0].len());
                return false;
            }
            channel += 1;
        }
        true
    }

    /// The values of all channels frame by frame, as a playback sink or a
    /// file of interleaved values takes them.
    pub fn to_interleaved(&self) -> (out: Vec<T>)
        requires
            framed(self@),
        ensures
            out@ == interleaved(self@),
    {
        let channels: usize = self.samples.len();
        let frames: usize = self.samples[0].len();
        let mut out: Vec<T> = Vec::new();
        let mut frame: usize = 0;
        while frame < frames
            invariant
                frame <= frames,
                channels == self@.len(),
                frames == self@[0].len(),
                framed(self@),
                out@.len() == frame * channels,
                forall|i: int|
                    0 <= i < out@.len() ==> out@[i] == self@[i % (channels as int)][i / (
                    channels as int)],
            decreases frames - frame,
        {
            let mut channel: usize = 0;
            while channel < channels
                invariant
                    channel <= channels,
                    frame < frames,
                    channels == self@.len(),
                    frames == self@[0].len(),
                    framed(self@),
                    out@.len() == frame * channels + channel,
                    forall|i: int|
                        0 <= i < out@.len() ==> out@[i] == self@[i % (channels as int)][i / (
                        channels as int)],
                decreases channels - channel,
            {
                proof {
                    let at = (frame * channels + channel) as int;
                    vstd::arithmetic::div_mod::lemma_fundamental_div_mod_converse(
                        at,
                        channels as int,
                        frame as int,
                        channel as int,
                    );
                    assert(self@[channel as int].len() >= frames);
                }
                out.push(self.samples[channel].value(frame));
                channel += 1;
            }
            assert(frame * channels + channels == (frame + 1) * channels) by (nonlinear_arith);
            frame += 1;
        }
        assert(out@ =~= interleaved(self@));
        out
    }

    pub fn first_channel(&self) -> (sample: &Sample<T>)
        requires
            self@.len() > 0,
        ensures
            sample@ == self@[0],
    {
        &self.samples[0]
    }

    pub fn push(&mut self, sample: Sample<T>)
        ensures
            final(self)@ == old(self)@.push(sample@),
    {
        self.samples.push(sample);
        assert(self@ =~= old(self)@.push(sample@));
    }
}

/// A set of channels with the rate at which they play.
#[derive(Clone, Debug)]
pub struct MusicSample<T> {
    multi_channel_sample: MultiChannelSample<T>,
    sample_rate: Rate,
}

impl<T: Copy> MusicSample<T> {
    /// The waveform of each channel.
    pub closed spec fn waves(&self) -> Seq<Seq<T>> {
        self.multi_channel_sample@
    }

    /// The rate at which the channels play.
    pub closed spec fn clock(&self) -> Rate {
        self.sample_rate
    }

    pub fn new(multi_channel_sample: MultiChannelSample<T>, sample_rate: Rate) -> (clip: MusicSample<T>)
        ensures
            clip.waves() == multi_channel_sample@,
            clip.clock() == sample_rate,
    {
        MusicSample { multi_channel_sample, sample_rate }
    }

    /// A clip of the same rate that holds `multi_channel_sample`.
    pub fn copy(&self, multi_channel_sample: MultiChannelSample<T>) -> (clip: MusicSample<T>)
        ensures
            clip.waves() == multi_channel_sample@,
            clip.clock() == self.clock(),
    {
        MusicSample { multi_channel_sample, sample_rate: self.sample_rate }
    }

    pub fn multi_channel_sample(&self) -> (set: &MultiChannelSample<T>)
        ensures
            set@ == self.waves(),
    {
        &self.multi_channel_sample
    }

    pub fn sample_rate(&self) -> (rate: &Rate)
        ensures
            *rate == self.clock(),
    {
        &self.sample_rate
    }

    pub fn channels(&self) -> (channels: usize)
        ensures
            channels == self.waves().len(),
    {
        self.multi_channel_sample.channels()
    }

    pub fn first_channel_sample(&self) -> (sample: &Sample<T>)
        requires
            self.waves().len() > 0,
        ensures
            sample@ == self.waves()[0],
    {
        self.multi_channel_sample.first_channel()
    }
}

/// The transformations of a set of channels.
#[derive(Clone, Copy, Debug, PartialEq, Eq, Structural)]
pub enum Transformation {
    /// Each channel played backwards.
    Reverse,
    /// Each channel smoothed by a running average.
    Flat,
    /// Each channel at a speed that changes from window to window.
    SpeedChelou,
    /// Each channel at twice the speed.
    DoubleSpeed,
    /// Each channel with a delayed copy of itself added.
    Echo,
    /// The first two channels, each at twice its length.
    DoubleLeft,
}

} // verus!
