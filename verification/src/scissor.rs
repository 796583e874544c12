//! Cutting a set of channels in two at a position in time.

use crate::models::{MultiChannelSample, MusicSample};
use crate::rate::MusicTime;
use vstd::prelude::*;

verus! {

/// Whether a set of channels can be cut at `pos`: it has a channel, and
/// no channel ends before `pos`.
pub open spec fn can_split<T>(x: Seq<Seq<T>>, pos: nat) -> bool {
    x.len() > 0 && forall|c: int| 0 <= c < x.len() ==> pos <= (#[trigger] x[c]).len()
}

/// What each channel of `x` holds before `pos`.
pub open spec fn heads<T>(x: Seq<Seq<T>>, pos: nat) -> Seq<Seq<T>> {
    x.map_values(|s: Seq<T>| s.subrange(0, pos as int))
}

/// What each channel of `x` holds from `pos` on.
pub open spec fn tails<T>(x: Seq<Seq<T>>, pos: nat) -> Seq<Seq<T>> {
    x.map_values(|s: Seq<T>| s.subrange(pos as int, s.len() as int))
}

/// Tells whether a set of channels can be cut at `pos`.
pub fn can_split_at<T: Copy>(multi_channel_sample: &MultiChannelSample<T>, pos: usize) -> (ok: bool)
    ensures
        ok == can_split(multi_channel_sample@, pos as nat),
{
    let channels: usize = multi_channel_sample.channels();
    if channels == 0 {
        return false;
    }
    let mut channel: usize = 0;
    while channel < channels
        invariant
            channel <= channels,
            channels == multi_channel_sample@.len(),
            forall|c: int| 0 <= c < channel ==> pos <= (#[trigger] multi_channel_sample@[c]).len(),
        decreases channels - channel,
    {
        if multi_channel_sample.sample(channel).len() < pos {
            return false;
        }
        channel += 1;
    }
    true
}

/// Cuts every channel at the position of `music_time`.
pub fn split_samples<T: Copy>(
    multi_channel_sample: &MultiChannelSample<T>,
    music_time: MusicTime,
) -> (parts: (MultiChannelSample<T>, MultiChannelSample<T>))
    requires
        can_split(multi_channel_sample@, music_time.frame()),
    ensures
        parts.0@ == heads(multi_channel_sample@, music_time.frame()),
        parts.1@ == tails(multi_channel_sample@, music_time.frame()),
{
    let pos: usize = music_time.pos();
    let channels: usize = multi_channel_sample.channels();
    let mut left: MultiChannelSample<T> = MultiChannelSample::empty();
    let mut right: MultiChannelSample<T> = MultiChannelSample::empty();
    let mut channel: usize = 0;
    while channel < channels
        invariant
            channel <= channels,
            channels == multi_channel_sample@.len(),
            pos == music_time.frame(),
            can_split(multi_channel_sample@, pos as nat),
            left@.len() == channel,
            right@.len() == channel,
            forall|c: int|
                0 <= c < channel ==> left@[c] == multi_channel_sample@[c].subrange(0, pos as int),
            forall|c: int|
                0 <= c < channel ==> right@[c] == multi_channel_sample@[c].subrange(
                    pos as int,
                    multi_channel_sample@[c].len() as int,
                ),
        decreases channels - channel,
    {
        let cut = multi_channel_sample.sample(channel).split_at(pos);
        left.push(cut.0);
        right.push(cut.1);
        channel += 1;
    }
    assert(left@ =~= heads(multi_channel_sample@, pos as nat));
    assert(right@ =~= tails(multi_channel_sample@, pos as nat));
    (left, right)
}

/// Cuts a clip at the position of `music_time` into two clips of its rate.
pub fn split_music_samples<T: Copy>(music_sample: &MusicSample<T>, music_time: MusicTime) -> (parts:
    (MusicSample<T>, MusicSample<T>))
    requires
        can_split(music_sample.waves(), music_time.frame()),
    ensures
        parts.0.waves() == heads(music_sample.waves(), music_time.frame()),
        parts.1.waves() == tails(music_sample.waves(), music_time.frame()),
        parts.0.clock() == music_sample.clock(),
        parts.1.clock() == music_sample.clock(),
{
    let split = split_samples(music_sample.multi_channel_sample(), music_time);
    (music_sample.copy(split.0), music_sample.copy(split.1))
}

/// The two parts of a cut, joined channel by channel, are the set that was
/// cut.
pub proof fn split_parts_join<T>(x: Seq<Seq<T>>, pos: nat)
    requires
        can_split(x, pos),
    ensures
        heads(x, pos).len() == x.len(),
        tails(x, pos).len() == x.len(),
        forall|c: int| 0 <= c < x.len() ==> #[trigger] heads(x, pos)[c] + tails(x, pos)[c] == x[c],
{
    assert forall|c: int| 0 <= c < x.len() implies #[trigger] heads(x, pos)[c] + tails(x, pos)[c]
        == x[c] by {
        assert(pos <= x[c].len());
        assert(x[c].subrange(0, pos as int) + x[c].subrange(pos as int, x[c].len() as int)
            =~= x[c]);
    }
}

} // verus!
