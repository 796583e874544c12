//! A track: one source of the mix, with its storage, its playback cursor
//! and the parameters by which it is mixed.

use crate::scalar::{clamped, one, zero, Scalar};
use vstd::prelude::*;

verus! {

/// What the parameters of a track hold.
pub struct Params<T> {
    /// The factor by which the track is made louder or quieter.
    pub gain: T,
    /// The place between left, at minus one, and right, at one.
    pub pan: T,
    /// Whether the track is silenced.
    pub mute: bool,
    /// Whether the track is to play without those that are not solo.
    pub solo: bool,
    /// Whether the track takes part in the mix at all.
    pub active: bool,
}

/// The parameters by which a track is mixed.
#[derive(Clone, Copy, Debug)]
pub struct TrackParams<T> {
    gain: T,
    pan: T,
    mute: bool,
    solo: bool,
    active: bool,
}

impl<T> View for TrackParams<T> {
    type V = Params<T>;

    closed spec fn view(&self) -> Params<T> {
        Params {
            gain: self.gain,
            pan: self.pan,
            mute: self.mute,
            solo: self.solo,
            active: self.active,
        }
    }
}

impl<T: Copy> TrackParams<T> {
    /// The parameters of an active track.
    pub fn new(gain: T, pan: T, mute: bool, solo: bool) -> (params: TrackParams<T>)
        ensures
            params@ == (Params { gain, pan, mute, solo, active: true }),
    {
        TrackParams { gain, pan, mute, solo, active: true }
    }

    pub fn gain(&self) -> (gain: T)
        ensures
            gain == self@.gain,
    {
        self.gain
    }

    pub fn pan(&self) -> (pan: T)
        ensures
            pan == self@.pan,
    {
        self.pan
    }

    pub fn mute(&self) -> (mute: bool)
        ensures
            mute == self@.mute,
    {
        self.mute
    }

    pub fn solo(&self) -> (solo: bool)
        ensures
            solo == self@.solo,
    {
        self.solo
    }

    pub fn active(&self) -> (active: bool)
        ensures
            active == self@.active,
    {
        self.active
    }

    pub fn set_gain(&mut self, gain: T)
        ensures
            final(self)@ == (Params { gain, ..old(self)@ }),
    {
        self.gain = gain;
    }

    pub fn set_pan(&mut self, pan: T)
        ensures
            final(self)@ == (Params { pan, ..old(self)@ }),
    {
        self.pan = pan;
    }

    pub fn set_mute(&mut self, mute: bool)
        ensures
            final(self)@ == (Params { mute, ..old(self)@ }),
    {
        self.mute = mute;
    }

    pub fn set_solo(&mut self, solo: bool)
        ensures
            final(self)@ == (Params { solo, ..old(self)@ }),
    {
        self.solo = solo;
    }

    pub fn set_active(&mut self, active: bool)
        ensures
            final(self)@ == (Params { active, ..old(self)@ }),
    {
        self.active = active;
    }
}

/// What names a track to the one who fills it: its identity and the size
/// of its storage.
#[derive(Clone, Copy, Debug, PartialEq, Eq, Structural)]
pub struct TrackHandle {
    id: usize,
    frames: usize,
    channels: usize,
}

impl TrackHandle {
    /// The identity, the number of frames and the number of channels.
    pub closed spec fn parts(&self) -> (nat, nat, nat) {
        (self.id as nat, self.frames as nat, self.channels as nat)
    }

    pub fn new(id: usize, frames: usize, channels: usize) -> (handle: TrackHandle)
        ensures
            handle.parts() == (id as nat, frames as nat, channels as nat),
    {
        TrackHandle { id, frames, channels }
    }

    pub fn id(&self) -> (id: usize)
        ensures
            id == self.parts().0,
    {
        self.id
    }

    pub fn frames(&self) -> (frames: usize)
        ensures
            frames == self.parts().1,
    {
        self.frames
    }

    pub fn channels(&self) -> (channels: usize)
        ensures
            channels == self.parts().2,
    {
        self.channels
    }
}

/// What a track holds.
pub struct TrackState<T> {
    /// The identity, which no other track of the engine has.
    pub id: nat,
    /// The values, frame after frame, and within a frame channel after
    /// channel.
    pub data: Seq<T>,
    /// The number of frames.
    pub frames: nat,
    /// The number of channels.
    pub channels: nat,
    /// The parameters by which the track is mixed.
    pub params: Params<T>,
    /// The number of frames that have been played.
    pub cursor: nat,
}

impl<T> TrackState<T> {
    /// The storage holds every channel of every frame, and the cursor does
    /// not lie beyond the last frame.
    pub open spec fn wf(self) -> bool {
        self.data.len() == self.frames * self.channels && self.cursor <= self.frames
    }

    /// The number of frames that a block of `block_size` frames takes from
    /// the track: a whole block, or what is left of the track.
    pub open spec fn frames_to_mix(self, block_size: nat) -> nat {
        if self.frames - self.cursor < block_size {
            (self.frames - self.cursor) as nat
        } else {
            block_size
        }
    }

    /// The track with its cursor at `cursor`.
    pub open spec fn at(self, cursor: nat) -> TrackState<T> {
        TrackState { cursor, ..self }
    }

    /// The track once a block of `block_size` frames has been taken from it.
    pub open spec fn played(self, block_size: nat) -> TrackState<T> {
        self.at(self.cursor + self.frames_to_mix(block_size))
    }

    /// The track with its cursor where a seek to `frame` puts it: at `frame`,
    /// or at the end of the track where `frame` lies beyond it.
    pub open spec fn sought(self, frame: nat) -> TrackState<T> {
        self.at(
            if frame < self.frames {
                frame
            } else {
                self.frames
            },
        )
    }

    /// The track with `values` written into its storage from `offset` on.
    pub open spec fn written(self, values: Seq<T>, offset: nat) -> TrackState<T> {
        TrackState {
            data: Seq::new(
                self.data.len(),
                |i: int|
                    if offset <= i < offset + values.len() {
                        values[i - offset]
                    } else {
                        self.data[i]
                    },
            ),
            ..self
        }
    }

    /// The value that the track gives to channel `channel` of an output
    /// frame, `frame` frames after its cursor: for the second channel of a
    /// track of several channels the second value of the frame, and the
    /// first value of the frame otherwise.
    pub open spec fn source(self, frame: nat, channel: nat) -> T {
        let first = ((self.cursor + frame) * self.channels) as int;
        if channel == 1 && self.channels > 1 {
            self.data[first + 1]
        } else {
            self.data[first]
        }
    }
}

/// The gains of the left and the right channel for a gain and a pan: for
/// an output of two channels the gain times one minus the pan on the left,
/// and times one plus the pan on the right, each factor held between zero
/// and one; the gain itself on both for any other output.
pub open spec fn pan_gains<T: Scalar>(params: Params<T>, out_channels: nat) -> (T, T) {
    if out_channels == 2 {
        (
            params.gain.times_spec(clamped(one::<T>().minus_spec(params.pan), zero(), one())),
            params.gain.times_spec(clamped(one::<T>().plus_spec(params.pan), zero(), one())),
        )
    } else {
        (params.gain, params.gain)
    }
}

/// One source of the mix.
pub struct Track<T> {
    id: usize,
    data: Vec<T>,
    frames: usize,
    channels: usize,
    params: TrackParams<T>,
    cursor: usize,
}

impl<T> View for Track<T> {
    type V = TrackState<T>;

    closed spec fn view(&self) -> TrackState<T> {
        TrackState {
            id: self.id as nat,
            data: self.data@,
            frames: self.frames as nat,
            channels: self.channels as nat,
            params: self.params@,
            cursor: self.cursor as nat,
        }
    }
}

/// What each of `tracks` holds, in their order.
pub open spec fn states<T>(tracks: Seq<Track<T>>) -> Seq<TrackState<T>> {
    Seq::new(tracks.len(), |i: int| tracks[i]@)
}

impl<T: Copy> Track<T> {
    /// A track over the storage `data`, with its cursor at the start.
    pub fn new(id: usize, data: Vec<T>, frames: usize, channels: usize, params: TrackParams<T>) -> (track:
        Track<T>)
        requires
            data@.len() == frames * channels,
        ensures
            track@ == (TrackState {
                id: id as nat,
                data: data@,
                frames: frames as nat,
                channels: channels as nat,
                params: params@,
                cursor: 0,
            }),
            track@.wf(),
    {
        Track { id, data, frames, channels, params, cursor: 0 }
    }

    pub fn id(&self) -> (id: usize)
        ensures
            id == self@.id,
    {
        self.id
    }

    pub fn frames(&self) -> (frames: usize)
        ensures
            frames == self@.frames,
    {
        self.frames
    }

    pub fn channels(&self) -> (channels: usize)
        ensures
            channels == self@.channels,
    {
        self.channels
    }

    pub fn params(&self) -> (params: &TrackParams<T>)
        ensures
            params@ == self@.params,
    {
        &self.params
    }

    pub fn cursor(&self) -> (cursor: usize)
        ensures
            cursor == self@.cursor,
    {
        self.cursor
    }

    pub fn set_cursor(&mut self, cursor: usize)
        requires
            cursor <= old(self)@.frames,
        ensures
            final(self)@ == old(self)@.at(cursor as nat),
    {
        self.cursor = cursor;
    }

    pub fn params_mut(&mut self) -> (params: &mut TrackParams<T>)
        ensures
            params@ == old(self)@.params,
            final(self)@ == (TrackState { params: final(params)@, ..old(self)@ }),
    {
        &mut self.params
    }

    /// The storage: the values frame after frame.
    pub fn as_slice(&self) -> (data: &[T])
        ensures
            data@ == self@.data,
    {
        self.data.as_slice()
    }

    /// Copies `values` into the storage from `offset` on.
    pub fn write(&mut self, values: &[T], offset: usize)
        requires
            offset + values@.len() <= old(self)@.data.len(),
        ensures
            final(self)@ == old(self)@.written(values@, offset as nat),
    {
        let count: usize = values.len();
        let total: usize = self.data.len();
        let mut i: usize = 0;
        while i < count
            invariant
                i <= count,
                count == values@.len(),
                total == old(self)@.data.len(),
                offset + count <= total,
                self.data@.len() == total,
                self.id == old(self).id,
                self.frames == old(self).frames,
                self.channels == old(self).channels,
                self.params == old(self).params,
                self.cursor == old(self).cursor,
                forall|k: int|
                    0 <= k < total ==> self.data@[k] == (if offset <= k < offset + i {
                        values@[k - offset]
                    } else {
                        old(self)@.data[k]
                    }),
            decreases count - i,
        {
            self.data[offset + i] = values[i];
            i += 1;
        }
        assert(self@.data =~= old(self)@.written(values@, offset as nat).data);
    }
}

} // verus!
