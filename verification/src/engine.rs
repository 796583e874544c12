//! The engine: it owns the tracks and the ring buffer, and mixes one block
//! of audio at each call.

use crate::mix::{
    any_solo, audible, changed_no_track, changed_one_track, has_track, listed, mix_through,
    mixed_in, mixed_value, selected, selection, silence, skip_inaudible, EngineState,
};
use crate::ring::RingBuffer;
use crate::scalar::{clamp, clamped, minus_one, one, zero, Scalar};
use crate::track::{pan_gains, states, Params, Track, TrackParams, TrackState};
use vstd::prelude::*;

verus! {

/// Where the mixed blocks go.
#[derive(Clone, Copy, Debug, PartialEq, Eq, Structural)]
pub enum OutputMode {
    /// Value by value into the ring buffer.
    Streaming,
    /// Block after block onto a buffer that grows.
    FullBuffer,
}

/// Why the engine has refused a request.
#[derive(Clone, Copy, Debug, PartialEq, Eq, Structural)]
pub enum EngineError {
    /// No track has the identity that was named.
    TrackNotFound,
    /// The values do not fit into the track's storage from the offset on.
    BufferOverflow,
}

/// The mixing engine.
pub struct Engine<T> {
    sample_rate: u32,
    block_size: usize,
    out_channels: usize,
    tracks: Vec<Track<T>>,
    mix_buf: Vec<T>,
    playing: bool,
    playhead: usize,
    output_mode: OutputMode,
    ring_buffer: RingBuffer<T>,
    full_output: Vec<T>,
    next_id: usize,
}

impl<T: Scalar> View for Engine<T> {
    type V = EngineState<T>;

    closed spec fn view(&self) -> EngineState<T> {
        EngineState {
            sample_rate: self.sample_rate as nat,
            block_size: self.block_size as nat,
            out_channels: self.out_channels as nat,
            tracks: states(self.tracks@),
            mix: self.mix_buf@,
            playing: self.playing,
            playhead: self.playhead as nat,
            mode: self.output_mode,
            ring: self.ring_buffer@,
            full_output: self.full_output@,
            issued: self.next_id as nat,
        }
    }
}

/// A buffer of `len` zeros.
fn zeros<T: Scalar>(len: usize) -> (out: Vec<T>)
    ensures
        out@ == silence::<T>(len as nat),
{
    let zero_value: T = T::from_int(0);
    let mut out: Vec<T> = Vec::new();
    let mut i: usize = 0;
    while i < len
        invariant
            i <= len,
            zero_value == zero::<T>(),
            out@.len() == i,
            forall|k: int| 0 <= k < i ==> out@[k] == zero::<T>(),
        decreases len - i,
    {
        out.push(zero_value);
        i += 1;
    }
    assert(out@ =~= silence::<T>(len as nat));
    out
}

/// Appends `values` to `buffer`.
fn append<T: Copy>(buffer: &mut Vec<T>, values: &[T])
    ensures
        final(buffer)@ == old(buffer)@ + values@,
{
    let count: usize = values.len();
    let mut i: usize = 0;
    while i < count
        invariant
            i <= count,
            count == values@.len(),
            buffer@ == old(buffer)@ + values@.subrange(0, i as int),
        decreases count - i,
    {
        buffer.push(values[i]);
        i += 1;
        assert(buffer@ =~= old(buffer)@ + values@.subrange(0, i as int));
    }
    assert(values@.subrange(0, count as int) =~= values@);
}

/// The gains of the left and the right channel for the parameters of a
/// track.
fn get_gain_pan<T: Scalar>(params: &TrackParams<T>, out_channels: usize) -> (gains: (T, T))
    ensures
        gains == pan_gains(params@, out_channels as nat),
{
    let gain: T = params.gain();
    let pan: T = params.pan();
    if out_channels == 2 {
        let unit: T = T::from_int(1);
        let none: T = T::from_int(0);
        let l: T = clamp(unit.minus(pan), none, unit);
        let r: T = clamp(unit.plus(pan), none, unit);
        (gain.times(l), gain.times(r))
    } else {
        (gain, gain)
    }
}

/// Mixes one block of `track` into `mix`.
fn mix_track<T: Scalar>(
    mix: &mut Vec<T>,
    track: &Track<T>,
    gains: (T, T),
    block_size: usize,
    out_channels: usize,
)
    requires
        track@.wf(),
        gains == pan_gains(track@.params, out_channels as nat),
        old(mix)@.len() == block_size * out_channels,
    ensures
        final(mix)@ == mixed_in(old(mix)@, track@, block_size as nat, out_channels as nat),
{
    let channels: usize = track.channels();
    let cursor: usize = track.cursor();
    let frames: usize = track.frames();
    let frames_to_mix: usize = if frames - cursor < block_size {
        frames - cursor
    } else {
        block_size
    };
    let data: &[T] = track.as_slice();
    let total: usize = data.len();
    let len: usize = mix.len();
    let mut j: usize = 0;
    while j < len
        invariant
            j <= len,
            total == frames * channels,
            len == old(mix)@.len(),
            mix@.len() == len,
            len == block_size * out_channels,
            track@.wf(),
            channels == track@.channels,
            cursor == track@.cursor,
            frames == track@.frames,
            data@ == track@.data,
            frames_to_mix == track@.frames_to_mix(block_size as nat),
            gains == pan_gains(track@.params, out_channels as nat),
            forall|k: int|
                0 <= k < len ==> mix@[k] == (if k < j {
                    mixed_value(old(mix)@, track@, block_size as nat, out_channels as nat, k)
                } else {
                    old(mix)@[k]
                }),
        decreases len - j,
    {
        assert(out_channels > 0) by (nonlinear_arith)
            requires
                j < len,
                len == block_size * out_channels,
        ;
        let frame: usize = j / out_channels;
        let channel: usize = j % out_channels;
        if channels > 0 && frame < frames_to_mix && (channel == 0 || (out_channels == 2 && channel
            == 1)) {
            assert((cursor + frame + 1) * channels <= frames * channels) by (nonlinear_arith)
                requires
                    cursor + frame + 1 <= frames,
                    channels >= 0,
            ;
            assert((cursor + frame + 1) * channels == (cursor + frame) * channels + channels)
                by (nonlinear_arith);
            let first: usize = (cursor + frame) * channels;
            let value: T = if channel == 1 && channels > 1 {
                data[first + 1]
            } else {
                data[first]
            };
            let gain: T = if channel == 0 {
                gains.0
            } else {
                gains.1
            };
            let mixed: T = mix[j].plus(value.times(gain));
            mix[j] = mixed;
        }
        j += 1;
    }
    assert(mix@ =~= mixed_in(old(mix)@, track@, block_size as nat, out_channels as nat));
}

/// Moves the cursor of every track to `frame`, or to the end of the track
/// where `frame` lies beyond it.
fn seek_tracks<T: Copy>(tracks: &mut Vec<Track<T>>, frame: usize)
    requires
        forall|i: int| 0 <= i < old(tracks)@.len() ==> (#[trigger] old(tracks)@[i])@.wf(),
    ensures
        final(tracks)@.len() == old(tracks)@.len(),
        forall|i: int|
            0 <= i < old(tracks)@.len() ==> (#[trigger] final(tracks)@[i])@ == old(
                tracks,
            )@[i]@.sought(frame as nat),
{
    let count: usize = tracks.len();
    let mut idx: usize = 0;
    while idx < count
        invariant
            idx <= count,
            count == old(tracks)@.len(),
            tracks@.len() == count,
            forall|i: int| 0 <= i < count ==> (#[trigger] old(tracks)@[i])@.wf(),
            forall|i: int|
                0 <= i < count ==> (#[trigger] tracks@[i])@ == (if i < idx {
                    old(tracks)@[i]@.sought(frame as nat)
                } else {
                    old(tracks)@[i]@
                }),
        decreases count - idx,
    {
        assert(old(tracks)@[idx as int]@.wf());
        let frames: usize = tracks[idx].frames();
        let cursor: usize = if frame < frames {
            frame
        } else {
            frames
        };
        tracks[idx].set_cursor(cursor);
        idx += 1;
    }
}

/// Mixes one block of each track that `indices` names and that is not mute
/// into `mix`, in the order of `indices`, and moves the cursor of each by the
/// frames that it gave.
fn mix_selected<T: Scalar>(
    tracks: &mut Vec<Track<T>>,
    mix: &mut Vec<T>,
    indices: &Vec<usize>,
    block_size: usize,
    out_channels: usize,
)
    requires
        old(mix)@.len() == block_size * out_channels,
        forall|i: int| 0 <= i < old(tracks)@.len() ==> (#[trigger] states(old(tracks)@)[i]).wf(),
        selection(states(old(tracks)@), indices@),
    ensures
        final(tracks)@.len() == old(tracks)@.len(),
        final(mix)@ == mix_through(
            states(old(tracks)@),
            old(mix)@,
            block_size as nat,
            out_channels as nat,
            old(tracks)@.len(),
        ),
        forall|i: int|
            0 <= i < old(tracks)@.len() ==> (#[trigger] final(tracks)@[i])@ == (if audible(
                states(old(tracks)@),
                i,
            ) {
                old(tracks)@[i]@.played(block_size as nat)
            } else {
                old(tracks)@[i]@
            }),
{
    let ghost tracks0 = states(old(tracks)@);
    let ghost start = old(mix)@;
    let ghost block = block_size as nat;
    let ghost out = out_channels as nat;
    let count: usize = indices.len();
    let ghost mut done: nat = 0;
    let mut k: usize = 0;
    while k < count
        invariant
            k <= count,
            count == indices@.len(),
            tracks0 == states(old(tracks)@),
            start == old(mix)@,
            block == block_size,
            out == out_channels,
            tracks@.len() == tracks0.len(),
            mix@.len() == block_size * out_channels,
            forall|i: int| 0 <= i < tracks0.len() ==> (#[trigger] tracks0[i]).wf(),
            selection(tracks0, indices@),
            done <= tracks0.len(),
            k < count ==> done <= indices@[k as int],
            forall|i: int|
                done <= i < tracks0.len() && selected(tracks0, i) ==> listed(indices@, k as int, i),
            mix@ == mix_through(tracks0, start, block, out, done),
            forall|i: int|
                0 <= i < tracks0.len() ==> (#[trigger] tracks@[i])@ == (if i < done && audible(
                    tracks0,
                    i,
                ) {
                    tracks0[i].played(block)
                } else {
                    tracks0[i]
                }),
        decreases count - k,
    {
        let idx: usize = indices[k];
        proof {
            assert forall|i: int| done <= i < idx implies !audible(tracks0, i) by {
                if selected(tracks0, i) {
                    assert(listed(indices@, k as int, i));
                    let m = choose|m: int| k <= m < indices@.len() && indices@[m] == i;
                    if m > k {
                        assert(indices@[k as int] < indices@[m]);
                    }
                }
            }
            skip_inaudible(tracks0, start, block, out, done, idx as nat);
            assert(tracks@[idx as int]@ == tracks0[idx as int]);
            assert(tracks0[idx as int].wf());
        }
        if !tracks[idx].params().mute() {
            let gains = get_gain_pan(tracks[idx].params(), out_channels);
            mix_track(mix, &tracks[idx], gains, block_size, out_channels);
            let cursor: usize = tracks[idx].cursor();
            let frames: usize = tracks[idx].frames();
            let frames_to_mix: usize = if frames - cursor < block_size {
                frames - cursor
            } else {
                block_size
            };
            tracks[idx].set_cursor(cursor + frames_to_mix);
        }
        proof {
            assert(mix@ == mix_through(tracks0, start, block, out, (idx + 1) as nat));
            assert forall|i: int|
                idx + 1 <= i < tracks0.len() && selected(tracks0, i) implies listed(
                indices@,
                k + 1,
                i,
            ) by {
                assert(listed(indices@, k as int, i));
                let m = choose|m: int| k <= m < indices@.len() && indices@[m] == i;
                assert(m != k);
            }
            if k + 1 < count {
                assert(indices@[k as int] < indices@[k + 1]);
            }
            done = (idx + 1) as nat;
        }
        k += 1;
    }
    proof {
        assert forall|i: int| done <= i < tracks0.len() implies !audible(tracks0, i) by {
            if selected(tracks0, i) {
                assert(listed(indices@, k as int, i));
            }
        }
        skip_inaudible(tracks0, start, block, out, done, tracks0.len());
    }
}

impl<T: Scalar> Engine<T> {
    /// The engine is valid.
    pub open spec fn wf(&self) -> bool {
        self@.wf()
    }

    /// A paused engine without tracks, which streams into `ring_buffer`.
    pub fn new(sample_rate: u32, out_channels: usize, block_size: usize, ring_buffer: RingBuffer<T>) -> (engine:
        Engine<T>)
        requires
            block_size * out_channels <= usize::MAX,
            ring_buffer.wf(),
        ensures
            engine.wf(),
            engine@ == (EngineState {
                sample_rate: sample_rate as nat,
                block_size: block_size as nat,
                out_channels: out_channels as nat,
                tracks: Seq::empty(),
                mix: silence(block_size as nat * out_channels as nat),
                playing: false,
                playhead: 0,
                mode: OutputMode::Streaming,
                ring: ring_buffer@,
                full_output: Seq::empty(),
                issued: 0,
            }),
    {
        let size: usize = block_size * out_channels;
        let engine = Engine {
            sample_rate,
            block_size,
            out_channels,
            tracks: Vec::new(),
            mix_buf: zeros(size),
            playing: false,
            playhead: 0,
            output_mode: OutputMode::Streaming,
            ring_buffer,
            full_output: Vec::new(),
            next_id: 0,
        };
        assert(engine@.tracks =~= Seq::<TrackState<T>>::empty());
        engine
    }

    pub fn play(&mut self)
        ensures
            final(self)@ == (EngineState { playing: true, ..old(self)@ }),
    {
        self.playing = true;
    }

    pub fn pause(&mut self)
        ensures
            final(self)@ == (EngineState { playing: false, ..old(self)@ }),
    {
        self.playing = false;
    }

    pub fn is_playing(&self) -> (playing: bool)
        ensures
            playing == self@.playing,
    {
        self.playing
    }

    pub fn sample_rate(&self) -> (sample_rate: u32)
        ensures
            sample_rate == self@.sample_rate,
    {
        self.sample_rate
    }

    pub fn block_size(&self) -> (block_size: usize)
        ensures
            block_size == self@.block_size,
    {
        self.block_size
    }

    pub fn out_channels(&self) -> (out_channels: usize)
        ensures
            out_channels == self@.out_channels,
    {
        self.out_channels
    }

    pub fn playhead(&self) -> (playhead: usize)
        ensures
            playhead == self@.playhead,
    {
        self.playhead
    }

    /// The number of identities that were given to tracks; the next track
    /// gets this number as its identity.
    pub fn issued_tracks(&self) -> (issued: usize)
        ensures
            issued == self@.issued,
    {
        self.next_id
    }

    pub fn ring_buffer_len(&self) -> (len: usize)
        ensures
            len == self@.ring.capacity(),
    {
        self.ring_buffer.len()
    }

    /// The place of the track of identity `track_id` among the tracks.
    fn find_track(&self, track_id: usize) -> (found: Option<usize>)
        ensures
            match found {
                Some(idx) => idx < self@.tracks.len() && self@.tracks[idx as int].id == track_id,
                None => !has_track(self@.tracks, track_id as nat),
            },
    {
        let count: usize = self.tracks.len();
        let mut idx: usize = 0;
        while idx < count
            invariant
                idx <= count,
                count == self.tracks@.len(),
                forall|i: int| 0 <= i < idx ==> self@.tracks[i].id != track_id,
            decreases count - idx,
        {
            if self.tracks[idx].id() == track_id {
                return Some(idx);
            }
            idx += 1;
        }
        None
    }

    /// Moves the playhead to `frame`, and the cursor of every track to
    /// `frame` or to the track's end, whether the engine is playing or not.
    pub fn seek(&mut self, frame: usize)
        requires
            old(self).wf(),
        ensures
            final(self).wf(),
            final(self)@ == old(self)@.sought(frame as nat),
    {
        self.playhead = frame;
        proof {
            assert forall|i: int| 0 <= i < self.tracks@.len() implies (
            #[trigger] self.tracks@[i])@.wf() by {
                assert(old(self)@.tracks[i].wf());
            }
        }
        seek_tracks(&mut self.tracks, frame);
        proof {
            assert(self@.tracks =~= old(self)@.sought(frame as nat).tracks);
            old(self)@.sought_is_valid(frame as nat);
        }
    }

    /// Takes the track of identity `track_id` into the mix, or out of it.
    /// Without such a track nothing changes.
    pub fn set_track_active(&mut self, track_id: usize, active: bool)
        requires
            old(self).wf(),
        ensures
            final(self).wf(),
            final(self)@ == old(self)@.with_params(
                track_id as nat,
                |p: Params<T>| Params { active, ..p },
            ),
    {
        let ghost change = |t: TrackState<T>|
            TrackState { params: (|p: Params<T>| Params { active, ..p })(t.params), ..t };
        match self.find_track(track_id) {
            Some(idx) => {
                self.tracks[idx].params_mut().set_active(active);
                proof {
                    assert(self@.tracks =~= old(self)@.tracks.update(
                        idx as int,
                        change(old(self)@.tracks[idx as int]),
                    ));
                    changed_one_track(old(self)@, self@, idx as int, change);
                }
            },
            None => {
                proof {
                    changed_no_track(old(self)@, track_id as nat, change);
                }
            },
        }
    }

    /// Sets the gain of the track of identity `track_id`; no gain is refused.
    /// Without such a track nothing changes.
    pub fn set_track_gain(&mut self, track_id: usize, gain: T)
        requires
            old(self).wf(),
        ensures
            final(self).wf(),
            final(self)@ == old(self)@.with_params(
                track_id as nat,
                |p: Params<T>| Params { gain, ..p },
            ),
    {
        let ghost change = |t: TrackState<T>|
            TrackState { params: (|p: Params<T>| Params { gain, ..p })(t.params), ..t };
        match self.find_track(track_id) {
            Some(idx) => {
                self.tracks[idx].params_mut().set_gain(gain);
                proof {
                    assert(self@.tracks =~= old(self)@.tracks.update(
                        idx as int,
                        change(old(self)@.tracks[idx as int]),
                    ));
                    changed_one_track(old(self)@, self@, idx as int, change);
                }
            },
            None => {
                proof {
                    changed_no_track(old(self)@, track_id as nat, change);
                }
            },
        }
    }

    /// Silences the track of identity `track_id`, or lets it be heard again.
    /// Without such a track nothing changes.
    pub fn set_track_mute(&mut self, track_id: usize, mute: bool)
        requires
            old(self).wf(),
        ensures
            final(self).wf(),
            final(self)@ == old(self)@.with_params(
                track_id as nat,
                |p: Params<T>| Params { mute, ..p },
            ),
    {
        let ghost change = |t: TrackState<T>|
            TrackState { params: (|p: Params<T>| Params { mute, ..p })(t.params), ..t };
        match self.find_track(track_id) {
            Some(idx) => {
                self.tracks[idx].params_mut().set_mute(mute);
                proof {
                    assert(self@.tracks =~= old(self)@.tracks.update(
                        idx as int,
                        change(old(self)@.tracks[idx as int]),
                    ));
                    changed_one_track(old(self)@, self@, idx as int, change);
                }
            },
            None => {
                proof {
                    changed_no_track(old(self)@, track_id as nat, change);
                }
            },
        }
    }

    /// Makes the track of identity `track_id` solo, or ends that.
    /// Without such a track nothing changes.
    pub fn set_track_solo(&mut self, track_id: usize, solo: bool)
        requires
            old(self).wf(),
        ensures
            final(self).wf(),
            final(self)@ == old(self)@.with_params(
                track_id as nat,
                |p: Params<T>| Params { solo, ..p },
            ),
    {
        let ghost change = |t: TrackState<T>|
            TrackState { params: (|p: Params<T>| Params { solo, ..p })(t.params), ..t };
        match self.find_track(track_id) {
            Some(idx) => {
                self.tracks[idx].params_mut().set_solo(solo);
                proof {
                    assert(self@.tracks =~= old(self)@.tracks.update(
                        idx as int,
                        change(old(self)@.tracks[idx as int]),
                    ));
                    changed_one_track(old(self)@, self@, idx as int, change);
                }
            },
            None => {
                proof {
                    changed_no_track(old(self)@, track_id as nat, change);
                }
            },
        }
    }

    /// Sets the pan of the track of identity `track_id` to `pan` held
    /// between minus one and one.
    /// Without such a track nothing changes.
    pub fn set_track_pan(&mut self, track_id: usize, pan: T)
        requires
            old(self).wf(),
        ensures
            final(self).wf(),
            final(self)@ == old(self)@.with_params(
                track_id as nat,
                |p: Params<T>| Params { pan: clamped(pan, minus_one(), one()), ..p },
            ),
    {
        let ghost held = clamped(pan, minus_one(), one());
        let ghost change = |t: TrackState<T>|
            TrackState { params: (|p: Params<T>| Params { pan: held, ..p })(t.params), ..t };
        match self.find_track(track_id) {
            Some(idx) => {
                let pan: T = clamp(pan, T::from_int(-1), T::from_int(1));
                self.tracks[idx].params_mut().set_pan(pan);
                proof {
                    assert(self@.tracks =~= old(self)@.tracks.update(
                        idx as int,
                        change(old(self)@.tracks[idx as int]),
                    ));
                    changed_one_track(old(self)@, self@, idx as int, change);
                }
            },
            None => {
                proof {
                    changed_no_track(old(self)@, track_id as nat, change);
                }
            },
        }
    }

    /// Copies `buffer` into the storage of the track of identity `track_id`,
    /// from `offset` on. Values that do not all fit are refused, and none of
    /// them is copied.
    pub fn write_to_track(&mut self, track_id: usize, buffer: &[T], offset: usize) -> (result: Result<
        (),
        EngineError,
    >)
        requires
            old(self).wf(),
        ensures
            final(self).wf(),
            match result {
                Ok(()) => {
                    &&& final(self)@ == old(self)@.with_track(
                        track_id as nat,
                        |t: TrackState<T>| t.written(buffer@, offset as nat),
                    )
                    &&& old(self)@.fits(track_id as nat, buffer@.len(), offset as nat)
                },
                Err(EngineError::TrackNotFound) => {
                    &&& final(self)@ == old(self)@
                    &&& !has_track(old(self)@.tracks, track_id as nat)
                },
                Err(EngineError::BufferOverflow) => {
                    &&& final(self)@ == old(self)@
                    &&& has_track(old(self)@.tracks, track_id as nat)
                    &&& !old(self)@.fits(track_id as nat, buffer@.len(), offset as nat)
                },
            },
    {
        let ghost change = |t: TrackState<T>| t.written(buffer@, offset as nat);
        match self.find_track(track_id) {
            Some(idx) => {
                proof {
                    old(self)@.found_is_the_track(idx as int);
                    assert(old(self)@.tracks[idx as int].wf());
                }
                let total: usize = self.tracks[idx].as_slice().len();
                if buffer.len() > total || offset > total - buffer.len() {
                    return Err(EngineError::BufferOverflow);
                }
                self.tracks[idx].write(buffer, offset);
                proof {
                    assert(self@.tracks =~= old(self)@.tracks.update(
                        idx as int,
                        change(old(self)@.tracks[idx as int]),
                    ));
                    changed_one_track(old(self)@, self@, idx as int, change);
                }
                Ok(())
            },
            None => Err(EngineError::TrackNotFound),
        }
    }

    /// Adds a track of `frames` frames of `channels` channels, with storage
    /// that is all zero, and returns its identity. No track had it before, and
    /// none will have it again.
    pub fn add_track(&mut self, frames: usize, channels: usize) -> (id: usize)
        requires
            old(self).wf(),
            frames * channels <= usize::MAX,
            old(self)@.issued < usize::MAX,
        ensures
            final(self).wf(),
            id == old(self)@.issued,
            final(self)@ == old(self)@.with_new_track(frames as nat, channels as nat),
    {
        let total_len: usize = frames * channels;
        let id: usize = self.next_id;
        let params: TrackParams<T> = TrackParams::new(T::from_int(1), T::from_int(0), false, false);
        let track: Track<T> = Track::new(id, zeros(total_len), frames, channels, params);
        self.tracks.push(track);
        self.next_id = id + 1;
        proof {
            let after = old(self)@.with_new_track(frames as nat, channels as nat);
            assert(self@.tracks =~= after.tracks);
            assert forall|i: int| 0 <= i < self@.tracks.len() implies (
            #[trigger] self@.tracks[i]).wf() && self@.tracks[i].id < self@.issued by {
                if i < old(self)@.tracks.len() {
                    assert(old(self)@.tracks[i].wf());
                }
            }
            assert forall|i: int, j: int| 0 <= i < j < self@.tracks.len() implies (
            #[trigger] self@.tracks[i]).id != (#[trigger] self@.tracks[j]).id by {
                if j < old(self)@.tracks.len() {
                    assert(old(self)@.tracks[i].id != old(self)@.tracks[j].id);
                } else {
                    assert(old(self)@.tracks[i].id < old(self)@.issued);
                }
            }
        }
        id
    }

    /// Removes the track of identity `track_id` with its storage. The other
    /// tracks keep their identities and their order. Without such a track
    /// nothing changes.
    pub fn remove_track(&mut self, track_id: usize)
        requires
            old(self).wf(),
        ensures
            final(self).wf(),
            final(self)@ == old(self)@.without_track(track_id as nat),
            !has_track(final(self)@.tracks, track_id as nat),
    {
        match self.find_track(track_id) {
            Some(idx) => {
                let removed = self.tracks.remove(idx);
                proof {
                    old(self)@.the_track_is_at(idx as int);
                    assert(self@.tracks =~= old(self)@.tracks.remove(idx as int));
                    old(self)@.removal_keeps_the_rest(idx as int);
                }
            },
            None => {
                proof {
                    old(self)@.no_track_is_nowhere(track_id as nat);
                }
            },
        }
    }

    /// Sends the output to `mode`, and clears it: the playhead goes back to
    /// zero, the full output is emptied, and the mix buffer is set to zero.
    pub fn set_output_mode(&mut self, mode: OutputMode)
        requires
            old(self).wf(),
        ensures
            final(self).wf(),
            final(self)@ == old(self)@.with_output_mode(mode),
    {
        self.clear_output();
        self.output_mode = mode;
    }

    /// Clears the output.
    fn clear_output(&mut self)
        requires
            old(self).wf(),
        ensures
            final(self).wf(),
            final(self)@ == old(self)@.with_output_mode(old(self)@.mode),
    {
        self.full_output = Vec::new();
        self.playhead = 0;
        self.mix_buf = zeros(self.mix_buf.len());
    }

    /// A copy of all that was mixed in the full-buffer mode since the output
    /// was last cleared.
    pub fn get_full_ouput(&self) -> (output: Vec<T>)
        ensures
            output@ == self@.full_output,
    {
        let mut output: Vec<T> = Vec::new();
        append(&mut output, self.full_output.as_slice());
        assert(output@ =~= self.full_output@);
        output
    }

    /// Reads `count` values from the ring buffer, as a streaming consumer
    /// does.
    pub fn read_from_ring_buffer(&mut self, count: usize) -> (values: Vec<T>)
        requires
            old(self).wf(),
        ensures
            final(self).wf(),
            final(self)@ == (EngineState {
                ring: old(self)@.ring.advanced_by(count as nat),
                ..old(self)@
            }),
            values@.len() == count,
            forall|k: nat|
                k < count ==> values@[k as int] == #[trigger] old(self)@.ring.advanced_by(k).front(),
    {
        let mut values: Vec<T> = Vec::new();
        let mut i: usize = 0;
        while i < count
            invariant
                i <= count,
                self.wf(),
                self@ == (EngineState { ring: old(self)@.ring.advanced_by(i as nat), ..old(self)@ }),
                values@.len() == i,
                forall|k: nat|
                    k < i ==> values@[k as int] == #[trigger] old(self)@.ring.advanced_by(k).front(),
            decreases count - i,
        {
            let ghost before = self@;
            let value: T = self.ring_buffer.read();
            values.push(value);
            i += 1;
            assert(self@ == (EngineState { ring: before.ring.advanced(), ..before }));
        }
        values
    }

    /// The places of the tracks that are selected for the mix, in order:
    /// the active tracks, or those of them that are solo if any is.
    pub fn get_active_track_indices(&self) -> (indices: Vec<usize>)
        ensures
            selection(self@.tracks, indices@),
    {
        let count: usize = self.tracks.len();
        let mut solo: bool = false;
        let mut i: usize = 0;
        while i < count
            invariant
                i <= count,
                count == self.tracks@.len(),
                solo <==> exists|t: int|
                    0 <= t < i && (#[trigger] self@.tracks[t]).params.active
                        && self@.tracks[t].params.solo,
            decreases count - i,
        {
            assert(self@.tracks[i as int] == self.tracks@[i as int]@);
            if self.tracks[i].params().active() && self.tracks[i].params().solo() {
                solo = true;
            }
            i += 1;
        }
        assert(solo == any_solo(self@.tracks));
        let mut indices: Vec<usize> = Vec::new();
        let mut i: usize = 0;
        while i < count
            invariant
                i <= count,
                count == self.tracks@.len(),
                solo == any_solo(self@.tracks),
                forall|k: int|
                    0 <= k < indices@.len() ==> (#[trigger] indices@[k]) < i && selected(
                        self@.tracks,
                        indices@[k] as int,
                    ),
                forall|k: int, m: int|
                    0 <= k < m < indices@.len() ==> (#[trigger] indices@[k]) < (
                    #[trigger] indices@[m]),
                forall|t: int| 0 <= t < i && selected(self@.tracks, t) ==> listed(indices@, 0, t),
            decreases count - i,
        {
            assert(self@.tracks[i as int] == self.tracks@[i as int]@);
            if self.tracks[i].params().active() && (!solo || self.tracks[i].params().solo()) {
                let ghost before = indices@;
                indices.push(i);
                proof {
                    assert forall|t: int| 0 <= t <= i && selected(self@.tracks, t) implies listed(
                        indices@,
                        0,
                        t,
                    ) by {
                        if t < i {
                            assert(listed(before, 0, t));
                            let m = choose|m: int| 0 <= m < before.len() && before[m] == t;
                            assert(indices@[m] == t);
                        } else {
                            assert(indices@[before.len() as int] == i);
                        }
                    }
                }
            }
            i += 1;
        }
        indices
    }

    /// Mixes the next block and hands it to the output, if the engine is
    /// playing; a paused engine does nothing.
    ///
    /// The mix buffer is set to zero. The tracks that are selected and not
    /// mute are mixed into it one after the other, each from its cursor on and
    /// with its gains, by plain addition; each moves its cursor by the frames
    /// it gave. The block then goes to the ring buffer value by value, or onto
    /// the full output, and the playhead moves by one block.
    pub fn process_block(&mut self)
        requires
            old(self).wf(),
            old(self)@.playing ==> old(self)@.playhead + old(self)@.block_size <= usize::MAX,
        ensures
            final(self).wf(),
            final(self)@ == old(self)@.processed(),
    {
        if !self.playing {
            return;
        }
        self.mix_buf = zeros(self.mix_buf.len());
        let indices: Vec<usize> = self.get_active_track_indices();
        proof {
            assert(self@.tracks == old(self)@.tracks);
            assert forall|i: int| 0 <= i < self.tracks@.len() implies (
            #[trigger] states(self.tracks@)[i]).wf() by {
                assert(old(self)@.tracks[i].wf());
            }
        }
        mix_selected(
            &mut self.tracks,
            &mut self.mix_buf,
            &indices,
            self.block_size,
            self.out_channels,
        );
        match self.output_mode {
            OutputMode::Streaming => self.ring_buffer.push_all(self.mix_buf.as_slice()),
            OutputMode::FullBuffer => append(&mut self.full_output, self.mix_buf.as_slice()),
        }
        self.playhead += self.block_size;
        proof {
            assert(self@.tracks =~= old(self)@.processed().tracks);
            old(self)@.processed_is_valid();
        }
    }
}

} // verus!
