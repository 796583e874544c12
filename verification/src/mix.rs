//! The rules of the mix: what an engine holds, and what each request makes
//! of it.

use crate::engine::OutputMode;
use crate::ring::Ring;
use crate::scalar::{one, zero, Scalar};
use crate::track::{pan_gains, Params, TrackState};
use vstd::prelude::*;

verus! {

/// `len` times zero.
pub open spec fn silence<T: Scalar>(len: nat) -> Seq<T> {
    Seq::new(len, |i: int| zero::<T>())
}

/// The parameters of a new track: gain one, pan at the centre, neither
/// mute nor solo, active.
pub open spec fn default_params<T: Scalar>() -> Params<T> {
    Params { gain: one(), pan: zero(), mute: false, solo: false, active: true }
}

/// Whether a track has the identity `id`.
pub open spec fn has_track<T>(tracks: Seq<TrackState<T>>, id: nat) -> bool {
    exists|i: int| 0 <= i < tracks.len() && (#[trigger] tracks[i]).id == id
}

/// Whether some active track is solo.
pub open spec fn any_solo<T>(tracks: Seq<TrackState<T>>) -> bool {
    exists|i: int|
        0 <= i < tracks.len() && (#[trigger] tracks[i]).params.active && tracks[i].params.solo
}

/// Whether track `i` is selected for the mix: it is active, and it is solo
/// if any active track is.
pub open spec fn selected<T>(tracks: Seq<TrackState<T>>, i: int) -> bool {
    tracks[i].params.active && (any_solo(tracks) ==> tracks[i].params.solo)
}

/// Whether track `i` is heard in the mix: it is selected and not mute.
pub open spec fn audible<T>(tracks: Seq<TrackState<T>>, i: int) -> bool {
    selected(tracks, i) && !tracks[i].params.mute
}

/// The value at index `j` of the mix buffer once `track` has been mixed
/// into `mix`. The index names a frame of the block and an output channel.
/// Where the track has that frame left, and the channel is the first, or the
/// second of an output of two, the track's value for it, times the gain of
/// that channel, is added to what the buffer held. Elsewhere the buffer keeps
/// its value.
pub open spec fn mixed_value<T: Scalar>(
    mix: Seq<T>,
    track: TrackState<T>,
    block_size: nat,
    out_channels: nat,
    j: int,
) -> T {
    let frame = j / (out_channels as int);
    let channel = j % (out_channels as int);
    let gains = pan_gains(track.params, out_channels);
    if track.channels > 0 && frame < track.frames_to_mix(block_size) && (channel == 0 || (
    out_channels == 2 && channel == 1)) {
        mix[j].plus_spec(
            track.source(frame as nat, channel as nat).times_spec(
                if channel == 0 {
                    gains.0
                } else {
                    gains.1
                },
            ),
        )
    } else {
        mix[j]
    }
}

/// The mix buffer once `track` has been mixed into `mix`.
pub open spec fn mixed_in<T: Scalar>(
    mix: Seq<T>,
    track: TrackState<T>,
    block_size: nat,
    out_channels: nat,
) -> Seq<T> {
    Seq::new(mix.len(), |j: int| mixed_value(mix, track, block_size, out_channels, j))
}

/// The mix buffer once the audible ones of the first `n` tracks have been
/// mixed into `start`, one after the other.
pub open spec fn mix_through<T: Scalar>(
    tracks: Seq<TrackState<T>>,
    start: Seq<T>,
    block_size: nat,
    out_channels: nat,
    n: nat,
) -> Seq<T>
    decreases n,
{
    if n == 0 {
        start
    } else {
        let before = mix_through(tracks, start, block_size, out_channels, (n - 1) as nat);
        if audible(tracks, n - 1) {
            mixed_in(before, tracks[n - 1], block_size, out_channels)
        } else {
            before
        }
    }
}

/// Whether the place `i` stands in `indices` at `from` or after it.
pub open spec fn listed(indices: Seq<usize>, from: int, i: int) -> bool {
    exists|m: int| from <= m < indices.len() && #[trigger] indices[m] == i
}

/// Whether `indices` names the tracks that are selected for the mix: each
/// of them once, by its place, in the order of the places.
pub open spec fn selection<T>(tracks: Seq<TrackState<T>>, indices: Seq<usize>) -> bool {
    &&& forall|k: int|
        0 <= k < indices.len() ==> (#[trigger] indices[k]) < tracks.len() && selected(
            tracks,
            indices[k] as int,
        )
    &&& forall|k: int, m: int|
        0 <= k < m < indices.len() ==> (#[trigger] indices[k]) < (#[trigger] indices[m])
    &&& forall|i: int| 0 <= i < tracks.len() && selected(tracks, i) ==> listed(indices, 0, i)
}

/// What the engine holds.
pub struct EngineState<T> {
    /// The rate of the output, in Hz.
    pub sample_rate: nat,
    /// The number of frames of a block.
    pub block_size: nat,
    /// The number of channels of the output.
    pub out_channels: nat,
    /// The tracks, in the order in which they are mixed.
    pub tracks: Seq<TrackState<T>>,
    /// The block that was mixed last.
    pub mix: Seq<T>,
    /// Whether the engine is playing; it is paused otherwise.
    pub playing: bool,
    /// The number of frames of the blocks that were processed.
    pub playhead: nat,
    /// Where the mixed blocks go.
    pub mode: OutputMode,
    /// The ring buffer that a streaming consumer reads.
    pub ring: Ring<T>,
    /// All blocks that were mixed in the full-buffer mode.
    pub full_output: Seq<T>,
    /// The number of identities that were given to tracks.
    pub issued: nat,
}

impl<T: Scalar> EngineState<T> {
    /// The mix buffer holds one block; the ring and the tracks are valid;
    /// each track has an identity that was issued, and no two have the same.
    pub open spec fn wf(self) -> bool {
        &&& self.mix.len() == self.block_size * self.out_channels
        &&& self.ring.wf()
        &&& forall|i: int| 0 <= i < self.tracks.len() ==> (#[trigger] self.tracks[i]).wf()
        &&& forall|i: int| 0 <= i < self.tracks.len() ==> (#[trigger] self.tracks[i]).id < self.issued
        &&& forall|i: int, j: int|
            0 <= i < j < self.tracks.len() ==> (#[trigger] self.tracks[i]).id != (
            #[trigger] self.tracks[j]).id
    }

    /// The engine with the track of identity `id` replaced by `change` of
    /// it, and as it is where no track has that identity.
    pub open spec fn with_track(self, id: nat, change: spec_fn(TrackState<T>) -> TrackState<T>) -> Self {
        EngineState {
            tracks: Seq::new(
                self.tracks.len(),
                |i: int|
                    if self.tracks[i].id == id {
                        change(self.tracks[i])
                    } else {
                        self.tracks[i]
                    },
            ),
            ..self
        }
    }

    /// The engine with the parameters of the track of identity `id` replaced
    /// by `change` of them.
    pub open spec fn with_params(self, id: nat, change: spec_fn(Params<T>) -> Params<T>) -> Self {
        self.with_track(id, |t: TrackState<T>| TrackState { params: change(t.params), ..t })
    }

    /// Whether `count` values fit, from `offset` on, into the storage of the
    /// track of identity `id`.
    pub open spec fn fits(self, id: nat, count: nat, offset: nat) -> bool {
        exists|i: int|
            0 <= i < self.tracks.len() && (#[trigger] self.tracks[i]).id == id && offset + count
                <= self.tracks[i].data.len()
    }

    /// The track at `idx` is the only one of its identity: values fit into
    /// the track of that identity exactly if they fit into this one.
    pub proof fn found_is_the_track(self, idx: int)
        requires
            self.wf(),
            0 <= idx < self.tracks.len(),
        ensures
            has_track(self.tracks, self.tracks[idx].id),
            forall|count: nat, offset: nat|
                self.fits(self.tracks[idx].id, count, offset) <==> offset + count
                    <= self.tracks[idx].data.len(),
    {
        let id = self.tracks[idx].id;
        assert forall|i: int| 0 <= i < self.tracks.len() && (#[trigger] self.tracks[i]).id
            == id implies i == idx by {
            if i < idx {
                assert(self.tracks[i].id != self.tracks[idx].id);
            } else if idx < i {
                assert(self.tracks[idx].id != self.tracks[i].id);
            }
        }
    }

    /// The place of the track of identity `id`, where there is one.
    pub open spec fn place_of(self, id: nat) -> int {
        choose|i: int| 0 <= i < self.tracks.len() && (#[trigger] self.tracks[i]).id == id
    }

    /// The engine without the track of identity `id`, and as it is where no
    /// track has that identity.
    pub open spec fn without_track(self, id: nat) -> Self {
        if has_track(self.tracks, id) {
            EngineState { tracks: self.tracks.remove(self.place_of(id)), ..self }
        } else {
            self
        }
    }

    /// The track at `idx` is where the track of its identity is.
    pub proof fn the_track_is_at(self, idx: int)
        requires
            self.wf(),
            0 <= idx < self.tracks.len(),
        ensures
            has_track(self.tracks, self.tracks[idx].id),
            self.place_of(self.tracks[idx].id) == idx,
    {
        let place = self.place_of(self.tracks[idx].id);
        if place < idx {
            assert(self.tracks[place].id != self.tracks[idx].id);
        } else if idx < place {
            assert(self.tracks[idx].id != self.tracks[place].id);
        }
    }

    /// Without the track at `idx` the engine is valid, and no track has the
    /// identity of that track.
    pub proof fn removal_keeps_the_rest(self, idx: int)
        requires
            self.wf(),
            0 <= idx < self.tracks.len(),
        ensures
            (EngineState { tracks: self.tracks.remove(idx), ..self }).wf(),
            !has_track(self.tracks.remove(idx), self.tracks[idx].id),
    {
        let rest = self.tracks.remove(idx);
        assert forall|i: int| 0 <= i < rest.len() implies (#[trigger] rest[i]).wf() && rest[i].id
            < self.issued && rest[i].id != self.tracks[idx].id by {
            if i < idx {
                assert(rest[i] == self.tracks[i]);
                assert(self.tracks[i].id != self.tracks[idx].id);
            } else {
                assert(rest[i] == self.tracks[i + 1]);
                assert(self.tracks[idx].id != self.tracks[i + 1].id);
            }
        }
        assert forall|i: int, j: int| 0 <= i < j < rest.len() implies (#[trigger] rest[i]).id != (
        #[trigger] rest[j]).id by {
            let a = if i < idx {
                i
            } else {
                i + 1
            };
            let b = if j < idx {
                j
            } else {
                j + 1
            };
            assert(rest[i] == self.tracks[a]);
            assert(rest[j] == self.tracks[b]);
            assert(self.tracks[a].id != self.tracks[b].id);
        }
    }

    /// Where no track has the identity `id`, removing it changes nothing.
    pub proof fn no_track_is_nowhere(self, id: nat)
        requires
            !has_track(self.tracks, id),
        ensures
            self.without_track(id) == self,
    {
    }

    /// A valid engine is valid after a seek.
    pub proof fn sought_is_valid(self, frame: nat)
        requires
            self.wf(),
        ensures
            self.sought(frame).wf(),
    {
        let after = self.sought(frame);
        assert forall|i: int| 0 <= i < after.tracks.len() implies (#[trigger] after.tracks[i]).wf()
            && after.tracks[i].id < after.issued by {
            assert(self.tracks[i].wf());
        }
        assert forall|i: int, j: int| 0 <= i < j < after.tracks.len() implies (
        #[trigger] after.tracks[i]).id != (#[trigger] after.tracks[j]).id by {
            assert(self.tracks[i].id != self.tracks[j].id);
        }
    }

    /// A valid engine is valid after it has processed a block.
    pub proof fn processed_is_valid(self)
        requires
            self.wf(),
        ensures
            self.processed().wf(),
    {
        if self.playing {
            let after = self.processed();
            mix_keeps_length(
                self.tracks,
                silence(self.mix.len()),
                self.block_size,
                self.out_channels,
                self.tracks.len(),
            );
            if self.mode == OutputMode::Streaming {
                pushes_keep_ring(self.ring, self.next_block(), self.next_block().len());
            }
            assert forall|i: int| 0 <= i < after.tracks.len() implies (
            #[trigger] after.tracks[i]).wf() && after.tracks[i].id < after.issued by {
                assert(self.tracks[i].wf());
            }
            assert forall|i: int, j: int| 0 <= i < j < after.tracks.len() implies (
            #[trigger] after.tracks[i]).id != (#[trigger] after.tracks[j]).id by {
                assert(self.tracks[i].id != self.tracks[j].id);
            }
        }
    }

    /// The engine after a seek: the playhead is at `frame`, and the cursor
    /// of every track at `frame` or at the track's end.
    pub open spec fn sought(self, frame: nat) -> Self {
        EngineState {
            playhead: frame,
            tracks: Seq::new(self.tracks.len(), |i: int| self.tracks[i].sought(frame)),
            ..self
        }
    }

    /// The engine with one more track of `frames` frames of `channels`
    /// channels: its storage is all zero, its parameters are the default
    /// ones, and its identity is the next that was not issued.
    pub open spec fn with_new_track(self, frames: nat, channels: nat) -> Self {
        EngineState {
            tracks: self.tracks.push(
                TrackState {
                    id: self.issued,
                    data: silence(frames * channels),
                    frames,
                    channels,
                    params: default_params(),
                    cursor: 0,
                },
            ),
            issued: self.issued + 1,
            ..self
        }
    }

    /// The engine with its output cleared and sent to `mode`: the playhead
    /// is at zero, the full output is empty, and the mix buffer is all zero.
    pub open spec fn with_output_mode(self, mode: OutputMode) -> Self {
        EngineState {
            mode,
            playhead: 0,
            full_output: Seq::empty(),
            mix: silence(self.mix.len()),
            ..self
        }
    }

    /// The block that the engine mixes next: all audible tracks, mixed one
    /// after the other into a block of zeros.
    pub open spec fn next_block(self) -> Seq<T> {
        mix_through(
            self.tracks,
            silence(self.mix.len()),
            self.block_size,
            self.out_channels,
            self.tracks.len(),
        )
    }

    /// The engine after a call to process a block. A paused engine is as it
    /// was. A playing one has mixed the next block; every audible track has
    /// moved its cursor by the frames that the block took from it; the block
    /// was written value by value to the ring, or appended to the full
    /// output; and the playhead has moved by one block.
    pub open spec fn processed(self) -> Self {
        if !self.playing {
            self
        } else {
            EngineState {
                mix: self.next_block(),
                tracks: Seq::new(
                    self.tracks.len(),
                    |i: int|
                        if audible(self.tracks, i) {
                            self.tracks[i].played(self.block_size)
                        } else {
                            self.tracks[i]
                        },
                ),
                ring: if self.mode == OutputMode::Streaming {
                    self.ring.pushed_all(self.next_block(), self.next_block().len())
                } else {
                    self.ring
                },
                full_output: if self.mode == OutputMode::FullBuffer {
                    self.full_output + self.next_block()
                } else {
                    self.full_output
                },
                playhead: self.playhead + self.block_size,
                ..self
            }
        }
    }
}

/// The mix has the length of the buffer that the tracks were mixed into.
pub proof fn mix_keeps_length<T: Scalar>(
    tracks: Seq<TrackState<T>>,
    start: Seq<T>,
    block_size: nat,
    out_channels: nat,
    n: nat,
)
    ensures
        mix_through(tracks, start, block_size, out_channels, n).len() == start.len(),
    decreases n,
{
    if n > 0 {
        mix_keeps_length(tracks, start, block_size, out_channels, (n - 1) as nat);
    }
}

/// Writes leave a valid ring valid.
pub proof fn pushes_keep_ring<T>(ring: Ring<T>, values: Seq<T>, n: nat)
    requires
        ring.wf(),
    ensures
        ring.pushed_all(values, n).wf(),
        ring.pushed_all(values, n).capacity() == ring.capacity(),
    decreases n,
{
    if n > 0 {
        pushes_keep_ring(ring, values, (n - 1) as nat);
    }
}

/// Tracks that are not audible leave the mix as it is: the mix through the
/// first `b` tracks is the mix through the first `a`, where none from `a`
/// up to `b` is audible.
pub proof fn skip_inaudible<T: Scalar>(
    tracks: Seq<TrackState<T>>,
    start: Seq<T>,
    block_size: nat,
    out_channels: nat,
    a: nat,
    b: nat,
)
    requires
        a <= b <= tracks.len(),
        forall|i: int| a <= i < b ==> !audible(tracks, i),
    ensures
        mix_through(tracks, start, block_size, out_channels, b) == mix_through(
            tracks,
            start,
            block_size,
            out_channels,
            a,
        ),
    decreases b,
{
    if a < b {
        skip_inaudible(tracks, start, block_size, out_channels, a, (b - 1) as nat);
    }
}

/// Where only the one track that has a given identity was changed, the
/// engine is the one with the track of that identity changed.
pub proof fn changed_one_track<T: Scalar>(
    before: EngineState<T>,
    after: EngineState<T>,
    idx: int,
    change: spec_fn(TrackState<T>) -> TrackState<T>,
)
    requires
        before.wf(),
        0 <= idx < before.tracks.len(),
        after == (EngineState {
            tracks: before.tracks.update(idx, change(before.tracks[idx])),
            ..before
        }),
        change(before.tracks[idx]).id == before.tracks[idx].id,
        change(before.tracks[idx]).wf(),
    ensures
        after == before.with_track(before.tracks[idx].id, change),
        after.wf(),
{
    let id = before.tracks[idx].id;
    assert forall|i: int| 0 <= i < before.tracks.len() && i != idx implies (
    #[trigger] before.tracks[i]).id != id by {
        if i < idx {
            assert(before.tracks[i].id != before.tracks[idx].id);
        } else {
            assert(before.tracks[idx].id != before.tracks[i].id);
        }
    }
    assert(after.tracks =~= before.with_track(id, change).tracks);
    assert forall|i: int| 0 <= i < after.tracks.len() implies (#[trigger] after.tracks[i]).wf()
        && after.tracks[i].id < after.issued by {
        assert(before.tracks[i].wf());
    }
    assert forall|i: int, j: int| 0 <= i < j < after.tracks.len() implies (
    #[trigger] after.tracks[i]).id != (#[trigger] after.tracks[j]).id by {
        assert(before.tracks[i].id != before.tracks[j].id);
    }
}

/// Where no track has a given identity, the engine with the track of that
/// identity changed is the engine.
pub proof fn changed_no_track<T: Scalar>(
    before: EngineState<T>,
    id: nat,
    change: spec_fn(TrackState<T>) -> TrackState<T>,
)
    requires
        !has_track(before.tracks, id),
    ensures
        before == before.with_track(id, change),
{
    assert(before.tracks =~= before.with_track(id, change).tracks);
}

/// The tracks with every track that is not solo taken out of the mix.
pub open spec fn solo_only<T>(tracks: Seq<TrackState<T>>) -> Seq<TrackState<T>> {
    Seq::new(
        tracks.len(),
        |i: int|
            if tracks[i].params.solo {
                tracks[i]
            } else {
                TrackState { params: Params { active: false, ..tracks[i].params }, ..tracks[i] }
            },
    )
}

/// Where an active track is solo, only solo tracks are mixed, whatever the
/// others are: a track that is not solo is not heard and keeps its cursor,
/// and the block is the one that the solo tracks alone would give.
pub proof fn solo_overrides<T: Scalar>(engine: EngineState<T>)
    requires
        any_solo(engine.tracks),
    ensures
        forall|i: int|
            0 <= i < engine.tracks.len() && !(#[trigger] engine.tracks[i]).params.solo ==> !audible(
                engine.tracks,
                i,
            ) && engine.processed().tracks[i] == engine.tracks[i],
        engine.next_block() == (EngineState {
            tracks: solo_only(engine.tracks),
            ..engine
        }).next_block(),
{
    solo_only_mixes_alike(
        engine.tracks,
        silence(engine.mix.len()),
        engine.block_size,
        engine.out_channels,
        engine.tracks.len(),
    );
}

/// Where an active track is solo, the mix through the first `n` tracks is
/// the mix through the first `n` with those that are not solo taken out.
proof fn solo_only_mixes_alike<T: Scalar>(
    tracks: Seq<TrackState<T>>,
    start: Seq<T>,
    block_size: nat,
    out_channels: nat,
    n: nat,
)
    requires
        any_solo(tracks),
        n <= tracks.len(),
    ensures
        mix_through(tracks, start, block_size, out_channels, n) == mix_through(
            solo_only(tracks),
            start,
            block_size,
            out_channels,
            n,
        ),
    decreases n,
{
    if n > 0 {
        solo_only_mixes_alike(tracks, start, block_size, out_channels, (n - 1) as nat);
        let rest = solo_only(tracks);
        let witness = choose|i: int|
            0 <= i < tracks.len() && (#[trigger] tracks[i]).params.active && tracks[i].params.solo;
        assert(rest[witness].params.active && rest[witness].params.solo);
        assert(any_solo(rest));
        assert(audible(rest, n - 1) == audible(tracks, n - 1));
        if audible(tracks, n - 1) {
            assert(rest[n - 1] == tracks[n - 1]);
        }
    }
}

/// After a seek to `frame` the cursor of every track is at `frame`, or at
/// the end of the track where `frame` lies beyond it, and the same tracks
/// are audible. The block that is processed next takes a track's values
/// from that cursor on: as many frames as are left from there, a block at
/// most; and an audible track then has its cursor that many frames further.
pub proof fn seek_then_block<T: Scalar>(engine: EngineState<T>, frame: nat, i: int)
    requires
        engine.wf(),
        engine.playing,
        0 <= i < engine.tracks.len(),
    ensures
        engine.sought(frame).wf(),
        engine.sought(frame).tracks[i].cursor == (if frame < engine.tracks[i].frames {
            frame
        } else {
            engine.tracks[i].frames
        }),
        audible(engine.sought(frame).tracks, i) == audible(engine.tracks, i),
        engine.sought(frame).tracks[i].frames_to_mix(engine.block_size) == (if engine.tracks[i].frames
            - engine.sought(frame).tracks[i].cursor < engine.block_size {
            engine.tracks[i].frames - engine.sought(frame).tracks[i].cursor
        } else {
            engine.block_size as int
        }),
        forall|f: nat, c: nat|
            engine.sought(frame).tracks[i].source(f, c) == engine.tracks[i].data[(
            engine.sought(frame).tracks[i].cursor + f) * engine.tracks[i].channels + (if c == 1
                && engine.tracks[i].channels > 1 {
                1int
            } else {
                0int
            })],
        engine.sought(frame).processed().tracks[i].cursor == engine.sought(frame).tracks[i].cursor
            + (if audible(engine.tracks, i) {
            engine.sought(frame).tracks[i].frames_to_mix(engine.block_size)
        } else {
            0
        }),
        engine.sought(frame).processed().playhead == frame + engine.block_size,
{
    let after = engine.sought(frame);
    assert forall|t: int| 0 <= t < after.tracks.len() implies (#[trigger] after.tracks[t]).wf()
        && after.tracks[t].id < after.issued by {
        assert(engine.tracks[t].wf());
    }
    assert forall|a: int, b: int| 0 <= a < b < after.tracks.len() implies (
    #[trigger] after.tracks[a]).id != (#[trigger] after.tracks[b]).id by {
        assert(engine.tracks[a].id != engine.tracks[b].id);
    }
    if any_solo(engine.tracks) {
        let w = choose|w: int|
            0 <= w < engine.tracks.len() && (#[trigger] engine.tracks[w]).params.active
                && engine.tracks[w].params.solo;
        assert(after.tracks[w].params.active && after.tracks[w].params.solo);
    }
    if any_solo(after.tracks) {
        let w = choose|w: int|
            0 <= w < after.tracks.len() && (#[trigger] after.tracks[w]).params.active
                && after.tracks[w].params.solo;
        assert(engine.tracks[w].params.active && engine.tracks[w].params.solo);
    }
}

/// A block moves no cursor back, and none beyond the end of its track.
pub proof fn block_moves_cursors_forward<T: Scalar>(engine: EngineState<T>, i: int)
    requires
        engine.wf(),
        0 <= i < engine.tracks.len(),
    ensures
        engine.tracks[i].cursor <= engine.processed().tracks[i].cursor <= engine.tracks[i].frames,
{
    assert(engine.tracks[i].wf());
}

/// Mixing adds, and nothing else: where an output of one channel mixes two
/// audible tracks that each hold one value throughout and have a block left,
/// every value of the block is zero, plus the first track's value times its
/// gain, plus the second track's value times its gain.
pub proof fn two_tracks_add_up<T: Scalar>(engine: EngineState<T>, first: T, second: T, j: int)
    requires
        engine.wf(),
        engine.out_channels == 1,
        engine.tracks.len() == 2,
        audible(engine.tracks, 0),
        audible(engine.tracks, 1),
        forall|t: int|
            0 <= t < 2 ==> (#[trigger] engine.tracks[t]).channels > 0 && engine.tracks[t].cursor
                + engine.block_size <= engine.tracks[t].frames,
        forall|i: int| 0 <= i < engine.tracks[0].data.len() ==> engine.tracks[0].data[i] == first,
        forall|i: int| 0 <= i < engine.tracks[1].data.len() ==> engine.tracks[1].data[i] == second,
        0 <= j < engine.block_size,
    ensures
        engine.next_block().len() == engine.block_size,
        engine.next_block()[j] == zero::<T>().plus_spec(
            first.times_spec(engine.tracks[0].params.gain),
        ).plus_spec(second.times_spec(engine.tracks[1].params.gain)),
{
    let start = silence::<T>(engine.mix.len());
    let block = engine.block_size;
    let m0 = mix_through(engine.tracks, start, block, 1, 0);
    let m1 = mix_through(engine.tracks, start, block, 1, 1);
    let m2 = mix_through(engine.tracks, start, block, 1, 2);
    assert(engine.mix.len() == block) by (nonlinear_arith)
        requires
            engine.mix.len() == block * 1,
    ;
    assert(m0 == start);
    assert(m1 == mixed_in(m0, engine.tracks[0], block, 1));
    assert(m2 == mixed_in(m1, engine.tracks[1], block, 1));
    assert(engine.tracks[0].wf() && engine.tracks[1].wf());
    assert forall|t: int| 0 <= t < 2 implies 0 <= ((#[trigger] engine.tracks[t]).cursor + j)
        * engine.tracks[t].channels < engine.tracks[t].data.len() by {
        let track = engine.tracks[t];
        assert(track.wf());
        assert(0 <= (track.cursor + j) * track.channels < track.frames * track.channels)
            by (nonlinear_arith)
            requires
                0 <= track.cursor + j < track.frames,
                track.channels > 0,
        ;
    }
    assert(m1[j] == mixed_value(m0, engine.tracks[0], block, 1, j));
    assert(m2[j] == mixed_value(m1, engine.tracks[1], block, 1, j));
}

} // verus!
