use audio_core::engine::{Engine, EngineError, OutputMode};
use audio_core::ring::RingBuffer;
use audio_core::scalar::Scalar;
use audio_core::track::{Track, TrackHandle, TrackParams};

#[derive(Clone, Copy, Debug, PartialEq)]
struct F(f32);

impl Scalar for F {
    fn from_int(n: i128) -> F {
        F(n as f32)
    }
    fn plus(self, other: F) -> F {
        F(self.0 + other.0)
    }
    fn minus(self, other: F) -> F {
        F(self.0 - other.0)
    }
    fn times(self, other: F) -> F {
        F(self.0 * other.0)
    }
    fn over(self, other: F) -> F {
        F(self.0 / other.0)
    }
    fn below(self, other: F) -> bool {
        self.0 < other.0
    }
    fn from_int_spec(n: i128) -> F {
        F::from_int(n)
    }
    fn plus_spec(self, other: F) -> F {
        self.plus(other)
    }
    fn minus_spec(self, other: F) -> F {
        self.minus(other)
    }
    fn times_spec(self, other: F) -> F {
        self.times(other)
    }
    fn over_spec(self, other: F) -> F {
        self.over(other)
    }
    fn below_spec(self, other: F) -> bool {
        self.below(other)
    }
}

fn values(plain: &[f32]) -> Vec<F> {
    plain.iter().map(|v| F(*v)).collect()
}

fn plain(values: &[F]) -> Vec<f32> {
    values.iter().map(|v| v.0).collect()
}

/// A playing engine that appends its blocks to the full output.
fn engine(out_channels: usize, block_size: usize) -> Engine<F> {
    let ring = RingBuffer::new(4 * block_size * out_channels);
    let mut engine = Engine::new(44100, out_channels, block_size, ring);
    engine.set_output_mode(OutputMode::FullBuffer);
    engine.play();
    engine
}

/// Adds a track of one channel that holds `data`.
fn mono_track(engine: &mut Engine<F>, data: &[f32]) -> usize {
    let id = engine.add_track(data.len(), 1);
    assert_eq!(engine.write_to_track(id, &values(data), 0), Ok(()));
    id
}

fn output(engine: &Engine<F>) -> Vec<f32> {
    plain(&engine.get_full_ouput())
}

#[test]
fn ring_returns_what_was_pushed_in_order() {
    let mut ring: RingBuffer<F> = RingBuffer::new(4);
    assert_eq!(ring.len(), 4);
    for v in [1.0, 2.0, 3.0, 4.0] {
        ring.push(F(v));
    }
    let read: Vec<f32> = (0..4).map(|_| ring.read().0).collect();
    assert_eq!(read, vec![1.0, 2.0, 3.0, 4.0]);
}

#[test]
fn ring_overwrites_the_oldest_value_when_it_is_full() {
    let mut ring: RingBuffer<F> = RingBuffer::new(3);
    for v in [1.0, 2.0, 3.0, 4.0] {
        ring.push(F(v));
    }
    let read: Vec<f32> = (0..3).map(|_| ring.read().0).collect();
    assert_eq!(read, vec![4.0, 2.0, 3.0]);
}

#[test]
fn ring_reads_stale_values_without_complaint() {
    let mut ring: RingBuffer<F> = RingBuffer::new(2);
    assert_eq!(ring.read(), F(0.0));
    ring.push(F(7.0));
    assert_eq!(ring.read(), F(0.0));
    assert_eq!(ring.read(), F(7.0));
    assert_eq!(ring.read(), F(0.0));
    assert_eq!(ring.read(), F(7.0));
}

#[test]
fn ring_reset_zeroes_slots_and_positions() {
    let mut ring: RingBuffer<F> = RingBuffer::new(3);
    ring.push(F(1.0));
    ring.push(F(2.0));
    ring.read();
    ring.reset();
    assert_eq!(ring.len(), 3);
    assert_eq!(ring.read(), F(0.0));
    assert_eq!(ring.read(), F(0.0));
    assert_eq!(ring.read(), F(0.0));
    ring.push(F(5.0));
    assert_eq!(ring.read(), F(5.0));
}

#[test]
fn ring_started_midway_still_returns_a_full_turn_in_order() {
    let mut ring: RingBuffer<F> = RingBuffer::new(3);
    ring.push(F(9.0));
    ring.read();
    for v in [1.0, 2.0, 3.0] {
        ring.push(F(v));
    }
    let read: Vec<f32> = (0..3).map(|_| ring.read().0).collect();
    assert_eq!(read, vec![1.0, 2.0, 3.0]);
}

#[test]
fn track_params_are_set_one_by_one() {
    let mut params = TrackParams::new(F(1.0), F(0.0), false, false);
    assert!(params.active());
    assert!(!params.mute());
    assert!(!params.solo());
    params.set_gain(F(2.5));
    params.set_pan(F(-3.0));
    params.set_mute(true);
    params.set_solo(true);
    params.set_active(false);
    assert_eq!(params.gain(), F(2.5));
    assert_eq!(params.pan(), F(-3.0));
    assert!(params.mute());
    assert!(params.solo());
    assert!(!params.active());
}

#[test]
fn track_holds_storage_cursor_and_params() {
    let params = TrackParams::new(F(1.0), F(0.0), false, false);
    let mut track = Track::new(7, values(&[0.0; 6]), 3, 2, params);
    assert_eq!(track.id(), 7);
    assert_eq!(track.frames(), 3);
    assert_eq!(track.channels(), 2);
    assert_eq!(track.cursor(), 0);
    track.write(&values(&[1.0, 2.0]), 4);
    assert_eq!(plain(track.as_slice()), vec![0.0, 0.0, 0.0, 0.0, 1.0, 2.0]);
    track.set_cursor(3);
    assert_eq!(track.cursor(), 3);
    track.params_mut().set_gain(F(0.5));
    assert_eq!(track.params().gain(), F(0.5));
    let handle = TrackHandle::new(7, 3, 2);
    assert_eq!((handle.id(), handle.frames(), handle.channels()), (7, 3, 2));
}

#[test]
fn engine_starts_paused_and_streaming() {
    let mut engine: Engine<F> = Engine::new(48000, 2, 128, RingBuffer::new(1024));
    assert!(!engine.is_playing());
    assert_eq!(engine.sample_rate(), 48000);
    assert_eq!(engine.out_channels(), 2);
    assert_eq!(engine.block_size(), 128);
    assert_eq!(engine.playhead(), 0);
    assert_eq!(engine.ring_buffer_len(), 1024);
    engine.play();
    assert!(engine.is_playing());
    engine.pause();
    assert!(!engine.is_playing());
}

#[test]
fn paused_engine_processes_nothing() {
    let mut engine = engine(1, 4);
    mono_track(&mut engine, &[1.0; 8]);
    engine.pause();
    engine.process_block();
    assert_eq!(engine.playhead(), 0);
    assert_eq!(output(&engine), Vec::<f32>::new());
    engine.play();
    engine.process_block();
    assert_eq!(engine.playhead(), 4);
    assert_eq!(output(&engine), vec![1.0; 4]);
}

#[test]
fn two_constant_tracks_add_up_to_twice_the_value() {
    let k = 0.3;
    let mut engine = engine(1, 128);
    let a = mono_track(&mut engine, &[k; 128]);
    let b = mono_track(&mut engine, &[k; 128]);
    engine.set_track_gain(a, F(1.0));
    engine.set_track_pan(a, F(0.0));
    engine.set_track_gain(b, F(1.0));
    engine.set_track_pan(b, F(0.0));
    engine.process_block();
    assert_eq!(output(&engine), vec![2.0 * k; 128]);
}

#[test]
fn mixing_neither_normalises_nor_clips() {
    let mut engine = engine(1, 2);
    mono_track(&mut engine, &[0.9, -0.9]);
    mono_track(&mut engine, &[0.8, -0.8]);
    mono_track(&mut engine, &[0.5, -0.5]);
    engine.process_block();
    assert_eq!(output(&engine), vec![0.9 + 0.8 + 0.5, -0.9 - 0.8 - 0.5]);
}

#[test]
fn solo_tracks_are_mixed_alone() {
    let mut engine = engine(1, 4);
    let a = mono_track(&mut engine, &[1.0; 4]);
    let b = mono_track(&mut engine, &[10.0; 4]);
    let c = mono_track(&mut engine, &[100.0; 4]);
    engine.set_track_solo(b, true);
    engine.process_block();
    assert_eq!(output(&engine), vec![10.0; 4]);
    // the others were not played: without the solo they start at their start
    engine.set_track_solo(b, false);
    engine.set_track_active(b, false);
    engine.set_output_mode(OutputMode::FullBuffer);
    engine.process_block();
    assert_eq!(output(&engine), vec![101.0; 4]);
    let _ = (a, c);
}

#[test]
fn several_solo_tracks_are_mixed_together() {
    let mut engine = engine(1, 2);
    let a = mono_track(&mut engine, &[1.0; 2]);
    let b = mono_track(&mut engine, &[10.0; 2]);
    mono_track(&mut engine, &[100.0; 2]);
    engine.set_track_solo(a, true);
    engine.set_track_solo(b, true);
    engine.process_block();
    assert_eq!(output(&engine), vec![11.0; 2]);
}

#[test]
fn solo_of_an_inactive_track_does_not_count() {
    let mut engine = engine(1, 2);
    let a = mono_track(&mut engine, &[1.0; 2]);
    mono_track(&mut engine, &[10.0; 2]);
    engine.set_track_solo(a, true);
    engine.set_track_active(a, false);
    engine.process_block();
    assert_eq!(output(&engine), vec![10.0; 2]);
}

#[test]
fn a_mute_solo_track_silences_the_mix() {
    let mut engine = engine(1, 2);
    let a = mono_track(&mut engine, &[1.0; 2]);
    mono_track(&mut engine, &[10.0; 2]);
    engine.set_track_solo(a, true);
    engine.set_track_mute(a, true);
    engine.process_block();
    assert_eq!(output(&engine), vec![0.0; 2]);
    assert_eq!(engine.playhead(), 2);
}

#[test]
fn a_mute_track_keeps_its_cursor() {
    let mut engine = engine(1, 2);
    let a = mono_track(&mut engine, &[1.0, 2.0, 3.0, 4.0]);
    engine.set_track_mute(a, true);
    engine.process_block();
    engine.set_track_mute(a, false);
    engine.process_block();
    assert_eq!(output(&engine), vec![0.0, 0.0, 1.0, 2.0]);
}

#[test]
fn seek_clamps_cursors_and_the_next_block_starts_there() {
    let mut engine = engine(1, 4);
    mono_track(&mut engine, &[0.0, 1.0, 2.0, 3.0, 4.0, 5.0, 6.0, 7.0]);
    mono_track(&mut engine, &[10.0, 20.0, 30.0]);
    engine.seek(2);
    assert_eq!(engine.playhead(), 2);
    engine.process_block();
    // the long track gives frames 2 to 5, the short one its last frame
    assert_eq!(output(&engine), vec![32.0, 3.0, 4.0, 5.0]);
    assert_eq!(engine.playhead(), 6);
}

#[test]
fn seek_beyond_the_end_leaves_nothing_to_mix() {
    let mut engine = engine(1, 2);
    mono_track(&mut engine, &[1.0, 2.0, 3.0]);
    engine.seek(100);
    assert_eq!(engine.playhead(), 100);
    engine.process_block();
    assert_eq!(output(&engine), vec![0.0, 0.0]);
    assert_eq!(engine.playhead(), 102);
    // a seek back makes the track heard again
    engine.seek(1);
    engine.process_block();
    assert_eq!(output(&engine), vec![0.0, 0.0, 2.0, 3.0]);
}

#[test]
fn seek_works_while_paused() {
    let mut engine = engine(1, 2);
    mono_track(&mut engine, &[1.0, 2.0, 3.0, 4.0]);
    engine.pause();
    engine.seek(2);
    engine.play();
    engine.process_block();
    assert_eq!(output(&engine), vec![3.0, 4.0]);
}

#[test]
fn a_track_at_its_end_stops_contributing() {
    let mut engine = engine(1, 2);
    mono_track(&mut engine, &[1.0, 2.0, 3.0]);
    engine.process_block();
    engine.process_block();
    engine.process_block();
    assert_eq!(output(&engine), vec![1.0, 2.0, 3.0, 0.0, 0.0, 0.0]);
    assert_eq!(engine.playhead(), 6);
}

#[test]
fn playhead_advances_without_any_track() {
    let mut engine = engine(2, 8);
    engine.process_block();
    engine.process_block();
    assert_eq!(engine.playhead(), 16);
    assert_eq!(output(&engine), vec![0.0; 32]);
}

#[test]
fn stereo_output_pans_by_the_clamped_law() {
    // centre: both channels at full gain
    let mut centre = engine(2, 1);
    let id = mono_track(&mut centre, &[0.5]);
    centre.set_track_gain(id, F(2.0));
    centre.process_block();
    assert_eq!(output(&centre), vec![1.0, 1.0]);
    // hard right: nothing on the left
    let mut right = engine(2, 1);
    let id = mono_track(&mut right, &[0.5]);
    right.set_track_pan(id, F(1.0));
    right.process_block();
    assert_eq!(output(&right), vec![0.0, 0.5]);
    // half left: the left factor is held at one, the right is a half
    let mut left = engine(2, 1);
    let id = mono_track(&mut left, &[0.5]);
    left.set_track_pan(id, F(-0.5));
    left.set_track_gain(id, F(4.0));
    left.process_block();
    assert_eq!(output(&left), vec![2.0, 1.0]);
}

#[test]
fn pan_is_clamped_by_the_setter_and_gain_is_not() {
    let mut engine = engine(2, 1);
    let id = mono_track(&mut engine, &[1.0]);
    engine.set_track_pan(id, F(-7.0));
    engine.set_track_gain(id, F(-3.0));
    engine.process_block();
    // pan -1: the left factor 2 is held at 1, the right factor is 0
    assert_eq!(output(&engine), vec![-3.0, -0.0]);
}

#[test]
fn mono_output_ignores_the_pan() {
    let mut engine = engine(1, 2);
    let id = mono_track(&mut engine, &[1.0, 2.0]);
    engine.set_track_pan(id, F(1.0));
    engine.set_track_gain(id, F(0.5));
    engine.process_block();
    assert_eq!(output(&engine), vec![0.5, 1.0]);
}

#[test]
fn stereo_tracks_give_each_channel_its_own_value() {
    let mut engine = engine(2, 2);
    let id = engine.add_track(3, 2);
    assert_eq!(
        engine.write_to_track(id, &values(&[1.0, -1.0, 2.0, -2.0, 3.0, -3.0]), 0),
        Ok(())
    );
    engine.seek(1);
    engine.process_block();
    assert_eq!(output(&engine), vec![2.0, -2.0, 3.0, -3.0]);
}

#[test]
fn stereo_tracks_give_their_first_channel_to_a_mono_output() {
    let mut engine = engine(1, 2);
    let id = engine.add_track(2, 2);
    assert_eq!(engine.write_to_track(id, &values(&[1.0, -1.0, 2.0, -2.0]), 0), Ok(()));
    engine.process_block();
    assert_eq!(output(&engine), vec![1.0, 2.0]);
}

#[test]
fn new_tracks_are_silent_centred_and_active() {
    let mut engine = engine(2, 2);
    let id = engine.add_track(2, 1);
    engine.process_block();
    assert_eq!(output(&engine), vec![0.0; 4]);
    assert_eq!(engine.write_to_track(id, &values(&[0.25, 0.5]), 0), Ok(()));
    engine.seek(0);
    engine.process_block();
    assert_eq!(output(&engine), vec![0.0, 0.0, 0.0, 0.0, 0.25, 0.25, 0.5, 0.5]);
}

#[test]
fn track_identities_survive_the_removal_of_other_tracks() {
    let mut engine = engine(1, 1);
    let a = mono_track(&mut engine, &[1.0]);
    let b = mono_track(&mut engine, &[10.0]);
    let c = mono_track(&mut engine, &[100.0]);
    assert_eq!((a, b, c), (0, 1, 2));
    engine.remove_track(a);
    engine.set_track_gain(c, F(2.0));
    engine.process_block();
    assert_eq!(output(&engine), vec![210.0]);
    // the identity of a removed track names no track, and is not given again
    assert_eq!(engine.write_to_track(a, &values(&[5.0]), 0), Err(EngineError::TrackNotFound));
    engine.remove_track(a);
    engine.set_track_mute(a, true);
    let d = mono_track(&mut engine, &[1000.0]);
    assert_eq!(d, 3);
    engine.seek(0);
    engine.process_block();
    assert_eq!(output(&engine), vec![210.0, 1210.0]);
}

#[test]
fn writes_beyond_the_storage_are_refused_in_full() {
    let mut engine = engine(1, 4);
    let id = engine.add_track(4, 1);
    assert_eq!(engine.write_to_track(id, &values(&[1.0, 2.0]), 1), Ok(()));
    assert_eq!(
        engine.write_to_track(id, &values(&[9.0, 9.0, 9.0]), 2),
        Err(EngineError::BufferOverflow)
    );
    assert_eq!(
        engine.write_to_track(id, &values(&[9.0]), usize::MAX),
        Err(EngineError::BufferOverflow)
    );
    assert_eq!(engine.write_to_track(id, &values(&[]), 4), Ok(()));
    assert_eq!(engine.write_to_track(id + 1, &values(&[]), 0), Err(EngineError::TrackNotFound));
    engine.process_block();
    assert_eq!(output(&engine), vec![0.0, 1.0, 2.0, 0.0]);
}

#[test]
fn setters_ignore_unknown_identities() {
    let mut engine = engine(1, 1);
    mono_track(&mut engine, &[1.0]);
    engine.set_track_gain(9, F(5.0));
    engine.set_track_pan(9, F(1.0));
    engine.set_track_mute(9, true);
    engine.set_track_solo(9, true);
    engine.set_track_active(9, false);
    engine.remove_track(9);
    engine.process_block();
    assert_eq!(output(&engine), vec![1.0]);
}

#[test]
fn switching_the_output_mode_clears_the_output() {
    let mut engine = engine(1, 2);
    mono_track(&mut engine, &[1.0, 2.0, 3.0, 4.0]);
    engine.process_block();
    assert_eq!(output(&engine), vec![1.0, 2.0]);
    assert_eq!(engine.playhead(), 2);
    engine.set_output_mode(OutputMode::Streaming);
    assert_eq!(engine.playhead(), 0);
    assert_eq!(output(&engine), Vec::<f32>::new());
    // the cursors stay where they were
    engine.process_block();
    assert_eq!(output(&engine), Vec::<f32>::new());
    assert_eq!(plain(&engine.read_from_ring_buffer(2)), vec![3.0, 4.0]);
}

#[test]
fn streaming_pushes_every_value_into_the_ring() {
    let ring = RingBuffer::new(8);
    let mut engine: Engine<F> = Engine::new(44100, 2, 2, ring);
    let id = engine.add_track(4, 1);
    assert_eq!(engine.write_to_track(id, &values(&[1.0, 2.0, 3.0, 4.0]), 0), Ok(()));
    engine.play();
    engine.process_block();
    engine.process_block();
    assert_eq!(
        plain(&engine.read_from_ring_buffer(8)),
        vec![1.0, 1.0, 2.0, 2.0, 3.0, 3.0, 4.0, 4.0]
    );
    // a third block wraps around and overwrites the first
    engine.process_block();
    assert_eq!(plain(&engine.read_from_ring_buffer(4)), vec![0.0, 0.0, 0.0, 0.0]);
    assert_eq!(engine.get_full_ouput().len(), 0);
}

#[test]
fn whole_number_tracks_mix_with_saturation() {
    let mut engine: Engine<i64> = Engine::new(8000, 1, 2, RingBuffer::new(4));
    engine.set_output_mode(OutputMode::FullBuffer);
    engine.play();
    let a = engine.add_track(2, 1);
    let b = engine.add_track(2, 1);
    assert_eq!(engine.write_to_track(a, &[5, i64::MAX], 0), Ok(()));
    assert_eq!(engine.write_to_track(b, &[7, 1], 0), Ok(()));
    engine.set_track_gain(b, 3);
    engine.process_block();
    assert_eq!(engine.get_full_ouput(), vec![26, i64::MAX]);
}
