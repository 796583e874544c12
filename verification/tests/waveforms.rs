use audio_core::analyzer::{find_minmax_music_sample, find_minmax_sample};
use audio_core::fft::FftDefinition;
use audio_core::models::{MultiChannelSample, MusicSample, Sample, Transformation};
use audio_core::player::MediaFilePlayer;
use audio_core::rate::{MusicTime, Rate};
use audio_core::scalar::{clamp, Scalar};
use audio_core::scissor::{can_split_at, split_music_samples, split_samples};
use audio_core::transformation::{
    transform_abstract, transform_double_left, transform_double_speed, transform_echo,
    transform_flat, transform_generic, transform_reverse, transform_speed_chelou, WINDOW,
};

#[derive(Clone, Copy, Debug, PartialEq)]
struct F(f32);

impl Scalar for F {
    fn from_int(n: i128) -> F {
        F(n as f32)
    }
    fn plus(self, other: F) -> F {
        F(self.0 + other.0)
    }
    fn minus(self, other: F) -> F {
        F(self.0 - other.0)
    }
    fn times(self, other: F) -> F {
        F(self.0 * other.0)
    }
    fn over(self, other: F) -> F {
        F(self.0 / other.0)
    }
    fn below(self, other: F) -> bool {
        self.0 < other.0
    }
    fn from_int_spec(n: i128) -> F {
        F::from_int(n)
    }
    fn plus_spec(self, other: F) -> F {
        self.plus(other)
    }
    fn minus_spec(self, other: F) -> F {
        self.minus(other)
    }
    fn times_spec(self, other: F) -> F {
        self.times(other)
    }
    fn over_spec(self, other: F) -> F {
        self.over(other)
    }
    fn below_spec(self, other: F) -> bool {
        self.below(other)
    }
}

fn wave(values: &[f32]) -> Sample<F> {
    Sample::new(values.iter().map(|v| F(*v)).collect())
}

fn plain(sample: &Sample<F>) -> Vec<f32> {
    sample.values().iter().map(|v| v.0).collect()
}

fn ramp(len: usize) -> Sample<F> {
    Sample::new((0..len).map(|i| F(i as f32)).collect())
}

fn stereo(left: &[f32], right: &[f32]) -> MultiChannelSample<F> {
    MultiChannelSample::new(vec![wave(left), wave(right)])
}

#[test]
fn clamp_holds_a_value_between_its_bounds() {
    assert_eq!(clamp(F(1.5), F(-1.0), F(1.0)), F(1.0));
    assert_eq!(clamp(F(-1.5), F(-1.0), F(1.0)), F(-1.0));
    assert_eq!(clamp(F(0.25), F(-1.0), F(1.0)), F(0.25));
}

#[test]
fn rate_converts_positions_and_times() {
    let rate = Rate::new(44100);
    assert_eq!(rate.value(), 44100);
    assert_eq!(rate.convert_time_ms_to_pos(7000), 308700);
    assert_eq!(rate.convert_pos_to_time_ms(308700), 7000);
    assert_eq!(rate.convert_pos_to_time_ms(44099), 999);
    assert_eq!(rate.convert_time_ms_to_pos(1), 44);
    assert_eq!(rate.convert_time_ms_to_pos(0), 0);
}

#[test]
fn rate_conversion_saturates_at_the_largest_position() {
    let rate = Rate::new(1);
    assert_eq!(rate.convert_pos_to_time_ms(usize::MAX), usize::MAX);
    assert_eq!(rate.convert_time_ms_to_pos(usize::MAX), usize::MAX / 1000);
}

#[test]
fn music_time_keeps_position_and_rate() {
    let rate = Rate::new(48000);
    let at = MusicTime::from_pos(96000, &rate);
    assert_eq!(at.pos(), 96000);
    assert_eq!(at.rate().value(), 48000);
    assert_eq!(at.time_ms(), 2000);
    let at = MusicTime::from_time_ms(7000, &rate);
    assert_eq!(at.pos(), 336000);
    assert_eq!(at.time_ms(), 7000);
}

#[test]
fn sample_holds_its_values_in_order() {
    let mut sample: Sample<F> = Sample::empty();
    assert_eq!(sample.len(), 0);
    sample.push(F(0.5));
    sample.push(F(-0.25));
    assert_eq!(sample.len(), 2);
    assert_eq!(sample.value(1), F(-0.25));
    sample.values_mut().push(F(1.0));
    assert_eq!(plain(&sample), vec![0.5, -0.25, 1.0]);
}

#[test]
fn sample_splits_at_every_position() {
    let sample = wave(&[1.0, 2.0, 3.0]);
    let (left, right) = sample.split_at(1);
    assert_eq!(plain(&left), vec![1.0]);
    assert_eq!(plain(&right), vec![2.0, 3.0]);
    let (left, right) = sample.split_at(0);
    assert_eq!(plain(&left), Vec::<f32>::new());
    assert_eq!(plain(&right), vec![1.0, 2.0, 3.0]);
    let (left, right) = sample.split_at(3);
    assert_eq!(plain(&left), vec![1.0, 2.0, 3.0]);
    assert_eq!(plain(&right), Vec::<f32>::new());
}

#[test]
fn channel_set_holds_its_channels_by_number() {
    let mut set: MultiChannelSample<F> = MultiChannelSample::with_capacity(2);
    assert_eq!(set.channels(), 2);
    assert_eq!(set.sample(0).len(), 0);
    set.sample_mut(1).push(F(0.5));
    assert_eq!(plain(set.sample(1)), vec![0.5]);
    set.push(wave(&[1.0, 2.0]));
    assert_eq!(set.channels(), 3);
    assert_eq!(plain(&set.samples()[2]), vec![1.0, 2.0]);
    set.samples_mut().remove(0);
    assert_eq!(set.channels(), 2);
    assert_eq!(plain(set.first_channel()), vec![0.5]);
    let mono = MultiChannelSample::mono(wave(&[3.0]));
    assert_eq!(mono.channels(), 1);
    assert_eq!(plain(mono.first_channel()), vec![3.0]);
    let empty: MultiChannelSample<F> = MultiChannelSample::empty();
    assert_eq!(empty.channels(), 0);
}

#[test]
fn channel_set_interleaves_frame_by_frame() {
    let set = MultiChannelSample::new(vec![
        wave(&[1.0, 2.0, 3.0]),
        wave(&[10.0, 20.0, 30.0]),
    ]);
    assert_eq!(
        set.to_interleaved().iter().map(|v| v.0).collect::<Vec<f32>>(),
        vec![1.0, 10.0, 2.0, 20.0, 3.0, 30.0]
    );
    // the first channel says how many frames there are
    let set = MultiChannelSample::new(vec![wave(&[1.0]), wave(&[10.0, 20.0])]);
    assert_eq!(set.to_interleaved(), vec![F(1.0), F(10.0)]);
    let mono = MultiChannelSample::mono(wave(&[4.0, 5.0]));
    assert_eq!(mono.to_interleaved(), vec![F(4.0), F(5.0)]);
}

#[test]
fn clip_copy_keeps_the_rate() {
    let clip = MusicSample::new(stereo(&[1.0], &[2.0]), Rate::new(22050));
    assert_eq!(clip.channels(), 2);
    assert_eq!(clip.sample_rate().value(), 22050);
    assert_eq!(plain(clip.first_channel_sample()), vec![1.0]);
    let copy = clip.copy(MultiChannelSample::mono(wave(&[5.0, 6.0])));
    assert_eq!(copy.sample_rate().value(), 22050);
    assert_eq!(copy.channels(), 1);
    assert_eq!(plain(copy.multi_channel_sample().sample(0)), vec![5.0, 6.0]);
}

#[test]
fn reverse_plays_each_channel_backwards() {
    let out = transform_reverse(&stereo(&[1.0, 2.0, 3.0], &[4.0, 5.0]));
    assert_eq!(out.channels(), 2);
    assert_eq!(plain(out.sample(0)), vec![3.0, 2.0, 1.0]);
    assert_eq!(plain(out.sample(1)), vec![5.0, 4.0]);
}

#[test]
fn reverse_twice_gives_the_input() {
    let input = stereo(&[0.1, -0.2, 0.3, 0.9], &[1.0, 0.0, -1.0, 0.5]);
    let twice = transform_reverse(&transform_reverse(&input));
    assert_eq!(plain(twice.sample(0)), plain(input.sample(0)));
    assert_eq!(plain(twice.sample(1)), plain(input.sample(1)));
}

#[test]
fn reverse_of_an_empty_set_is_empty() {
    let empty: MultiChannelSample<F> = MultiChannelSample::empty();
    assert_eq!(transform_reverse(&empty).channels(), 0);
    let out = transform_reverse(&MultiChannelSample::mono(wave(&[])));
    assert_eq!(out.channels(), 1);
    assert_eq!(out.sample(0).len(), 0);
}

#[test]
fn double_speed_keeps_the_even_indices() {
    let out = transform_double_speed(&stereo(&[0.0, 1.0, 2.0, 3.0, 4.0], &[10.0, 11.0, 12.0, 13.0]));
    assert_eq!(plain(out.sample(0)), vec![0.0, 2.0, 4.0]);
    assert_eq!(plain(out.sample(1)), vec![10.0, 12.0]);
}

#[test]
fn double_speed_halves_the_length_rounding_up() {
    for len in [0usize, 1, 2, 7, 8, 1001] {
        let input = MultiChannelSample::mono(ramp(len));
        let out = transform_double_speed(&input);
        assert_eq!(out.sample(0).len(), (len + 1) / 2);
        for k in 0..out.sample(0).len() {
            assert_eq!(out.sample(0).value(k), input.sample(0).value(2 * k));
        }
    }
}

#[test]
fn echo_is_one_window_longer_and_starts_with_the_signal() {
    let len = WINDOW + 10;
    let input = MultiChannelSample::mono(Sample::new((0..len).map(|i| F(1.0 + i as f32)).collect()));
    let out = transform_echo(&input);
    let echoed = out.sample(0);
    assert_eq!(WINDOW, 22000);
    assert_eq!(echoed.len(), len + WINDOW);
    for i in 0..WINDOW {
        assert_eq!(echoed.value(i), F(1.0 + i as f32));
    }
    // past the window the signal and its delayed copy add up
    assert_eq!(echoed.value(WINDOW), F((1.0 + WINDOW as f32) + 1.0));
    assert_eq!(echoed.value(WINDOW + 9), F((1.0 + (WINDOW + 9) as f32) + 10.0));
    // past the signal only the delayed copy is left
    assert_eq!(echoed.value(len), F(11.0));
    assert_eq!(echoed.value(len + WINDOW - 1), F(1.0 + (len - 1) as f32));
}

#[test]
fn echo_of_a_short_signal_has_silence_between_signal_and_copy() {
    let out = transform_echo(&MultiChannelSample::mono(wave(&[0.5, 0.25])));
    let echoed = out.sample(0);
    assert_eq!(echoed.len(), 22002);
    assert_eq!(echoed.value(0), F(0.5));
    assert_eq!(echoed.value(1), F(0.25));
    assert_eq!(echoed.value(2), F(0.0));
    assert_eq!(echoed.value(21999), F(0.0));
    assert_eq!(echoed.value(22000), F(0.5));
    assert_eq!(echoed.value(22001), F(0.25));
}

#[test]
fn echo_of_an_empty_channel_is_a_window_of_silence() {
    let out = transform_echo(&MultiChannelSample::mono(wave(&[])));
    assert_eq!(out.sample(0).len(), 22000);
    assert_eq!(out.sample(0).value(0), F(0.0));
    assert_eq!(out.sample(0).value(21999), F(0.0));
}

#[test]
fn flat_leaves_the_first_ten_values_and_averages_the_rest() {
    let input = MultiChannelSample::mono(ramp(13));
    let out = transform_flat(&input);
    let flat = out.sample(0);
    assert_eq!(flat.len(), 13);
    for i in 0..10 {
        assert_eq!(flat.value(i), F(i as f32));
    }
    // index 10: the value itself, plus the ten values 10, 9, .., 1, over ten
    assert_eq!(flat.value(10), F(6.5));
    assert_eq!(flat.value(11), F(7.6));
    assert_eq!(flat.value(12), F(8.7));
}

#[test]
fn flat_of_a_constant_is_eleven_tenths_of_it() {
    let input = MultiChannelSample::mono(Sample::new(vec![F(1.0); 12]));
    let out = transform_flat(&input);
    assert_eq!(out.sample(0).value(9), F(1.0));
    assert_eq!(out.sample(0).value(10), F(1.1));
    assert_eq!(out.sample(0).value(11), F(1.1));
}

#[test]
fn speed_chelou_changes_speed_with_every_window() {
    let len = 3 * WINDOW + 10;
    let input = MultiChannelSample::mono(ramp(len));
    let out = transform_speed_chelou(&input);
    let moved = out.sample(0);
    // a window as it is, a window of which half is kept, a window as long
    // as it was, and the rest as it is
    assert_eq!(moved.len(), WINDOW + WINDOW / 2 + WINDOW + 10);
    assert_eq!(moved.value(0), F(0.0));
    assert_eq!(moved.value(WINDOW - 1), F((WINDOW - 1) as f32));
    // double speed: the even indices of the second window
    assert_eq!(moved.value(WINDOW), F(WINDOW as f32));
    assert_eq!(moved.value(WINDOW + 1), F((WINDOW + 2) as f32));
    assert_eq!(moved.value(WINDOW + WINDOW / 2 - 1), F((2 * WINDOW - 2) as f32));
    // half speed: each even index twice
    let third = WINDOW + WINDOW / 2;
    assert_eq!(moved.value(third), F((2 * WINDOW) as f32));
    assert_eq!(moved.value(third + 1), F((2 * WINDOW) as f32));
    assert_eq!(moved.value(third + 2), F((2 * WINDOW + 2) as f32));
    assert_eq!(moved.value(third + 3), F((2 * WINDOW + 2) as f32));
    // normal speed again
    let fourth = third + WINDOW;
    assert_eq!(moved.value(fourth), F((3 * WINDOW) as f32));
    assert_eq!(moved.value(fourth + 9), F((3 * WINDOW + 9) as f32));
}

#[test]
fn speed_chelou_leaves_a_short_channel_as_it_is() {
    let out = transform_speed_chelou(&stereo(&[1.0, 2.0, 3.0], &[4.0]));
    assert_eq!(plain(out.sample(0)), vec![1.0, 2.0, 3.0]);
    assert_eq!(plain(out.sample(1)), vec![4.0]);
}

#[test]
fn double_left_stutters_the_left_and_repeats_the_right() {
    let input = MultiChannelSample::new(vec![
        wave(&[1.0, 2.0, 3.0]),
        wave(&[4.0, 5.0]),
        wave(&[9.0]),
    ]);
    let out = transform_double_left(&input);
    assert_eq!(out.channels(), 2);
    assert_eq!(plain(out.sample(0)), vec![1.0, 1.0, 2.0, 2.0, 3.0, 3.0]);
    assert_eq!(plain(out.sample(1)), vec![4.0, 5.0, 4.0, 5.0]);
}

#[test]
fn transform_generic_applies_the_named_transformation() {
    let input = stereo(&[1.0, 2.0, 3.0], &[4.0, 5.0, 6.0]);
    let out = transform_generic(&input, Transformation::Reverse);
    assert_eq!(plain(out.sample(0)), vec![3.0, 2.0, 1.0]);
    let out = transform_generic(&input, Transformation::DoubleSpeed);
    assert_eq!(plain(out.sample(1)), vec![4.0, 6.0]);
    let out = transform_generic(&input, Transformation::Flat);
    assert_eq!(plain(out.sample(0)), vec![1.0, 2.0, 3.0]);
    let out = transform_generic(&input, Transformation::SpeedChelou);
    assert_eq!(plain(out.sample(1)), vec![4.0, 5.0, 6.0]);
    let out = transform_generic(&input, Transformation::Echo);
    assert_eq!(out.channels(), 2);
    assert_eq!(out.sample(0).len(), 22003);
    let out = transform_generic(&input, Transformation::DoubleLeft);
    assert_eq!(plain(out.sample(1)), vec![4.0, 5.0, 6.0, 4.0, 5.0, 6.0]);
}

#[test]
fn transform_abstract_reverses_a_clip_at_its_rate() {
    let clip = MusicSample::new(stereo(&[1.0, 2.0], &[3.0, 4.0]), Rate::new(8000));
    let out = transform_abstract(&clip);
    assert_eq!(out.sample_rate().value(), 8000);
    assert_eq!(plain(out.multi_channel_sample().sample(0)), vec![2.0, 1.0]);
    assert_eq!(plain(out.multi_channel_sample().sample(1)), vec![4.0, 3.0]);
}

#[test]
fn split_samples_cuts_every_channel() {
    let rate = Rate::new(1000);
    let input = stereo(&[1.0, 2.0, 3.0, 4.0], &[5.0, 6.0, 7.0, 8.0]);
    let (head, tail) = split_samples(&input, MusicTime::from_time_ms(3, &rate));
    assert_eq!(plain(head.sample(0)), vec![1.0, 2.0, 3.0]);
    assert_eq!(plain(head.sample(1)), vec![5.0, 6.0, 7.0]);
    assert_eq!(plain(tail.sample(0)), vec![4.0]);
    assert_eq!(plain(tail.sample(1)), vec![8.0]);
    let (head, tail) = split_samples(&input, MusicTime::from_pos(4, &rate));
    assert_eq!(head.sample(0).len(), 4);
    assert_eq!(tail.sample(1).len(), 0);
}

#[test]
fn a_set_can_be_cut_where_every_channel_reaches() {
    let input = stereo(&[1.0, 2.0, 3.0], &[4.0, 5.0]);
    assert!(can_split_at(&input, 0));
    assert!(can_split_at(&input, 2));
    assert!(!can_split_at(&input, 3));
    let empty: MultiChannelSample<F> = MultiChannelSample::empty();
    assert!(!can_split_at(&empty, 0));
    // the first channel is the longer one: its last frame has no second value
    assert!(!input.is_framed());
    assert!(stereo(&[1.0, 2.0], &[4.0, 5.0, 6.0]).is_framed());
    assert!(!empty.is_framed());
}

#[test]
fn split_music_samples_gives_two_clips_of_the_same_rate() {
    let rate = Rate::new(2000);
    let clip = MusicSample::new(stereo(&[1.0, 2.0, 3.0], &[4.0, 5.0, 6.0]), rate);
    let (head, tail) = split_music_samples(&clip, MusicTime::from_time_ms(1, &rate));
    assert_eq!(head.sample_rate().value(), 2000);
    assert_eq!(tail.sample_rate().value(), 2000);
    assert_eq!(plain(head.multi_channel_sample().sample(0)), vec![1.0, 2.0]);
    assert_eq!(plain(tail.multi_channel_sample().sample(1)), vec![6.0]);
}

#[test]
fn minmax_counts_zero_among_the_values() {
    assert_eq!(find_minmax_sample(&wave(&[0.5, -0.25, 0.75])), (F(-0.25), F(0.75)));
    assert_eq!(find_minmax_sample(&wave(&[0.5, 0.25])), (F(0.0), F(0.5)));
    assert_eq!(find_minmax_sample(&wave(&[-0.5, -0.25])), (F(-0.5), F(0.0)));
    assert_eq!(find_minmax_sample(&wave(&[])), (F(0.0), F(0.0)));
    let clip = MusicSample::new(stereo(&[0.5, -0.25], &[-1.0, 0.25]), Rate::new(44100));
    assert_eq!(find_minmax_music_sample(&clip), (F(-1.0), F(0.5)));
}

#[test]
fn scan_definition_holds_its_range() {
    let definition = FftDefinition::for_frequency_precision(100);
    assert_eq!(definition.start_frequency(), 0);
    assert_eq!(definition.end_frequency(), 20_000);
    assert_eq!(definition.frequency_precision(), 100);
    let definition = FftDefinition::new(200, 4000, 50);
    assert_eq!(definition.start_frequency(), 200);
    assert_eq!(definition.end_frequency(), 4000);
    assert_eq!(definition.frequency_precision(), 50);
}

#[test]
fn probe_answers_with_its_text() {
    assert_eq!(audio_core::fft::test(), "This is a test function in fft.rs");
}

#[test]
fn media_file_player_keeps_its_path() {
    let player = MediaFilePlayer::new(String::from("input.mp3"));
    assert_eq!(player.file_path(), "input.mp3");
}

#[test]
fn whole_numbers_saturate() {
    assert_eq!(<i64 as Scalar>::from_int(i128::MAX), i64::MAX);
    assert_eq!(<i64 as Scalar>::from_int(-7), -7);
    assert_eq!(Scalar::plus(i64::MAX, 1), i64::MAX);
    assert_eq!(Scalar::minus(i64::MIN, 1), i64::MIN);
    assert_eq!(Scalar::times(i64::MAX, 2), i64::MAX);
    assert_eq!(Scalar::times(i64::MIN, 2), i64::MIN);
    assert_eq!(Scalar::times(-3i64, 4), -12);
    assert_eq!(Scalar::over(7i64, 2), 3);
    assert_eq!(Scalar::over(-7i64, 2), -3);
    assert_eq!(Scalar::over(7i64, -2), -3);
    assert_eq!(Scalar::over(-7i64, -2), 3);
    assert_eq!(Scalar::over(7i64, 0), 0);
    assert_eq!(Scalar::over(i64::MIN, -1), i64::MAX);
    assert!(Scalar::below(-1i64, 0));
    assert!(!Scalar::below(0i64, 0));
}

#[test]
fn whole_number_channels_transform_like_any_other() {
    let input = MultiChannelSample::mono(Sample::new((0..12).map(|i| i as i64).collect()));
    let out = transform_flat(&input);
    // (10 + 10 + 9 + .. + 1) / 10, rounded towards zero
    assert_eq!(out.sample(0).value(10), 6);
    let out = transform_echo(&input);
    assert_eq!(out.sample(0).len(), 22012);
    assert_eq!(out.sample(0).value(22011), 11);
}
