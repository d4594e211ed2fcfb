use karaoke_core::audio::frame::deinterleave;
use karaoke_core::audio::frame::fit_to_frame;
use karaoke_core::audio::frame::gain_frame;
use karaoke_core::audio::frame::level_frame;
use karaoke_core::audio::frame::make_silent_frame;
use karaoke_core::audio::frame::mix_frames;
use karaoke_core::audio::frame::mix_into;
use karaoke_core::audio::frame::spread;
use karaoke_core::audio::ring::pad_underrun;

fn limit(s: f32) -> f32 {
    s.clamp(-1.0, 1.0)
}

fn scale(s: f32, f: f32) -> f32 {
    s * f
}

fn mix(a: f32, b: f32) -> f32 {
    a + b
}

#[test]
fn silent_frame_has_the_asked_length() {
    assert_eq!(make_silent_frame(3, 0.0f32), vec![0.0, 0.0, 0.0]);
    assert_eq!(make_silent_frame(0, 0.0f32), Vec::<f32>::new());
}

#[test]
fn long_buffer_is_truncated() {
    assert_eq!(fit_to_frame(&vec![1.0f32, 2.0, 3.0, 4.0], 2, 0.0), vec![1.0, 2.0]);
}

#[test]
fn short_buffer_is_padded() {
    assert_eq!(fit_to_frame(&vec![1.0f32, 2.0], 4, 0.0), vec![1.0, 2.0, 0.0, 0.0]);
}

#[test]
fn fitting_buffer_is_kept() {
    assert_eq!(fit_to_frame(&vec![1.0f32, 2.0], 2, 0.0), vec![1.0, 2.0]);
    assert_eq!(fit_to_frame(&Vec::<f32>::new(), 0, 0.0), Vec::<f32>::new());
}

#[test]
fn channels_are_split_off_interleaved_data() {
    let data = [10.0f32, 20.0, 11.0, 21.0, 12.0, 22.0];
    assert_eq!(deinterleave(&data, 0, 2), vec![10.0, 11.0, 12.0]);
    assert_eq!(deinterleave(&data, 1, 2), vec![20.0, 21.0, 22.0]);
    assert_eq!(deinterleave(&data, 0, 1), data.to_vec());
}

#[test]
fn incomplete_last_frame_still_counts() {
    let data = [1.0f32, 2.0, 3.0, 4.0, 5.0];
    assert_eq!(deinterleave(&data, 0, 2), vec![1.0, 3.0, 5.0]);
    assert_eq!(deinterleave(&data, 1, 2), vec![2.0, 4.0]);
    assert_eq!(deinterleave(&data, 4, 3), vec![5.0]);
    assert_eq!(deinterleave(&data, 3, 7), vec![4.0]);
}

#[test]
fn channel_outside_the_data_holds_nothing() {
    let data = [1.0f32, 2.0, 3.0];
    assert_eq!(deinterleave(&data, -1, 2), Vec::<f32>::new());
    assert_eq!(deinterleave(&data, i32::MIN, 2), Vec::<f32>::new());
    assert_eq!(deinterleave(&data, 3, 2), Vec::<f32>::new());
    assert_eq!(deinterleave(&data, i32::MAX, 1), Vec::<f32>::new());
    assert_eq!(deinterleave(&[] as &[f32], 0, 2), Vec::<f32>::new());
}

#[test]
fn channel_past_the_channel_count_steps_from_its_offset() {
    let data = [0.0f32, 1.0, 2.0, 3.0, 4.0, 5.0, 6.0];
    assert_eq!(deinterleave(&data, 3, 2), vec![3.0, 5.0]);
}

#[test]
fn gain_scales_then_limits() {
    let gained = gain_frame(&vec![0.25f32, -0.5, 0.75, -1.0], 2.0, &limit, &scale);
    assert_eq!(gained, vec![0.5, -1.0, 1.0, -1.0]);
}

#[test]
fn mixing_into_a_frame_stops_at_the_shorter() {
    let mut mixed = vec![1.0f32, 2.0, 3.0];
    mix_into(&mut mixed, &vec![10.0, 20.0], &mix);
    assert_eq!(mixed, vec![11.0, 22.0, 3.0]);
    mix_into(&mut mixed, &vec![1.0, 1.0, 1.0, 1.0], &mix);
    assert_eq!(mixed, vec![12.0, 23.0, 4.0]);
}

#[test]
fn frames_are_summed_sample_by_sample() {
    let frames = vec![vec![0.1f32, 0.2], vec![0.3, 0.4], vec![-1.0, 1.0]];
    let mixed = mix_frames(&frames, 2, 0.0, &mix);
    assert_eq!(mixed, vec![0.0f32 + 0.1 + 0.3 + -1.0, 0.0f32 + 0.2 + 0.4 + 1.0]);
}

#[test]
fn frames_are_mixed_in_their_order() {
    let first = |a: i64, b: i64| a * 10 + b;
    let frames = vec![vec![1i64], vec![2], vec![3]];
    assert_eq!(mix_frames(&frames, 1, 0, &first), vec![123]);
}

#[test]
fn mix_of_no_frames_is_silence() {
    assert_eq!(mix_frames(&Vec::<Vec<f32>>::new(), 3, 0.0, &mix), vec![0.0, 0.0, 0.0]);
}

#[test]
fn level_limits_scales_and_limits_again() {
    let levelled = level_frame(&vec![0.5f32, 2.0, -3.0, 0.0], 0.8, &limit, &scale);
    assert_eq!(levelled, vec![0.5f32 * 0.8, 0.8, -0.8, 0.0]);
    let loud = level_frame(&vec![0.75f32, -0.25], 4.0, &limit, &scale);
    assert_eq!(loud, vec![1.0, -1.0]);
}

#[test]
fn spread_duplicates_each_sample_over_its_frame() {
    let mut data = [9.0f32; 6];
    spread(&vec![1.0, 2.0, 3.0], &mut data, 2);
    assert_eq!(data, [1.0, 1.0, 2.0, 2.0, 3.0, 3.0]);
}

#[test]
fn spread_leaves_the_incomplete_frame_alone() {
    let mut data = [9.0f32; 7];
    spread(&vec![1.0, 2.0], &mut data, 3);
    assert_eq!(data, [1.0, 1.0, 1.0, 2.0, 2.0, 2.0, 9.0]);
    let mut short = [9.0f32; 4];
    spread(&vec![1.0], &mut short, 2);
    assert_eq!(short, [1.0, 1.0, 9.0, 9.0]);
}

#[test]
fn underrun_is_padded_with_silence() {
    assert_eq!(pad_underrun(vec![1.0f32, 2.0, 3.0, 4.0], 2, 0.0), vec![1.0, 2.0, 0.0, 0.0]);
    assert_eq!(pad_underrun(vec![1.0f32, 2.0], 0, 0.0), vec![0.0, 0.0]);
    assert_eq!(pad_underrun(vec![1.0f32, 2.0], 2, 0.0), vec![1.0, 2.0]);
    assert_eq!(pad_underrun(vec![1.0f32, 2.0], 5, 0.0), vec![1.0, 2.0]);
}
