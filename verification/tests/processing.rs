use stolas::processing::{select_gain, FrameSchedule, SampleStep};

#[test]
fn frames_every_window_times_average_samples() {
    let mut s = FrameSchedule::new(2, 3);
    let steps: Vec<SampleStep> = (0..12).map(|_| s.push_sample()).collect();
    assert_eq!(
        steps,
        vec![
            SampleStep::Buffered,
            SampleStep::Spectrum,
            SampleStep::Buffered,
            SampleStep::Spectrum,
            SampleStep::Buffered,
            SampleStep::Frame { serial: 0 },
            SampleStep::Buffered,
            SampleStep::Spectrum,
            SampleStep::Buffered,
            SampleStep::Spectrum,
            SampleStep::Buffered,
            SampleStep::Frame { serial: 1 },
        ]
    );
    assert_eq!(s.num_frames(), 2);
    assert_eq!(s.window_size(), 2);
    assert_eq!(s.average_size(), 3);
}

#[test]
fn single_sample_windows_and_single_spectrum_averages() {
    let mut s = FrameSchedule::new(1, 1);
    for serial in 0..5 {
        assert_eq!(s.push_sample(), SampleStep::Frame { serial });
    }
}

#[test]
fn default_configuration_frame_rate() {
    let mut s = FrameSchedule::new(512, 4);
    let frames = (0..512 * 4 * 3)
        .filter(|_| matches!(s.push_sample(), SampleStep::Frame { .. }))
        .count();
    assert_eq!(frames, 3);
}

#[test]
fn closest_gain() {
    let gains = [0, 9, 14, 27, 37, 77, 87, 125, 144, 157, 166, 197, 207, 229, 254, 280, 297];
    assert_eq!(select_gain(&gains, 200), (11, 197));
    assert_eq!(select_gain(&gains, 20), (2, 14));
    assert_eq!(select_gain(&gains, 1000), (16, 297));
    assert_eq!(select_gain(&gains, -5), (0, 0));
}

#[test]
fn closest_gain_ties_go_to_the_first() {
    assert_eq!(select_gain(&[10, 30, 20], 20), (2, 20));
    assert_eq!(select_gain(&[10, 30], 20), (0, 10));
}

#[test]
fn batches_complete_one_frame_per_window_times_average() {
    let mut s = FrameSchedule::new(2, 3);
    assert_eq!(s.push_samples(5), Vec::<u64>::new());
    assert_eq!(s.push_samples(13), vec![0, 1, 2]);
    assert_eq!(s.push_samples(0), Vec::<u64>::new());
    assert_eq!(s.push_samples(6), vec![3]);
    assert_eq!(s.num_frames(), 4);
}
