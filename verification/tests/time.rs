use opencat::time::{
    frames_to_timestamp_micros, ms_to_duration_micros, timestamp_micros_to_frame, DurationMicros,
    DurationRange, FrameIndex, RationalFrameRate, TimestampMicros,
};

#[test]
fn rational_ntsc_frame_timestamp() {
    let rate = RationalFrameRate::new(30_000, 1_001);
    assert_eq!(frames_to_timestamp_micros(FrameIndex(0), rate).0, 0);
    let t = frames_to_timestamp_micros(FrameIndex(30_000), rate);
    assert_eq!(t.0, 1_001_000_000);
}

#[test]
fn non_integer_rate_boundary_frames() {
    let rate = RationalFrameRate::new(24_000, 1_001);
    let t0 = frames_to_timestamp_micros(FrameIndex(0), rate);
    let t1 = frames_to_timestamp_micros(FrameIndex(1), rate);
    assert_eq!(t0.0, 0);
    assert_eq!(t1.0, 41_708);
    assert_eq!(timestamp_micros_to_frame(t1, rate), FrameIndex(1));
}

#[test]
fn duration_range_contains_half_open() {
    let range = DurationRange::with_duration(TimestampMicros(1_000_000), DurationMicros(500_000));
    assert!(range.contains(TimestampMicros(1_000_000)));
    assert!(range.contains(TimestampMicros(1_499_999)));
    assert!(!range.contains(TimestampMicros(1_500_000)));
    assert!(!range.contains(TimestampMicros(999_999)));
    assert_eq!(range.end(), Some(TimestampMicros(1_500_000)));
}

#[test]
fn open_ended_range() {
    let range = DurationRange::from_start(TimestampMicros(10));
    assert!(range.contains(TimestampMicros(10)));
    assert!(range.contains(TimestampMicros(u64::MAX)));
    assert!(!range.contains(TimestampMicros(9)));
}

#[test]
fn rational_zero_rate_falls_back_to_one() {
    assert_eq!(RationalFrameRate::new(0, 0).num, 1);
    let r = RationalFrameRate::integer(30);
    assert_eq!((r.num, r.den), (30, 1));
    assert_eq!(RationalFrameRate::new(30_000, 1_001).as_u32_fps(), 30);
}

#[test]
fn integer_rate_frame_timestamps_round_half_up() {
    let rate = RationalFrameRate::integer(30);
    // 1/30 s = 33333.33 µs, 2/30 s = 66666.67 µs
    assert_eq!(frames_to_timestamp_micros(FrameIndex(1), rate).0, 33_333);
    assert_eq!(frames_to_timestamp_micros(FrameIndex(2), rate).0, 66_667);
    assert_eq!(timestamp_micros_to_frame(TimestampMicros(66_667), rate), FrameIndex(2));
    // exactly half a frame rounds up
    let rate2 = RationalFrameRate::integer(2);
    assert_eq!(timestamp_micros_to_frame(TimestampMicros(250_000), rate2), FrameIndex(1));
}

#[test]
fn timestamp_saturates_at_bounds() {
    assert_eq!(
        TimestampMicros(u64::MAX - 1).saturating_add(DurationMicros(5)),
        TimestampMicros(u64::MAX)
    );
    assert_eq!(TimestampMicros(3).saturating_sub(DurationMicros(5)), TimestampMicros(0));
    assert_eq!(ms_to_duration_micros(1_500), DurationMicros(1_500_000));
    assert_eq!(ms_to_duration_micros(u64::MAX), DurationMicros(u64::MAX));
    assert!(DurationMicros(0).is_zero());
    assert!(!DurationMicros(1).is_zero());
}

#[test]
fn zero_length_range_contains_nothing() {
    let range = DurationRange::with_duration(TimestampMicros(5), DurationMicros(0));
    assert!(!range.contains(TimestampMicros(5)));
    assert_eq!(range.end(), Some(TimestampMicros(5)));
    let open = DurationRange::from_start(TimestampMicros(5));
    assert_eq!(open.end(), None);
}

#[test]
fn fps_of_a_zero_denominator_rate() {
    assert_eq!(RationalFrameRate { num: 24, den: 0 }.as_u32_fps(), u32::MAX);
    assert_eq!(RationalFrameRate { num: 0, den: 0 }.as_u32_fps(), 0);
}
