use opencat::media::{
    build_decode_slice_plan, nearest_keyframe_before, previous_keyframe_before,
    quantize_target_size, seek_feed_margin_us, DecodeSlicePlan, MediaContext, VideoInfo,
    VideoPreviewQuality,
};

#[test]
fn decode_plan_starts_at_nearest_keyframe() {
    let plan = build_decode_slice_plan(
        &[0, 1_000_000, 2_000_000],
        1_400_000,
        VideoPreviewQuality::Realtime,
    );
    assert_eq!(plan[0].timestamp_us, 1_000_000);
    assert!(plan[0].is_key);
    assert_eq!(plan[1].timestamp_us, 1_750_000);
}

#[test]
fn feed_margins_widen_with_quality() {
    assert_eq!(seek_feed_margin_us(VideoPreviewQuality::Scrubbing), 120_000);
    assert_eq!(seek_feed_margin_us(VideoPreviewQuality::Realtime), 350_000);
    assert_eq!(seek_feed_margin_us(VideoPreviewQuality::Exact), 500_000);
}

#[test]
fn keyframe_lookup_edges() {
    let keys = [0u64, 1_000_000, 2_000_000];
    assert_eq!(nearest_keyframe_before(&[], 77), 77);
    // one microsecond of slack past the target
    assert_eq!(nearest_keyframe_before(&keys, 999_999), 1_000_000);
    assert_eq!(nearest_keyframe_before(&keys, 999_998), 0);
    assert_eq!(nearest_keyframe_before(&keys, 5_000_000), 2_000_000);
    assert_eq!(nearest_keyframe_before(&[10, 20], 3), 10);
    assert_eq!(nearest_keyframe_before(&[5], u64::MAX), 5);

    assert_eq!(previous_keyframe_before(&[], 10), None);
    assert_eq!(previous_keyframe_before(&keys, 0), None);
    assert_eq!(previous_keyframe_before(&keys, 1_000_000), Some(0));
    assert_eq!(previous_keyframe_before(&keys, 1_000_001), Some(1_000_000));
}

#[test]
fn decode_plan_without_feed_step() {
    // the target sits far before the only keyframe: feed end is not after it
    let plan = build_decode_slice_plan(&[2_000_000], 0, VideoPreviewQuality::Scrubbing);
    assert_eq!(plan, vec![DecodeSlicePlan { timestamp_us: 2_000_000, is_key: true }]);
}

#[test]
fn set_composition_fps_updates_field() {
    let mut ctx = MediaContext::new();
    assert_eq!(ctx.composition_fps, 30);
    ctx.set_composition_fps(60);
    assert_eq!(ctx.composition_fps, 60);
}

#[test]
fn preview_quality_round_trips() {
    let mut ctx = MediaContext::new();
    assert_eq!(ctx.video_preview_quality(), VideoPreviewQuality::Realtime);
    ctx.set_video_preview_quality(VideoPreviewQuality::Exact);
    assert_eq!(ctx.video_preview_quality(), VideoPreviewQuality::Exact);
}

#[test]
fn quantize_target_size_returns_none_when_at_or_above_source() {
    let info = VideoInfo { width: 1920, height: 1080, duration: None };
    assert_eq!(quantize_target_size(None, &info), None);
    assert_eq!(quantize_target_size(Some((1920, 1080)), &info), None);
    assert_eq!(quantize_target_size(Some((4000, 4000)), &info), None);
}

#[test]
fn quantize_target_size_buckets_to_16_pixel_grid() {
    let info = VideoInfo { width: 1920, height: 1080, duration: None };
    assert_eq!(quantize_target_size(Some((320, 180)), &info), Some((320, 192)));
    assert_eq!(quantize_target_size(Some((321, 181)), &info), Some((336, 192)));
    assert_eq!(quantize_target_size(Some((4, 4)), &info), Some((16, 16)));
}

#[test]
fn quantize_target_size_clamps_to_source_resolution() {
    let info = VideoInfo { width: 100, height: 100, duration: None };
    assert_eq!(quantize_target_size(Some((50, 200)), &info), Some((64, 100)));
}

#[test]
fn quantize_bucket_reaching_source_decodes_native() {
    let info = VideoInfo { width: 100, height: 100, duration: None };
    // 99 rounds up to 112, clamped to 100 on both axes
    assert_eq!(quantize_target_size(Some((99, 99)), &info), None);
}
