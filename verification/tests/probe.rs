use opencat::probe::{
    external_dependency_names, probe_image, video_info_from_tags, LottieAsset, TrackTagValue,
};
use opencat::test_support::VideoInfoMeta;
use opencat::time::DurationMicros;

const PNG_1X1: &[u8] = &[
    0x89, 0x50, 0x4E, 0x47, 0x0D, 0x0A, 0x1A, 0x0A, 0x00, 0x00, 0x00, 0x0D, 0x49, 0x48, 0x44,
    0x52, 0x00, 0x00, 0x00, 0x01, 0x00, 0x00, 0x00, 0x01, 0x08, 0x06, 0x00, 0x00, 0x00, 0x1F,
    0x15, 0xC4, 0x89, 0x00, 0x00, 0x00, 0x0A, 0x49, 0x44, 0x41, 0x54, 0x78, 0x9C, 0x63, 0x00,
    0x01, 0x00, 0x00, 0x05, 0x00, 0x01, 0x0D, 0x0A, 0x2D, 0xB4, 0x00, 0x00, 0x00, 0x00, 0x49,
    0x45, 0x4E, 0x44, 0xAE, 0x42, 0x60, 0x82,
];

#[test]
fn probe_image_reads_png() {
    let meta = probe_image(PNG_1X1).expect("png dims");
    assert_eq!(meta.width, 1);
    assert_eq!(meta.height, 1);
}

#[test]
fn probe_image_rejects_unknown_bytes() {
    let err = probe_image(b"not an image").err().expect("should fail");
    assert_eq!(err.message, "imagesize: failed to read image dimensions");
}

fn asset(p: Option<&str>, u: Option<&str>) -> LottieAsset {
    LottieAsset { p: p.map(String::from), u: u.map(String::from), e: None }
}

#[test]
fn scan_finds_external_u_names() {
    let deps = external_dependency_names(&[
        asset(Some("data:image/png;base64,AAAA"), None),
        asset(None, Some("images/photo.png")),
    ]);
    assert_eq!(deps, vec!["photo.png"]);
}

#[test]
fn dependency_names_prefer_p_and_dedupe() {
    let deps = external_dependency_names(&[
        asset(Some("photo.png"), Some("images/")),
        asset(Some("a/b/photo.png"), None),
        asset(Some(""), Some("")),
        asset(None, Some("dir/")),
        asset(Some("x.jpg"), None),
    ]);
    assert_eq!(deps, vec!["photo.png", "x.jpg"]);
}

#[test]
fn video_facts_come_from_track_tags() {
    let info = video_info_from_tags(
        Some(TrackTagValue::U32(1920)),
        Some(TrackTagValue::U32(1080)),
        Some(TrackTagValue::U64(2_500)),
    )
    .unwrap();
    assert_eq!(
        info,
        VideoInfoMeta { width: 1920, height: 1080, duration_micros: Some(DurationMicros(2_500_000)) }
    );

    let no_duration = video_info_from_tags(
        Some(TrackTagValue::U32(4)),
        Some(TrackTagValue::U32(3)),
        Some(TrackTagValue::U32(7)),
    )
    .unwrap();
    assert_eq!(no_duration.duration_micros, None);

    let saturated =
        video_info_from_tags(Some(TrackTagValue::U32(4)), Some(TrackTagValue::U32(3)), Some(TrackTagValue::U64(u64::MAX)))
            .unwrap();
    assert_eq!(saturated.duration_micros, Some(DurationMicros(u64::MAX)));

    assert_eq!(
        video_info_from_tags(Some(TrackTagValue::U64(4)), Some(TrackTagValue::U32(3)), None).unwrap_err().message,
        "video: width tag missing"
    );
    assert_eq!(
        video_info_from_tags(Some(TrackTagValue::U32(4)), None, None).unwrap_err().message,
        "video: height tag missing"
    );
}
