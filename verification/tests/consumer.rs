use opencat::consumer::{
    validate_image_handles, validate_lottie_handles, validate_video_handles, FrameMediaPlan,
    ResourceKind,
};
use opencat::errors::MediaError;
use opencat::script::ImageRef;

/// A loader with no assets.
fn empty_loader(_kind: ResourceKind, _id: &String) -> bool {
    false
}

fn plan() -> FrameMediaPlan {
    FrameMediaPlan { images: vec![], video_frames: vec![], lottie_bundles: vec![] }
}

#[test]
fn validate_image_handles_reports_missing_image() {
    let mut p = plan();
    p.images = vec![ImageRef::Static { asset_id: "nonexistent.png".into() }];
    let err = validate_image_handles(&p, &empty_loader).unwrap_err();
    match err {
        MediaError::MissingImage { asset_id } => assert_eq!(asset_id, "nonexistent.png"),
        other => panic!("expected MissingImage, got {other:?}"),
    }
}

#[test]
fn validate_image_handles_passes_with_no_images() {
    validate_image_handles(&plan(), &empty_loader).expect("empty plan should validate");
}

#[test]
fn validate_video_handles_reports_missing_video() {
    let mut p = plan();
    p.video_frames = vec![ImageRef::VideoFrame { asset_id: "missing.mp4".into(), time_micros: 166_667 }];
    let err = validate_video_handles(&p, &empty_loader).unwrap_err();
    match err {
        MediaError::MissingVideo { asset_id } => assert_eq!(asset_id, "missing.mp4"),
        other => panic!("expected MissingVideo, got {other:?}"),
    }
}

#[test]
fn validate_lottie_handles_reports_missing_bundle() {
    let mut p = plan();
    p.lottie_bundles = vec!["lottie:missing".into()];
    let err = validate_lottie_handles(&p, &empty_loader).unwrap_err();
    match err {
        MediaError::MissingLottieBundle { bundle_id } => assert_eq!(bundle_id, "lottie:missing"),
        other => panic!("expected MissingLottieBundle, got {other:?}"),
    }
}

#[test]
fn validate_empty_plan_passes() {
    let p = plan();
    validate_image_handles(&p, &empty_loader).expect("no images");
    validate_video_handles(&p, &empty_loader).expect("no videos");
    validate_lottie_handles(&p, &empty_loader).expect("no lottie");
}

#[test]
fn validation_names_the_first_missing_asset_and_skips_other_buckets() {
    let known = |kind: ResourceKind, id: &String| match kind {
        ResourceKind::Image => id == "a.png",
        ResourceKind::Video => id == "v.mp4",
        _ => false,
    };
    let mut p = plan();
    p.images = vec![
        ImageRef::Static { asset_id: "a.png".into() },
        ImageRef::VideoFrame { asset_id: "ignored.mp4".into(), time_micros: 0 },
        ImageRef::Generated { id: 7 },
        ImageRef::Static { asset_id: "b.png".into() },
        ImageRef::Static { asset_id: "c.png".into() },
    ];
    p.video_frames = vec![
        ImageRef::Static { asset_id: "ignored.png".into() },
        ImageRef::VideoFrame { asset_id: "v.mp4".into(), time_micros: 10 },
    ];
    match validate_image_handles(&p, &known) {
        Err(MediaError::MissingImage { asset_id }) => assert_eq!(asset_id, "b.png"),
        other => panic!("expected MissingImage, got {other:?}"),
    }
    validate_video_handles(&p, &known).expect("video frames have handles");
}
