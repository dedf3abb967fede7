use opencat::errors::{ConsumerError, DrawError, DrawStats, GeneratedImageId, MediaError};

#[test]
fn media_error_display_contains_variant_info() {
    let e1 = MediaError::MissingImage { asset_id: "a.png".into() };
    let e2 = MediaError::MissingVideo { asset_id: "b.mp4".into() };
    let e3 = MediaError::MissingLottieBundle { bundle_id: "c".into() };
    let e4 = MediaError::ImageDecodeFailed { asset_id: "d.png".into(), detail: "e".into() };
    let e5 = MediaError::VideoFrameDecodeFailed { asset_id: "f.mp4".into(), detail: "g".into() };
    let e6 = MediaError::GeneratedImageDecodeFailed { id: GeneratedImageId(0xDEAD), detail: "h".into() };
    let e7 = MediaError::RuntimeEffectCompileFailed { hash: 0x1234, detail: "i".into() };

    assert!(e1.message().contains("a.png"), "missing image display: {}", e1.message());
    assert!(e2.message().contains("b.mp4"), "missing video display: {}", e2.message());
    assert!(e3.message().contains("c"), "missing lottie display: {}", e3.message());
    assert!(e4.message().contains("d.png"), "image decode display: {}", e4.message());
    assert!(e5.message().contains("f.mp4"), "video decode display: {}", e5.message());
    assert!(e6.message().contains("GeneratedImageId"), "generated image display: {}", e6.message());
    assert!(e7.message().contains("0x1234"), "effect compile display: {}", e7.message());
}

#[test]
fn media_error_texts_are_exact() {
    assert_eq!(
        MediaError::MissingImage { asset_id: "a.png".into() }.message(),
        "media error: missing image `a.png`"
    );
    assert_eq!(
        MediaError::ImageDecodeFailed { asset_id: "d.png".into(), detail: "bad".into() }.message(),
        "media error: image `d.png` decode failed: bad"
    );
    assert_eq!(
        MediaError::GeneratedImageDecodeFailed { id: GeneratedImageId(0xDEAD), detail: "h".into() }
            .message(),
        "media error: generated image GeneratedImageId(57005) decode failed: h"
    );
    assert_eq!(
        MediaError::RuntimeEffectCompileFailed { hash: 0, detail: "i".into() }.message(),
        "media error: runtime effect 0x0 compile failed: i"
    );
    assert_eq!(
        MediaError::RuntimeEffectCompileFailed { hash: u64::MAX, detail: String::new() }.message(),
        "media error: runtime effect 0xffffffffffffffff compile failed: "
    );
    assert_eq!(
        MediaError::MissingLottieBundle { bundle_id: "lottie:x".into() }.message(),
        "media error: missing Lottie bundle `lottie:x`"
    );
}

#[test]
fn draw_error_and_stats() {
    assert_eq!(DrawError("boom".into()).message(), "DrawError: boom");
    let stats = DrawStats::default();
    assert_eq!((stats.op_count, stats.cache_hits), (0, 0));
}

#[test]
fn consumer_error_displays_the_failure_it_carries() {
    let media = ConsumerError::from(MediaError::MissingVideo { asset_id: "clip.mp4".into() });
    assert_eq!(media.message(), "media error: missing video `clip.mp4`");
    assert!(matches!(media, ConsumerError::Media(MediaError::MissingVideo { .. })));

    let draw = ConsumerError::from(DrawError("surface lost".into()));
    assert_eq!(draw.message(), "DrawError: surface lost");
    assert!(matches!(draw, ConsumerError::Draw(_)));

    let other = ConsumerError::Other("pipeline closed".into());
    assert_eq!(other.message(), "pipeline closed");
}
