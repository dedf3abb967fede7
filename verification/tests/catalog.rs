use opencat::script::AssetId;
use opencat::test_support::{TestCatalog, VideoInfoMeta};
use opencat::time::DurationMicros;

#[test]
fn catalog_records_dimensions_and_video_facts() {
    let mut cat = TestCatalog::new();
    let id = cat.register_dimensions(AssetId("img:a".into()), 640, 480);
    assert_eq!(id, AssetId("img:a".into()));
    assert_eq!(cat.dimensions(&id), (640, 480));
    assert_eq!(cat.dimensions(&AssetId("img:none".into())), (0, 0));
    assert!(cat.is_known_asset(&id));
    assert!(!cat.is_known_asset(&AssetId("img:none".into())));

    let info = VideoInfoMeta { width: 1920, height: 1080, duration_micros: Some(DurationMicros(2_000_000)) };
    let vid = cat.register_video_info(AssetId("video:v".into()), info);
    assert_eq!(cat.video_info(&vid), Some(info));
    assert_eq!(cat.dimensions(&vid), (1920, 1080));
    assert_eq!(cat.video_info(&id), None);
}

#[test]
fn catalog_aliases_need_a_declared_target() {
    let mut cat = TestCatalog::new();
    let target = cat.register_dimensions(AssetId("img:t".into()), 10, 20);
    cat.alias(AssetId("img:alias".into()), &target).unwrap();
    assert_eq!(cat.dimensions(&AssetId("img:alias".into())), (10, 20));
    assert_eq!(cat.resolve_alias(&AssetId("img:alias".into())), Some(target.clone()));
    assert_eq!(cat.resolve_alias(&target), None);

    let err = cat.alias(AssetId("img:x".into()), &AssetId("img:\"missing\"".into())).unwrap_err();
    assert_eq!(err.message, "alias target AssetId(\"img:\\\"missing\\\"\") is not a declared asset");
    assert!(!cat.is_known_asset(&AssetId("img:x".into())));
}

#[test]
fn catalog_registers_audio_under_its_locator() {
    let mut catalog = TestCatalog::new();
    let id = catalog.register_audio("music/theme.mp3");
    assert_eq!(id.0, "music/theme.mp3");
    assert!(catalog.is_known_asset(&id));
    assert_eq!(catalog.dimensions(&id), (0, 0));

    let sized = catalog.register_dimensions(AssetId("music/cover.mp3".into()), 4, 3);
    let again = catalog.register_audio("music/cover.mp3");
    assert_eq!(again.0, sized.0);
    assert_eq!(catalog.dimensions(&again), (4, 3));
}
