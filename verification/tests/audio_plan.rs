use opencat::audio_plan::{
    collect_audio_plan, AudioAttachment, Composition, CompositionAudioSource, SceneNode,
    TimelineSegment,
};
use opencat::script::AssetId;
use opencat::time::DurationMicros;

/// scene-a (10 frames), a 5-frame fade, scene-b (20 frames) at 30 fps.
fn two_scene_timeline() -> SceneNode {
    SceneNode::Timeline {
        id: String::new(),
        duration_frames: 35,
        segments: vec![
            TimelineSegment::Scene { scene_id: "scene-a".into(), duration_frames: 10 },
            TimelineSegment::Transition { duration_frames: 5 },
            TimelineSegment::Scene { scene_id: "scene-b".into(), duration_frames: 20 },
        ],
    }
}

fn source(id: &str, asset: &str, attach: AudioAttachment) -> CompositionAudioSource {
    CompositionAudioSource {
        id: id.into(),
        asset: Some(AssetId(asset.into())),
        attach,
        duration: None,
    }
}

fn composition(root: SceneNode, sources: Vec<CompositionAudioSource>) -> Composition {
    Composition {
        fps: 30,
        // 35/30 s
        duration: DurationMicros(1_166_667),
        root,
        audio_sources: sources,
    }
}

#[test]
fn scene_audio_uses_correct_offset() {
    let comp = composition(
        two_scene_timeline(),
        vec![
            source("audio-a", "a.mp3", AudioAttachment::Scene { scene_id: "scene-a".into() }),
            source("audio-b", "b.mp3", AudioAttachment::Scene { scene_id: "scene-b".into() }),
        ],
    );

    let plan = collect_audio_plan(&comp);
    assert_eq!(plan.segments.len(), 2);

    // scene-a starts at frame 0, duration 10 frames at 30fps => 0ms to 333ms
    assert_eq!(plan.segments[0].start_ms, 0);
    assert_eq!(plan.segments[0].end_ms, 333);

    // scene-b starts at frame 15 (10 scene + 5 transition), duration 20 frames => 500ms to 1167ms
    assert_eq!(plan.segments[1].start_ms, 500);
    assert_eq!(plan.segments[1].end_ms, 1167);
}

#[test]
fn timeline_audio_uses_full_duration() {
    let comp = composition(
        two_scene_timeline(),
        vec![source("bgm", "bgm.mp3", AudioAttachment::Timeline)],
    );

    let plan = collect_audio_plan(&comp);
    assert_eq!(plan.segments.len(), 1);
    assert_eq!(plan.segments[0].start_ms, 0);
    assert_eq!(plan.segments[0].end_ms, 1167);
}

#[test]
fn scene_audio_with_own_duration_and_unknown_scene() {
    let mut with_len = source("a", "a.mp3", AudioAttachment::Scene { scene_id: "scene-b".into() });
    with_len.duration = Some(DurationMicros(250_400));
    let mut unknown = source("u", "u.mp3", AudioAttachment::Scene { scene_id: "nope".into() });
    unknown.duration = Some(DurationMicros(1_499));
    let unknown_no_len = source("v", "v.mp3", AudioAttachment::Scene { scene_id: "nope".into() });
    let mut unresolved = source("x", "x.mp3", AudioAttachment::Timeline);
    unresolved.asset = None;
    let comp = composition(
        two_scene_timeline(),
        vec![with_len, unresolved, unknown, unknown_no_len],
    );

    let plan = collect_audio_plan(&comp);
    assert_eq!(plan.segments.len(), 3);
    assert_eq!(plan.segments[0].asset.0, "a.mp3");
    assert_eq!((plan.segments[0].start_ms, plan.segments[0].end_ms), (500, 750));
    assert_eq!(plan.segments[1].asset.0, "u.mp3");
    assert_eq!((plan.segments[1].start_ms, plan.segments[1].end_ms), (0, 1));
    assert_eq!((plan.segments[2].start_ms, plan.segments[2].end_ms), (0, 1167));
}

#[test]
fn scene_lookup_searches_containers_and_matches_timelines() {
    let root = SceneNode::Div {
        children: vec![
            SceneNode::Other,
            SceneNode::Video {
                children: vec![SceneNode::Timeline {
                    id: "inner".into(),
                    duration_frames: 12,
                    segments: vec![],
                }],
            },
            two_scene_timeline(),
        ],
    };
    let comp = composition(
        root,
        vec![
            source("i", "i.mp3", AudioAttachment::Scene { scene_id: "inner".into() }),
            source("b", "b.mp3", AudioAttachment::Scene { scene_id: "scene-b".into() }),
        ],
    );
    let plan = collect_audio_plan(&comp);
    // the inner timeline itself: frames 0..12 => 0..400 ms
    assert_eq!((plan.segments[0].start_ms, plan.segments[0].end_ms), (0, 400));
    assert_eq!((plan.segments[1].start_ms, plan.segments[1].end_ms), (500, 1167));
}
