//! Audio schedule derivation.
//!
//! Audio execution (decode, mix, preview, export) belongs to the host; the
//! host derives the schedule it needs straight from the composition. The
//! schedule is a pure function of the composition: one segment per attached
//! audio source, with start and end milliseconds resolved against the scene
//! or timeline it is attached to.

use vstd::prelude::*;
use crate::chars::text_eq;
use crate::script::AssetId;
use crate::time::{u32_max, round_div, DurationMicros};

verus! {

/// One entry of a timeline, with its length already converted to frames at
/// the composition rate.
#[derive(Debug)]
pub enum TimelineSegment {
    Scene { scene_id: String, duration_frames: u32 },
    Transition { duration_frames: u32 },
}

/// The composition's root node as built for frame zero, reduced to what
/// scene lookup reads: timelines with their segments, and the containers a
/// timeline may sit in.
#[derive(Debug)]
pub enum SceneNode {
    Timeline { id: String, duration_frames: u32, segments: Vec<TimelineSegment> },
    Div { children: Vec<SceneNode> },
    Video { children: Vec<SceneNode> },
    Other,
}

/// What an audio source plays along with.
#[derive(Debug)]
pub enum AudioAttachment {
    Timeline,
    Scene { scene_id: String },
}

/// An audio source declared on a composition. `asset` is the catalog asset
/// the source resolves to, if any.
#[derive(Debug)]
pub struct CompositionAudioSource {
    pub id: String,
    pub asset: Option<AssetId>,
    pub attach: AudioAttachment,
    pub duration: Option<DurationMicros>,
}

/// The parts of a composition the audio schedule depends on.
#[derive(Debug)]
pub struct Composition {
    pub fps: u32,
    pub duration: DurationMicros,
    pub root: SceneNode,
    pub audio_sources: Vec<CompositionAudioSource>,
}

/// The audio schedule of a composition.
#[derive(Debug)]
pub struct AudioPlan {
    pub segments: Vec<AudioSegment>,
}

impl Default for AudioPlan {
    fn default() -> (r: Self)
        ensures
            r.segments@.len() == 0,
    {
        AudioPlan { segments: Vec::new() }
    }
}

/// One scheduled audio asset.
#[derive(Debug)]
pub struct AudioSegment {
    pub asset: AssetId,
    pub start_ms: u64,
    pub end_ms: u64,
}

/// `a + b`, saturating at `u32::MAX`.
pub open spec fn sat_add_u32(a: u32, b: u32) -> u32 {
    if a + b > u32_max() {
        0xffff_ffff
    } else {
        (a + b) as u32
    }
}

pub open spec fn segment_frames(s: TimelineSegment) -> u32 {
    match s {
        TimelineSegment::Scene { duration_frames, .. } => duration_frames,
        TimelineSegment::Transition { duration_frames } => duration_frames,
    }
}

/// First scene named `id` among `segs`, whose first segment starts at frame
/// `cursor`: its start frame and length.
pub open spec fn segments_timing(segs: Seq<TimelineSegment>, id: Seq<char>, cursor: u32) -> Option<
    (u32, u32),
>
    decreases segs.len(),
{
    if segs.len() == 0 {
        None
    } else {
        match segs[0] {
            TimelineSegment::Scene { scene_id, duration_frames } if scene_id@ == id => Some(
                (cursor, duration_frames),
            ),
            _ => segments_timing(
                segs.drop_first(),
                id,
                sat_add_u32(cursor, segment_frames(segs[0])),
            ),
        }
    }
}

/// Start frame and length of the scene or timeline named `id`, found by a
/// depth-first search in child order; timelines are not entered.
pub open spec fn scene_timing(n: SceneNode, id: Seq<char>) -> Option<(u32, u32)>
    decreases n, 0int,
{
    match n {
        SceneNode::Timeline { id: tid, duration_frames, segments } => if tid@ == id {
            Some((0, duration_frames))
        } else {
            segments_timing(segments@, id, 0)
        },
        SceneNode::Div { children } => first_scene_timing(children@, id),
        SceneNode::Video { children } => first_scene_timing(children@, id),
        SceneNode::Other => None,
    }
}

/// The first child, in order, in which `scene_timing` finds `id`.
pub open spec fn first_scene_timing(ns: Seq<SceneNode>, id: Seq<char>) -> Option<(u32, u32)>
    decreases ns, 1int,
{
    if ns.len() == 0 {
        None
    } else {
        match scene_timing(ns[0], id) {
            Some(t) => Some(t),
            None => first_scene_timing(ns.drop_first(), id),
        }
    }
}

/// `frame` at `fps` (zero read as one) in milliseconds, rounded half up.
pub open spec fn frame_to_ms(frame: u32, fps: u32) -> int {
    round_div(frame * 1000, if fps == 0 { 1 } else { fps as int })
}

/// A duration in milliseconds, rounded half up.
pub open spec fn duration_to_ms(d: DurationMicros) -> int {
    round_div(d.0 as int, 1000)
}

/// Start and end milliseconds of an audio source in a composition.
pub open spec fn source_span(comp: Composition, s: CompositionAudioSource) -> (int, int) {
    let total_ms: int = duration_to_ms(comp.duration);
    match s.attach {
        AudioAttachment::Timeline => (0, total_ms),
        AudioAttachment::Scene { scene_id } => match scene_timing(comp.root, scene_id@) {
            Some((start_frame, scene_frames)) => {
                let start_ms: int = frame_to_ms(start_frame, comp.fps);
                (
                    start_ms,
                    match s.duration {
                        Some(d) => start_ms + duration_to_ms(d),
                        None => frame_to_ms(sat_add_u32(start_frame, scene_frames), comp.fps),
                    },
                )
            },
            None => (
                0,
                match s.duration {
                    Some(d) => duration_to_ms(d),
                    None => total_ms,
                },
            ),
        },
    }
}

/// The schedule as (asset id, start ms, end ms) triples: one per source that
/// resolves to an asset, in declaration order.
pub open spec fn plan_spec(comp: Composition, srcs: Seq<CompositionAudioSource>) -> Seq<
    (Seq<char>, int, int),
>
    decreases srcs.len(),
{
    if srcs.len() == 0 {
        Seq::empty()
    } else {
        let rest = plan_spec(comp, srcs.drop_last());
        match srcs.last().asset {
            Some(a) => rest.push((a.0@, source_span(comp, srcs.last()).0, source_span(comp, srcs.last()).1)),
            None => rest,
        }
    }
}

/// View of a schedule as triples.
pub open spec fn segments_view(segs: Seq<AudioSegment>) -> Seq<(Seq<char>, int, int)> {
    segs.map_values(|s: AudioSegment| (s.asset.0@, s.start_ms as int, s.end_ms as int))
}

/// `frame_to_ms` computed exactly.
fn frame_ms(frame: u32, fps: u32) -> (r: u64)
    ensures
        r == frame_to_ms(frame, fps),
{
    let f: u128 = if fps == 0 { 1 } else { fps as u128 };
    let n: u128 = frame as u128 * 1000;
    let q: u128 = (2 * n + f) / (2 * f);
    assert(q <= n + 1) by (nonlinear_arith)
        requires
            q == (2 * n + f) / (2 * f),
            f >= 1,
            n >= 0,
    ;
    q as u64
}

/// `duration_to_ms` computed exactly.
fn duration_ms(d: DurationMicros) -> (r: u64)
    ensures
        r == duration_to_ms(d),
{
    let n: u128 = d.0 as u128;
    let q: u128 = (2 * n + 1000) / 2000;
    assert(q <= n / 1000 + 1);
    q as u64
}

/// `segments_timing(segs, id, 0)`.
fn find_in_segments(segs: &Vec<TimelineSegment>, scene_id: &str) -> (r: Option<(u32, u32)>)
    ensures
        r == segments_timing(segs@, scene_id@, 0),
{
    let mut cursor: u32 = 0;
    let mut i: usize = 0;
    assert(segs@.subrange(0, segs@.len() as int) =~= segs@);
    while i < segs.len()
        invariant
            i <= segs@.len(),
            segments_timing(segs@, scene_id@, 0) == segments_timing(
                segs@.subrange(i as int, segs@.len() as int),
                scene_id@,
                cursor,
            ),
        decreases segs@.len() - i,
    {
        let ghost rest = segs@.subrange(i as int, segs@.len() as int);
        assert(rest[0] == segs@[i as int]);
        assert(rest.drop_first() =~= segs@.subrange(i + 1, segs@.len() as int));
        match &segs[i] {
            TimelineSegment::Scene { scene_id: sid, duration_frames } => {
                if text_eq(sid.as_str(), scene_id) {
                    return Some((cursor, *duration_frames));
                }
                cursor = cursor.saturating_add(*duration_frames);
            },
            TimelineSegment::Transition { duration_frames } => {
                cursor = cursor.saturating_add(*duration_frames);
            },
        }
        i = i + 1;
    }
    None
}

/// Start frame and length of the scene or timeline named `scene_id` inside
/// `node` (see `scene_timing`).
fn find_scene_timing_in_node(node: &SceneNode, scene_id: &str) -> (r: Option<(u32, u32)>)
    ensures
        r == scene_timing(*node, scene_id@),
    decreases node,
{
    match node {
        SceneNode::Timeline { id, duration_frames, segments } => {
            if text_eq(id.as_str(), scene_id) {
                return Some((0, *duration_frames));
            }
            find_in_segments(segments, scene_id)
        },
        SceneNode::Div { children } => {
            let mut i: usize = 0;
            assert(children@.subrange(0, children@.len() as int) =~= children@);
            while i < children.len()
                invariant
                    i <= children@.len(),
                    *node == (SceneNode::Div { children: *children }),
                    first_scene_timing(children@, scene_id@) == first_scene_timing(
                        children@.subrange(i as int, children@.len() as int),
                        scene_id@,
                    ),
                decreases children@.len() - i,
            {
                let ghost rest = children@.subrange(i as int, children@.len() as int);
                assert(rest[0] == children@[i as int]);
                assert(rest.drop_first() =~= children@.subrange(i + 1, children@.len() as int));
                proof {
                    assert(decreases_to!(*node => children@[i as int]));
                }
                if let Some(t) = find_scene_timing_in_node(&children[i], scene_id) {
                    return Some(t);
                }
                i = i + 1;
            }
            None
        },
        SceneNode::Video { children } => {
            let mut i: usize = 0;
            assert(children@.subrange(0, children@.len() as int) =~= children@);
            while i < children.len()
                invariant
                    i <= children@.len(),
                    *node == (SceneNode::Video { children: *children }),
                    first_scene_timing(children@, scene_id@) == first_scene_timing(
                        children@.subrange(i as int, children@.len() as int),
                        scene_id@,
                    ),
                decreases children@.len() - i,
            {
                let ghost rest = children@.subrange(i as int, children@.len() as int);
                assert(rest[0] == children@[i as int]);
                assert(rest.drop_first() =~= children@.subrange(i + 1, children@.len() as int));
                proof {
                    assert(decreases_to!(*node => children@[i as int]));
                }
                if let Some(t) = find_scene_timing_in_node(&children[i], scene_id) {
                    return Some(t);
                }
                i = i + 1;
            }
            None
        },
        SceneNode::Other => None,
    }
}

/// Start frame and length of the scene named `scene_id` in the composition.
fn find_scene_timing(comp: &Composition, scene_id: &str) -> (r: Option<(u32, u32)>)
    ensures
        r == scene_timing(comp.root, scene_id@),
{
    find_scene_timing_in_node(&comp.root, scene_id)
}

/// Start and end milliseconds of one source.
fn source_span_ms(comp: &Composition, s: &CompositionAudioSource) -> (r: (u64, u64))
    ensures
        r.0 == source_span(*comp, *s).0,
        r.1 == source_span(*comp, *s).1,
{
    let total_ms: u64 = duration_ms(comp.duration);
    match &s.attach {
        AudioAttachment::Timeline => (0, total_ms),
        AudioAttachment::Scene { scene_id } => match find_scene_timing(comp, scene_id.as_str()) {
            Some((start_frame, scene_frames)) => {
                let start_ms: u64 = frame_ms(start_frame, comp.fps);
                let end_ms: u64 = match s.duration {
                    Some(d) => start_ms + duration_ms(d),
                    None => frame_ms(start_frame.saturating_add(scene_frames), comp.fps),
                };
                (start_ms, end_ms)
            },
            None => {
                let dur_ms: u64 = match s.duration {
                    Some(d) => duration_ms(d),
                    None => total_ms,
                };
                (0, dur_ms)
            },
        },
    }
}

/// Derives the audio schedule of a composition: one segment per audio
/// source that resolves to an asset, in declaration order, with start/end
/// milliseconds resolved against the scene or timeline it is attached to.
pub fn collect_audio_plan(comp: &Composition) -> (r: AudioPlan)
    ensures
        segments_view(r.segments@) == plan_spec(*comp, comp.audio_sources@),
{
    let mut segments: Vec<AudioSegment> = Vec::new();
    let mut i: usize = 0;
    while i < comp.audio_sources.len()
        invariant
            i <= comp.audio_sources@.len(),
            segments_view(segments@) == plan_spec(
                *comp,
                comp.audio_sources@.subrange(0, i as int),
            ),
        decreases comp.audio_sources@.len() - i,
    {
        let s = &comp.audio_sources[i];
        assert(comp.audio_sources@.subrange(0, i + 1).drop_last() =~= comp.audio_sources@.subrange(
            0,
            i as int,
        ));
        match &s.asset {
            Some(asset) => {
                let (start_ms, end_ms) = source_span_ms(comp, s);
                segments.push(AudioSegment { asset: AssetId(asset.0.clone()), start_ms, end_ms });
                assert(segments_view(segments@) =~= plan_spec(
                    *comp,
                    comp.audio_sources@.subrange(0, i + 1),
                ));
            },
            None => {},
        }
        i = i + 1;
    }
    assert(comp.audio_sources@.subrange(0, comp.audio_sources@.len() as int)
        =~= comp.audio_sources@);
    AudioPlan { segments }
}

/// Number of sources that resolve to an asset.
pub open spec fn resolved_count(srcs: Seq<CompositionAudioSource>) -> nat
    decreases srcs.len(),
{
    if srcs.len() == 0 {
        0
    } else {
        resolved_count(srcs.drop_last()) + if srcs.last().asset is Some {
            1nat
        } else {
            0nat
        }
    }
}

proof fn lemma_round_div_monotone(a: int, b: int, d: int)
    requires
        0 <= a <= b,
        d > 0,
    ensures
        round_div(a, d) <= round_div(b, d),
{
    assert((2 * a + d) / (2 * d) <= (2 * b + d) / (2 * d)) by (nonlinear_arith)
        requires
            0 <= a <= b,
            d > 0,
    ;
}

/// A source's span never ends before it starts.
pub proof fn lemma_source_span_ordered(comp: Composition, s: CompositionAudioSource)
    ensures
        0 <= source_span(comp, s).0 <= source_span(comp, s).1,
{
    let fps: int = if comp.fps == 0 { 1 } else { comp.fps as int };
    lemma_round_div_monotone(0, comp.duration.0 as int, 1000);
    match s.duration {
        Some(d) => lemma_round_div_monotone(0, d.0 as int, 1000),
        None => {},
    }
    match s.attach {
        AudioAttachment::Scene { scene_id } => match scene_timing(comp.root, scene_id@) {
            Some((start_frame, scene_frames)) => {
                lemma_round_div_monotone(0, start_frame * 1000, fps);
                lemma_round_div_monotone(
                    start_frame * 1000,
                    sat_add_u32(start_frame, scene_frames) * 1000,
                    fps,
                );
            },
            None => {},
        },
        AudioAttachment::Timeline => {},
    }
}

/// The schedule has one segment per source that resolves to an asset, and
/// no segment ends before it starts.
pub proof fn lemma_plan_segments(comp: Composition, srcs: Seq<CompositionAudioSource>)
    ensures
        plan_spec(comp, srcs).len() == resolved_count(srcs),
        forall|k: int|
            0 <= k < plan_spec(comp, srcs).len() ==> 0 <= (#[trigger] plan_spec(comp, srcs)[k]).1
                <= plan_spec(comp, srcs)[k].2,
    decreases srcs.len(),
{
    if srcs.len() > 0 {
        lemma_plan_segments(comp, srcs.drop_last());
        lemma_source_span_ordered(comp, srcs.last());
        let prev = plan_spec(comp, srcs.drop_last());
        let cur = plan_spec(comp, srcs);
        assert forall|k: int| 0 <= k < cur.len() implies 0 <= (#[trigger] cur[k]).1 <= cur[k].2 by {
            if k < prev.len() {
                assert(cur[k] == prev[k]);
            }
        }
    }
}

} // verus!
