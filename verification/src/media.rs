//! Media decode policy: preview quality, keyframe seek plans, scale-target
//! bucketing, and the media context's settings.

use std::sync::Arc;
use vstd::prelude::*;
use crate::time::DurationMicros;

verus! {

/// How precisely preview decoding must hit the requested time.
#[derive(Clone, Copy, Debug, PartialEq, Eq, Structural)]
pub enum VideoPreviewQuality {
    Scrubbing,
    Realtime,
    Exact,
}

/// One step of a decode plan: a timestamp to decode up to, and whether it is
/// the keyframe the decoder seeks to.
#[derive(Clone, Copy, Debug, PartialEq, Eq, Structural)]
pub struct DecodeSlicePlan {
    pub timestamp_us: u64,
    pub is_key: bool,
}

/// Which decoder lane serves a request: an existing lane, or a new one.
#[derive(Clone, Copy, Debug, PartialEq, Eq, Structural)]
pub enum DecoderLaneSelection {
    Reuse(usize),
    OpenNew,
}

pub open spec fn feed_margin_spec(quality: VideoPreviewQuality) -> u64 {
    match quality {
        VideoPreviewQuality::Scrubbing => 120_000,
        VideoPreviewQuality::Realtime => 350_000,
        VideoPreviewQuality::Exact => 500_000,
    }
}

/// How far past the target the decoder is fed, in microseconds.
pub fn seek_feed_margin_us(quality: VideoPreviewQuality) -> (r: u64)
    ensures
        r == feed_margin_spec(quality),
{
    match quality {
        VideoPreviewQuality::Scrubbing => 120_000,
        VideoPreviewQuality::Realtime => 350_000,
        VideoPreviewQuality::Exact => 500_000,
    }
}

/// The decoder is fed further past the target the more exact the preview
/// must be: 0.12 s while scrubbing, 0.35 s in realtime preview, 0.5 s when
/// exact.
pub proof fn lemma_feed_margins()
    ensures
        feed_margin_spec(VideoPreviewQuality::Scrubbing) == 120 * 1000,
        feed_margin_spec(VideoPreviewQuality::Realtime) == 350 * 1000,
        feed_margin_spec(VideoPreviewQuality::Exact) == 500 * 1000,
        feed_margin_spec(VideoPreviewQuality::Scrubbing) < feed_margin_spec(
            VideoPreviewQuality::Realtime,
        ) < feed_margin_spec(VideoPreviewQuality::Exact),
{
}

/// `a + b`, saturating at `u64::MAX`.
pub open spec fn sat_add_u64(a: u64, b: u64) -> u64 {
    if a + b > u64::MAX {
        u64::MAX
    } else {
        (a + b) as u64
    }
}

/// Whether timestamp `us` lies before the bound (strictly, or up to it).
pub open spec fn below(us: u64, bound: u64, strict: bool) -> bool {
    if strict {
        us < bound
    } else {
        us <= bound
    }
}

/// `p` splits `keys` into a prefix below the bound and a suffix that is not:
/// the element just before `p` is below it and the element at `p` is not.
/// On a sorted list exactly one `p` does so.
pub open spec fn is_partition_point(keys: Seq<u64>, bound: u64, strict: bool, p: int) -> bool {
    &&& 0 <= p <= keys.len()
    &&& p > 0 ==> below(keys[p - 1], bound, strict)
    &&& p < keys.len() ==> !below(keys[p], bound, strict)
}

/// Keyframe timestamps in ascending order.
pub open spec fn sorted(keys: Seq<u64>) -> bool {
    forall|i: int, j: int| 0 <= i <= j < keys.len() ==> keys[i] <= keys[j]
}

/// On a sorted list the partition point is unique.
pub proof fn lemma_partition_point_unique(keys: Seq<u64>, bound: u64, strict: bool, p: int, q: int)
    requires
        sorted(keys),
        is_partition_point(keys, bound, strict, p),
        is_partition_point(keys, bound, strict, q),
    ensures
        p == q,
{
    if p < q {
        assert(keys[p] <= keys[q - 1]);
    }
    if q < p {
        assert(keys[q] <= keys[p - 1]);
    }
}

/// Binary search for a partition point of `keys` at `bound`.
fn partition_point(keys: &[u64], bound: u64, strict: bool) -> (r: usize)
    ensures
        is_partition_point(keys@, bound, strict, r as int),
{
    let mut lo: usize = 0;
    let mut hi: usize = keys.len();
    while lo < hi
        invariant
            0 <= lo <= hi <= keys@.len(),
            lo > 0 ==> below(keys@[lo - 1], bound, strict),
            hi < keys@.len() ==> !below(keys@[hi as int], bound, strict),
        decreases hi - lo,
    {
        let mid: usize = lo + (hi - lo) / 2;
        let k: u64 = keys[mid];
        let is_below = if strict {
            k < bound
        } else {
            k <= bound
        };
        if is_below {
            lo = mid + 1;
        } else {
            hi = mid;
        }
    }
    lo
}

/// `k` is the keyframe a seek to `target_us` starts from: with no keyframes,
/// the target itself; otherwise the last keyframe at or before one
/// microsecond past the target, or the first keyframe when none is.
pub open spec fn is_seek_keyframe(keys: Seq<u64>, target_us: u64, k: u64) -> bool {
    if keys.len() == 0 {
        k == target_us
    } else {
        exists|p: int|
            is_partition_point(keys, sat_add_u64(target_us, 1), false, p) && k == keys[if p > 0 {
                p - 1
            } else {
                0
            }]
    }
}

/// Keyframe to seek to for `target_us`.
pub fn nearest_keyframe_before(keyframes: &[u64], target_us: u64) -> (r: u64)
    ensures
        is_seek_keyframe(keyframes@, target_us, r),
{
    if keyframes.len() == 0 {
        return target_us;
    }
    let index: usize = partition_point(keyframes, target_us.saturating_add(1), false);
    let i: usize = index.saturating_sub(1);
    let r: u64 = keyframes[i];
    assert(is_partition_point(keyframes@, sat_add_u64(target_us, 1), false, index as int));
    r
}

/// `r` is the last keyframe strictly before `target_us`, if any.
pub open spec fn is_previous_keyframe(keys: Seq<u64>, target_us: u64, r: Option<u64>) -> bool {
    if keys.len() == 0 {
        r is None
    } else {
        exists|p: int|
            is_partition_point(keys, target_us, true, p) && r == (if p > 0 {
                Some(keys[p - 1])
            } else {
                None
            })
    }
}

/// Last keyframe strictly before `target_us`.
pub fn previous_keyframe_before(keyframes: &[u64], target_us: u64) -> (r: Option<u64>)
    ensures
        is_previous_keyframe(keyframes@, target_us, r),
{
    if keyframes.len() == 0 {
        return None;
    }
    let index: usize = partition_point(keyframes, target_us, true);
    if index == 0 {
        assert(is_partition_point(keyframes@, target_us, true, 0));
        None
    } else {
        let r = Some(keyframes[index - 1]);
        assert(is_partition_point(keyframes@, target_us, true, index as int));
        r
    }
}

/// Decode plan for `target_us`: seek to its keyframe, then feed the decoder
/// up to the quality's margin past the target when that lies after the
/// keyframe.
pub fn build_decode_slice_plan(keyframes: &[u64], target_us: u64, quality: VideoPreviewQuality) -> (r:
    Vec<DecodeSlicePlan>)
    ensures
        r@.len() >= 1,
        is_seek_keyframe(keyframes@, target_us, r@[0].timestamp_us),
        r@[0].is_key,
        ({
            let feed_until: u64 = sat_add_u64(target_us, feed_margin_spec(quality));
            if feed_until > r@[0].timestamp_us {
                r@.len() == 2 && r@[1] == DecodeSlicePlan { timestamp_us: feed_until, is_key: false }
            } else {
                r@.len() == 1
            }
        }),
{
    let keyframe: u64 = nearest_keyframe_before(keyframes, target_us);
    let mut plan: Vec<DecodeSlicePlan> = Vec::new();
    plan.push(DecodeSlicePlan { timestamp_us: keyframe, is_key: true });
    let feed_until: u64 = target_us.saturating_add(seek_feed_margin_us(quality));
    if feed_until > keyframe {
        plan.push(DecodeSlicePlan { timestamp_us: feed_until, is_key: false });
    }
    plan
}

/// Facts the engine knows about a video stream.
#[derive(Clone, Copy, Debug, PartialEq, Eq, Structural)]
pub struct VideoInfo {
    pub width: u32,
    pub height: u32,
    pub duration: Option<DurationMicros>,
}

/// Alignment of decode scale targets: keeping them on a 16-pixel grid bounds
/// the number of distinct scaler contexts and cache entries an animation
/// that drifts across sizes produces.
pub const TARGET_SIZE_ALIGN: u32 = 16;

/// `v` rounded up to the grid, clamped to `[16, max]`.
pub open spec fn bucket_spec(v: u32, max: u32) -> int {
    let aligned: int = (v + 15) / 16 * 16;
    if aligned < 16 {
        16
    } else if aligned > max {
        max as int
    } else {
        aligned
    }
}

/// Whether a scale request falls back to the native size.
pub open spec fn at_or_above_source(w: u32, h: u32, info: VideoInfo) -> bool {
    w >= info.width && h >= info.height
}

/// The bucketed scale target for a request, or `None` to decode at native
/// size (no request, a request at or above source size, or a bucket that
/// reaches it).
pub open spec fn quantize_spec(requested: Option<(u32, u32)>, info: VideoInfo) -> Option<(u32, u32)> {
    match requested {
        None => None,
        Some((tw, th)) => if at_or_above_source(tw, th, info) {
            None
        } else {
            let qw: int = bucket_spec(tw, info.width);
            let qh: int = bucket_spec(th, info.height);
            if qw >= info.width && qh >= info.height {
                None
            } else {
                Some((qw as u32, qh as u32))
            }
        },
    }
}

/// Requests that bucketing handles: the sum of a size and the alignment
/// fits in `u32`, and the source is at least one grid cell on each axis.
pub open spec fn quantize_accepts(requested: Option<(u32, u32)>, info: VideoInfo) -> bool {
    match requested {
        None => true,
        Some((tw, th)) => at_or_above_source(tw, th, info) || (tw <= 0xffff_fff0 && th
            <= 0xffff_fff0 && info.width >= 16 && info.height >= 16),
    }
}

fn bucket(v: u32, max: u32) -> (r: u32)
    requires
        v <= 0xffff_fff0,
        max >= 16,
    ensures
        r == bucket_spec(v, max),
{
    let aligned: u32 = (v + 15) / 16 * 16;
    if aligned < 16 {
        16
    } else if aligned > max {
        max
    } else {
        aligned
    }
}

/// Normalizes a requested decode size against the source video.
pub fn quantize_target_size(requested: Option<(u32, u32)>, info: &VideoInfo) -> (r: Option<
    (u32, u32),
>)
    requires
        quantize_accepts(requested, *info),
    ensures
        r == quantize_spec(requested, *info),
{
    match requested {
        None => None,
        Some((tw, th)) => {
            if tw >= info.width && th >= info.height {
                return None;
            }
            let qw: u32 = bucket(tw, info.width);
            let qh: u32 = bucket(th, info.height);
            if qw >= info.width && qh >= info.height {
                None
            } else {
                Some((qw, qh))
            }
        },
    }
}

/// A decoded video frame as RGBA bytes.
#[derive(Debug)]
pub struct VideoBitmap {
    pub data: Arc<Vec<u8>>,
    pub width: u32,
    pub height: u32,
    pub frame_cache_hit: bool,
}

/// On sorted keyframes the seek keyframe is unique: the last keyframe at or
/// before one microsecond past the target, or the first keyframe when none
/// is.
pub proof fn lemma_seek_keyframe_unique(keys: Seq<u64>, target_us: u64, k1: u64, k2: u64)
    requires
        sorted(keys),
        is_seek_keyframe(keys, target_us, k1),
        is_seek_keyframe(keys, target_us, k2),
    ensures
        k1 == k2,
{
    if keys.len() > 0 {
        let bound: u64 = sat_add_u64(target_us, 1);
        let p: int = choose|p: int|
            is_partition_point(keys, bound, false, p) && k1 == keys[if p > 0 {
                p - 1
            } else {
                0
            }];
        let q: int = choose|q: int|
            is_partition_point(keys, bound, false, q) && k2 == keys[if q > 0 {
                q - 1
            } else {
                0
            }];
        lemma_partition_point_unique(keys, bound, false, p, q);
    }
}

/// A bucketed scale target lies on the 16-pixel grid or at the source size
/// on each axis, between one grid cell and the source size, and below the
/// source size on at least one axis.
pub proof fn lemma_quantized_target_on_grid(requested: Option<(u32, u32)>, info: VideoInfo)
    requires
        quantize_accepts(requested, info),
    ensures
        match quantize_spec(requested, info) {
            Some((qw, qh)) => {
                &&& qw % 16 == 0 || qw == info.width
                &&& qh % 16 == 0 || qh == info.height
                &&& 16 <= qw <= info.width
                &&& 16 <= qh <= info.height
                &&& qw < info.width || qh < info.height
            },
            None => true,
        },
{
    match requested {
        Some((tw, th)) => {
            assert(((tw + 15) / 16 * 16) % 16 == 0) by (nonlinear_arith);
            assert(((th + 15) / 16 * 16) % 16 == 0) by (nonlinear_arith);
        },
        None => {},
    }
}

/// Decode settings of the media context: preview quality, and the
/// composition frame rate used to time frame requests by frame index.
#[derive(Debug)]
pub struct MediaContext {
    pub video_preview_quality: VideoPreviewQuality,
    pub composition_fps: u32,
}

impl MediaContext {
    /// Realtime preview quality at 30 fps.
    pub fn new() -> (r: Self)
        ensures
            r.video_preview_quality == VideoPreviewQuality::Realtime,
            r.composition_fps == 30,
    {
        MediaContext { video_preview_quality: VideoPreviewQuality::Realtime, composition_fps: 30 }
    }

    pub fn set_video_preview_quality(&mut self, quality: VideoPreviewQuality)
        ensures
            final(self).video_preview_quality == quality,
            final(self).composition_fps == old(self).composition_fps,
    {
        self.video_preview_quality = quality;
    }

    pub fn video_preview_quality(&self) -> (r: VideoPreviewQuality)
        ensures
            r == self.video_preview_quality,
    {
        self.video_preview_quality
    }

    pub fn set_composition_fps(&mut self, fps: u32)
        ensures
            final(self).composition_fps == fps,
            final(self).video_preview_quality == old(self).video_preview_quality,
    {
        self.composition_fps = fps;
    }
}

impl Default for MediaContext {
    fn default() -> (r: Self)
        ensures
            r.video_preview_quality == VideoPreviewQuality::Realtime,
            r.composition_fps == 30,
    {
        MediaContext::new()
    }
}

} // verus!
