//! Frame media validation: before any decode, every image, video frame and
//! Lottie bundle a frame refers to must have a loader handle, so a frame
//! fails as a whole, naming the first missing asset.

use vstd::prelude::*;
use crate::errors::MediaError;
use crate::script::ImageRef;

verus! {

/// Kind of a catalog resource.
#[derive(Clone, Copy, Debug, PartialEq, Eq, Structural)]
pub enum ResourceKind {
    Image,
    Video,
    Audio,
    Lottie,
}

/// The media one frame draws: external images, video frames, and Lottie
/// bundles by id.
#[derive(Debug)]
pub struct FrameMediaPlan {
    pub images: Vec<ImageRef>,
    pub video_frames: Vec<ImageRef>,
    pub lottie_bundles: Vec<String>,
}

/// The asset id a reference checks in a bucket: static images in the image
/// bucket, video frames in the video bucket; other references are skipped.
pub open spec fn checked_id(r: ImageRef, kind: ResourceKind) -> Option<String> {
    match (r, kind) {
        (ImageRef::Static { asset_id }, ResourceKind::Image) => Some(asset_id),
        (ImageRef::VideoFrame { asset_id, .. }, ResourceKind::Video) => Some(asset_id),
        _ => None,
    }
}

/// The handle lookup reports `present` for asset `id` of `kind`.
pub open spec fn lookup_gives<F: Fn(ResourceKind, &String) -> bool>(
    has_handle: F,
    kind: ResourceKind,
    id: String,
    present: bool,
) -> bool {
    call_ensures(has_handle, (kind, &id), present)
}

/// Every reference before position `n` that the bucket checks has a handle.
pub open spec fn all_present<F: Fn(ResourceKind, &String) -> bool>(
    refs: Seq<ImageRef>,
    kind: ResourceKind,
    has_handle: F,
    n: int,
) -> bool {
    forall|j: int|
        0 <= j < n ==> match checked_id(#[trigger] refs[j], kind) {
            Some(id) => lookup_gives(has_handle, kind, id, true),
            None => true,
        }
}

/// Checks one bucket of references; the error names the first reference
/// without a handle.
fn validate_refs<F: Fn(ResourceKind, &String) -> bool>(
    refs: &Vec<ImageRef>,
    kind: ResourceKind,
    has_handle: &F,
) -> (r: Result<(), String>)
    requires
        forall|k: ResourceKind, s: &String| call_requires(*has_handle, (k, s)),
    ensures
        match r {
            Ok(()) => all_present(refs@, kind, *has_handle, refs@.len() as int),
            Err(missing) => exists|i: int|
                0 <= i < refs@.len() && all_present(refs@, kind, *has_handle, i) && (match checked_id(
                    refs@[i],
                    kind,
                ) {
                    Some(id) => lookup_gives(*has_handle, kind, id, false) && missing@ == id@,
                    None => false,
                }),
        },
{
    let mut i: usize = 0;
    while i < refs.len()
        invariant
            i <= refs@.len(),
            forall|k: ResourceKind, s: &String| call_requires(*has_handle, (k, s)),
            all_present(refs@, kind, *has_handle, i as int),
        decreases refs@.len() - i,
    {
        let id: Option<&String> = match (&refs[i], kind) {
            (ImageRef::Static { asset_id }, ResourceKind::Image) => Some(asset_id),
            (ImageRef::VideoFrame { asset_id, .. }, ResourceKind::Video) => Some(asset_id),
            _ => None,
        };
        match id {
            Some(asset_id) => {
                if !has_handle(kind, asset_id) {
                    return Err(asset_id.clone());
                }
            },
            None => {},
        }
        i = i + 1;
    }
    Ok(())
}

/// The first reference of the bucket without a handle is `missing`.
pub open spec fn first_missing<F: Fn(ResourceKind, &String) -> bool>(
    refs: Seq<ImageRef>,
    kind: ResourceKind,
    has_handle: F,
    missing: Seq<char>,
) -> bool {
    exists|i: int|
        0 <= i < refs.len() && all_present(refs, kind, has_handle, i) && (match checked_id(
            refs[i],
            kind,
        ) {
            Some(id) => lookup_gives(has_handle, kind, id, false) && missing == id@,
            None => false,
        })
}

/// Checks that every static image of the plan has a handle.
pub fn validate_image_handles<F: Fn(ResourceKind, &String) -> bool>(
    plan: &FrameMediaPlan,
    has_handle: &F,
) -> (r: Result<(), MediaError>)
    requires
        forall|k: ResourceKind, s: &String| call_requires(*has_handle, (k, s)),
    ensures
        match r {
            Ok(()) => all_present(
                plan.images@,
                ResourceKind::Image,
                *has_handle,
                plan.images@.len() as int,
            ),
            Err(MediaError::MissingImage { asset_id }) => first_missing(
                plan.images@,
                ResourceKind::Image,
                *has_handle,
                asset_id@,
            ),
            Err(_) => false,
        },
{
    match validate_refs(&plan.images, ResourceKind::Image, has_handle) {
        Ok(()) => Ok(()),
        Err(asset_id) => Err(MediaError::MissingImage { asset_id }),
    }
}

/// Checks that every video frame of the plan has a handle.
pub fn validate_video_handles<F: Fn(ResourceKind, &String) -> bool>(
    plan: &FrameMediaPlan,
    has_handle: &F,
) -> (r: Result<(), MediaError>)
    requires
        forall|k: ResourceKind, s: &String| call_requires(*has_handle, (k, s)),
    ensures
        match r {
            Ok(()) => all_present(
                plan.video_frames@,
                ResourceKind::Video,
                *has_handle,
                plan.video_frames@.len() as int,
            ),
            Err(MediaError::MissingVideo { asset_id }) => first_missing(
                plan.video_frames@,
                ResourceKind::Video,
                *has_handle,
                asset_id@,
            ),
            Err(_) => false,
        },
{
    match validate_refs(&plan.video_frames, ResourceKind::Video, has_handle) {
        Ok(()) => Ok(()),
        Err(asset_id) => Err(MediaError::MissingVideo { asset_id }),
    }
}

/// Every bundle before position `n` has a handle.
pub open spec fn bundles_present<F: Fn(ResourceKind, &String) -> bool>(
    bundles: Seq<String>,
    has_handle: F,
    n: int,
) -> bool {
    forall|j: int|
        0 <= j < n ==> lookup_gives(has_handle, ResourceKind::Lottie, #[trigger] bundles[j], true)
}

/// Checks that every Lottie bundle of the plan has a handle; the error
/// names the first one without.
pub fn validate_lottie_handles<F: Fn(ResourceKind, &String) -> bool>(
    plan: &FrameMediaPlan,
    has_handle: &F,
) -> (r: Result<(), MediaError>)
    requires
        forall|k: ResourceKind, s: &String| call_requires(*has_handle, (k, s)),
    ensures
        match r {
            Ok(()) => bundles_present(
                plan.lottie_bundles@,
                *has_handle,
                plan.lottie_bundles@.len() as int,
            ),
            Err(MediaError::MissingLottieBundle { bundle_id }) => exists|i: int|
                #![trigger plan.lottie_bundles@[i]]
                0 <= i < plan.lottie_bundles@.len() && bundles_present(
                    plan.lottie_bundles@,
                    *has_handle,
                    i,
                ) && lookup_gives(
                    *has_handle,
                    ResourceKind::Lottie,
                    plan.lottie_bundles@[i],
                    false,
                ) && bundle_id@ == plan.lottie_bundles@[i]@,
            Err(_) => false,
        },
{
    let bundles = &plan.lottie_bundles;
    let mut i: usize = 0;
    while i < bundles.len()
        invariant
            i <= bundles@.len(),
            bundles@ == plan.lottie_bundles@,
            forall|k: ResourceKind, s: &String| call_requires(*has_handle, (k, s)),
            bundles_present(bundles@, *has_handle, i as int),
        decreases bundles@.len() - i,
    {
        let present = has_handle(ResourceKind::Lottie, &bundles[i]);
        if !present {
            assert(lookup_gives(*has_handle, ResourceKind::Lottie, bundles@[i as int], false));
            return Err(MediaError::MissingLottieBundle { bundle_id: bundles[i].clone() });
        }
        i = i + 1;
    }
    Ok(())
}

} // verus!
