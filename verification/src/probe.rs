//! Host-side resource probing: image dimensions from encoded bytes, video
//! facts from a parsed track's tags, and the external files a Lottie
//! animation depends on.

use vstd::prelude::*;
use crate::chars::{chars_of, owned, starts_with, starts_with_spec, string_of, text_eq, slice_vec};
use crate::test_support::VideoInfoMeta;
use crate::time::{clamp_hi, ms_to_duration_micros, u64_max, DurationMicros};

verus! {

/// Dimensions of an image.
#[derive(Clone, Copy, Debug, PartialEq, Eq, Structural)]
pub struct ImageMeta {
    pub width: u32,
    pub height: u32,
}

/// Error of a probe.
#[derive(Debug)]
pub struct ProbeError {
    pub message: String,
}

/// `imagesize::ImageError`, the error `imagesize::blob_size` reports; it is
/// only carried through to be mapped to a `ProbeError`.
#[verifier::external_type_specification]
#[verifier::external_body]
pub struct ExImageError(imagesize::ImageError);

/// Width and height, in pixels, that `imagesize::blob_size` reads from the
/// header of an encoded image, or `None` where it reports an error.
pub uninterp spec fn image_blob_size(bytes: Seq<u8>) -> Option<(usize, usize)>;

/// `imagesize::blob_size`: reads the dimensions from the image header; the
/// outcome depends on the bytes alone.
#[verifier::external_body]
fn blob_size(bytes: &[u8]) -> (r: Result<(usize, usize), imagesize::ImageError>)
    ensures
        match r {
            Ok(d) => image_blob_size(bytes@) == Some(d),
            Err(_) => image_blob_size(bytes@) is None,
        },
{
    imagesize::blob_size(bytes).map(|d| (d.width, d.height))
}

/// Value of a track tag as a media parser reports it; only unsigned integer
/// values are read.
#[derive(Clone, Copy, Debug, PartialEq, Eq, Structural)]
pub enum TrackTagValue {
    U32(u32),
    U64(u64),
    Other,
}

/// Video facts from a track's width, height and duration (in milliseconds)
/// tags: width and height must be present as `u32` values; a duration
/// present as a `u64` value becomes microseconds (saturating), any other
/// duration is left out.
pub open spec fn video_info_spec(
    width: Option<TrackTagValue>,
    height: Option<TrackTagValue>,
    duration_ms: Option<TrackTagValue>,
) -> Result<VideoInfoMeta, Seq<char>> {
    match width {
        Some(TrackTagValue::U32(w)) => match height {
            Some(TrackTagValue::U32(h)) => Ok(
                VideoInfoMeta {
                    width: w,
                    height: h,
                    duration_micros: match duration_ms {
                        Some(TrackTagValue::U64(ms)) => Some(
                            DurationMicros(clamp_hi(ms * 1000, u64_max()) as u64),
                        ),
                        _ => None,
                    },
                },
            ),
            _ => Err("video: height tag missing"@),
        },
        _ => Err("video: width tag missing"@),
    }
}

/// Reads the video facts out of the track tags a media parser reported.
pub fn video_info_from_tags(
    width: Option<TrackTagValue>,
    height: Option<TrackTagValue>,
    duration_ms: Option<TrackTagValue>,
) -> (r: Result<VideoInfoMeta, ProbeError>)
    ensures
        match (r, video_info_spec(width, height, duration_ms)) {
            (Ok(m), Ok(expected)) => m == expected,
            (Err(e), Err(text)) => e.message@ == text,
            _ => false,
        },
{
    let w = match width {
        Some(TrackTagValue::U32(w)) => w,
        _ => return Err(ProbeError { message: owned("video: width tag missing") }),
    };
    let h = match height {
        Some(TrackTagValue::U32(h)) => h,
        _ => return Err(ProbeError { message: owned("video: height tag missing") }),
    };
    let duration_micros = match duration_ms {
        Some(TrackTagValue::U64(ms)) => Some(ms_to_duration_micros(ms)),
        _ => None,
    };
    Ok(VideoInfoMeta { width: w, height: h, duration_micros })
}

/// Dimensions `probe_image` reports for the bytes, or `None` for an error.
pub open spec fn probe_image_spec(bytes: Seq<u8>) -> Option<ImageMeta> {
    match image_blob_size(bytes) {
        Some((w, h)) => Some(ImageMeta { width: w as u32, height: h as u32 }),
        None => None,
    }
}

/// Probes image dimensions from encoded bytes.
pub fn probe_image(bytes: &[u8]) -> (r: Result<ImageMeta, ProbeError>)
    ensures
        match r {
            Ok(m) => probe_image_spec(bytes@) == Some(m),
            Err(e) => probe_image_spec(bytes@) is None && e.message@
                == "imagesize: failed to read image dimensions"@,
        },
{
    match blob_size(bytes) {
        Ok((w, h)) => Ok(ImageMeta { width: w as u32, height: h as u32 }),
        Err(_) => Err(ProbeError { message: owned("imagesize: failed to read image dimensions") }),
    }
}

/// An entry of a Lottie animation's `assets` list: `p` is the file name or
/// data URL, `u` the directory or full path.
#[derive(Debug)]
pub struct LottieAsset {
    pub p: Option<String>,
    pub u: Option<String>,
    pub e: Option<String>,
}

/// Index of the last `c` in `s` before position `j`.
pub open spec fn last_index_of(s: Seq<char>, c: char, j: int) -> Option<int>
    decreases j,
{
    if j <= 0 {
        None
    } else if s[j - 1] == c {
        Some(j - 1)
    } else {
        last_index_of(s, c, j - 1)
    }
}

/// The part of a path after its last `/`.
pub open spec fn base_name(path: Seq<char>) -> Seq<char> {
    match last_index_of(path, '/', path.len() as int) {
        Some(i) => path.subrange(i + 1, path.len() as int),
        None => path,
    }
}

/// The path an asset refers to: its `p` unless that is a data URL or
/// empty, then its non-empty `u`.
pub open spec fn asset_reference(a: LottieAsset) -> Option<Seq<char>> {
    let p = match a.p {
        Some(s) => s@,
        None => Seq::empty(),
    };
    if starts_with_spec(p, "data:"@) {
        None
    } else if p.len() > 0 {
        Some(p)
    } else {
        match a.u {
            Some(u) => if u@.len() > 0 {
                Some(u@)
            } else {
                None
            },
            None => None,
        }
    }
}

/// File names of the external assets, in first-seen order, each once.
pub open spec fn dependency_names_spec(assets: Seq<LottieAsset>) -> Seq<Seq<char>>
    decreases assets.len(),
{
    if assets.len() == 0 {
        Seq::empty()
    } else {
        let prev = dependency_names_spec(assets.drop_last());
        match asset_reference(assets.last()) {
            Some(raw) => {
                let name = base_name(raw);
                if name.len() > 0 && !prev.contains(name) {
                    prev.push(name)
                } else {
                    prev
                }
            },
            None => prev,
        }
    }
}

proof fn lemma_last_index_bounds(s: Seq<char>, c: char, j: int)
    requires
        0 <= j <= s.len(),
    ensures
        match last_index_of(s, c, j) {
            Some(i) => 0 <= i < j && s[i] == c,
            None => true,
        },
    decreases j,
{
    if j > 0 && s[j - 1] != c {
        lemma_last_index_bounds(s, c, j - 1);
    }
}

/// `base_name` of a path.
fn base_name_of(path: &str) -> (r: String)
    ensures
        r@ == base_name(path@),
{
    let cs = chars_of(path);
    let n: usize = cs.len();
    let mut j: usize = n;
    while j > 0
        invariant
            cs@ == path@,
            n == cs@.len(),
            j <= n,
            last_index_of(cs@, '/', n as int) == last_index_of(cs@, '/', j as int),
            forall|k: int| j <= k < n ==> cs@[k] != '/',
        decreases j,
    {
        if cs[j - 1] == '/' {
            proof {
                lemma_last_index_bounds(cs@, '/', n as int);
            }
            return string_of(&slice_vec(&cs, j, n));
        }
        j = j - 1;
    }
    owned(path)
}

/// Whether `names` holds `name`.
fn contains_name(names: &Vec<String>, name: &str) -> (r: bool)
    ensures
        r == names@.map_values(|s: String| s@).contains(name@),
{
    let ghost view = names@.map_values(|s: String| s@);
    let mut i: usize = 0;
    while i < names.len()
        invariant
            i <= names@.len(),
            view == names@.map_values(|s: String| s@),
            forall|k: int| 0 <= k < i ==> view[k] != name@,
        decreases names@.len() - i,
    {
        if text_eq(names[i].as_str(), name) {
            assert(view[i as int] == name@);
            return true;
        }
        i = i + 1;
    }
    false
}

/// File names of the external assets of a Lottie animation: each asset's
/// path (data URLs skipped) reduced to its last segment, non-empty, first
/// occurrence kept.
pub fn external_dependency_names(assets: &[LottieAsset]) -> (r: Vec<String>)
    ensures
        r@.map_values(|s: String| s@) == dependency_names_spec(assets@),
{
    let mut names: Vec<String> = Vec::new();
    let mut i: usize = 0;
    while i < assets.len()
        invariant
            i <= assets@.len(),
            names@.map_values(|s: String| s@) == dependency_names_spec(assets@.take(i as int)),
        decreases assets@.len() - i,
    {
        let asset = &assets[i];
        proof {
            assert(assets@.take(i + 1).drop_last() =~= assets@.take(i as int));
            assert(assets@.take(i + 1).last() == assets@[i as int]);
        }
        let p: &str = match &asset.p {
            Some(s) => s.as_str(),
            None => "",
        };
        let pc = chars_of(p);
        let candidate: Option<&str> = if starts_with(&pc, &chars_of("data:")) {
            None
        } else if pc.len() > 0 {
            Some(p)
        } else {
            match &asset.u {
                Some(u) => if u.as_str().unicode_len() > 0 {
                    Some(u.as_str())
                } else {
                    None
                },
                None => None,
            }
        };
        proof {
            if asset.p is None {
                reveal_strlit("");
                assert(p@ =~= Seq::<char>::empty());
            }
        }
        match candidate {
            Some(raw) => {
                let name = base_name_of(raw);
                if name.as_str().unicode_len() > 0 && !contains_name(&names, name.as_str()) {
                    names.push(name);
                    assert(names@.map_values(|s: String| s@) =~= dependency_names_spec(
                        assets@.take(i + 1),
                    ));
                }
            },
            None => {},
        }
        i = i + 1;
    }
    assert(assets@.take(assets@.len() as int) =~= assets@);
    names
}

/// The dependency names are non-empty and each occurs once.
pub proof fn lemma_dependency_names_distinct(assets: Seq<LottieAsset>)
    ensures
        forall|i: int|
            0 <= i < dependency_names_spec(assets).len() ==> (
            #[trigger] dependency_names_spec(assets)[i]).len() > 0,
        forall|i: int, j: int|
            0 <= i < j < dependency_names_spec(assets).len() ==> (
            #[trigger] dependency_names_spec(assets)[i]) != (
            #[trigger] dependency_names_spec(assets)[j]),
    decreases assets.len(),
{
    if assets.len() > 0 {
        lemma_dependency_names_distinct(assets.drop_last());
        let prev = dependency_names_spec(assets.drop_last());
        let cur = dependency_names_spec(assets);
        match asset_reference(assets.last()) {
            Some(raw) => {
                let name = base_name(raw);
                if name.len() > 0 && !prev.contains(name) {
                    assert forall|i: int, j: int| 0 <= i < j < cur.len() implies cur[i] != cur[j] by {
                        if j == cur.len() - 1 {
                            assert(cur[j] == name);
                            assert(cur[i] == prev[i]);
                            if cur[i] == name {
                                assert(prev.contains(name));
                            }
                        } else {
                            assert(cur[i] == prev[i] && cur[j] == prev[j]);
                        }
                    }
                    assert forall|i: int| 0 <= i < cur.len() implies (#[trigger] cur[i]).len() > 0 by {
                        if i < cur.len() - 1 {
                            assert(cur[i] == prev[i]);
                        }
                    }
                }
            },
            None => {},
        }
    }
}

/// Text of an optional asset field, a missing one read as empty.
pub open spec fn field_text(f: Option<String>) -> Seq<char> {
    match f {
        Some(s) => s@,
        None => Seq::empty(),
    }
}

/// `n` is the last `/`-separated segment of `x`: a suffix of `x` without
/// `/`, preceded by a `/` or by nothing.
pub open spec fn is_last_segment(x: Seq<char>, n: Seq<char>) -> bool {
    &&& n.len() <= x.len()
    &&& x.subrange(x.len() - n.len(), x.len() as int) == n
    &&& forall|j: int| 0 <= j < n.len() ==> n[j] != '/'
    &&& (n.len() == x.len() || x[x.len() - n.len() - 1] == '/')
}

/// The last segment of a path is `base_name`, and nothing else is.
proof fn lemma_base_name_is_last_segment(x: Seq<char>, n: Seq<char>)
    ensures
        is_last_segment(x, base_name(x)),
        is_last_segment(x, n) ==> n == base_name(x),
{
    lemma_last_index_bounds(x, '/', x.len() as int);
    let b = base_name(x);
    match last_index_of(x, '/', x.len() as int) {
        Some(i) => {
            lemma_no_slash_after_last(x, x.len() as int);
            assert(x.subrange(x.len() - b.len(), x.len() as int) =~= b);
            assert forall|j: int| 0 <= j < b.len() implies b[j] != '/' by {
                assert(b[j] == x[i + 1 + j]);
            }
        },
        None => {
            lemma_no_slash_after_last(x, x.len() as int);
            assert(x.subrange(0, x.len() as int) =~= x);
        },
    }
    if is_last_segment(x, n) {
        if n.len() < b.len() {
            let j = x.len() - n.len() - 1;
            assert(b[j - (x.len() - b.len())] == x[j]);
        } else if n.len() > b.len() {
            let j = x.len() - b.len() - 1;
            assert(n[j - (x.len() - n.len())] == x[j]);
        }
        assert(n =~= b);
    }
}

/// No `/` follows the last one.
proof fn lemma_no_slash_after_last(x: Seq<char>, j: int)
    requires
        0 <= j <= x.len(),
    ensures
        match last_index_of(x, '/', j) {
            Some(i) => x[i] == '/' && forall|k: int| i < k < j ==> x[k] != '/',
            None => forall|k: int| 0 <= k < j ==> x[k] != '/',
        },
    decreases j,
{
    if j > 0 && x[j - 1] != '/' {
        lemma_no_slash_after_last(x, j - 1);
    }
}

/// Every name the scan gives comes from one asset's reference, and every
/// asset's reference with a non-empty last segment gives its name.
proof fn lemma_dependency_names_members(assets: Seq<LottieAsset>)
    ensures
        forall|k: int|
            0 <= k < assets.len() ==> match #[trigger] asset_reference(assets[k]) {
                Some(raw) => base_name(raw).len() > 0 ==> dependency_names_spec(assets).contains(
                    base_name(raw),
                ),
                None => true,
            },
        forall|n: Seq<char>|
            #[trigger] dependency_names_spec(assets).contains(n) ==> exists|k: int|
                0 <= k < assets.len() && #[trigger] asset_reference(assets[k]) == Some(
                    asset_reference(assets[k])->0,
                ) && base_name(asset_reference(assets[k])->0) == n,
    decreases assets.len(),
{
    if assets.len() > 0 {
        let init = assets.drop_last();
        lemma_dependency_names_members(init);
        let prev = dependency_names_spec(init);
        let cur = dependency_names_spec(assets);
        assert forall|n: Seq<char>| prev.contains(n) implies cur.contains(n) by {
            let j = choose|j: int| 0 <= j < prev.len() && prev[j] == n;
            match asset_reference(assets.last()) {
                Some(raw) => {
                    if base_name(raw).len() > 0 && !prev.contains(base_name(raw)) {
                        assert(cur[j] == prev[j]);
                    }
                },
                None => {},
            }
        }
        assert forall|k: int| 0 <= k < assets.len() implies match #[trigger] asset_reference(
            assets[k],
        ) {
            Some(raw) => base_name(raw).len() > 0 ==> cur.contains(base_name(raw)),
            None => true,
        } by {
            if k < assets.len() - 1 {
                assert(assets[k] == init[k]);
                match asset_reference(init[k]) {
                    Some(raw) => {},
                    None => {},
                }
            } else {
                match asset_reference(assets.last()) {
                    Some(raw) => {
                        if base_name(raw).len() > 0 && !prev.contains(base_name(raw)) {
                            assert(cur[cur.len() - 1] == base_name(raw));
                        }
                    },
                    None => {},
                }
            }
        }
        assert forall|n: Seq<char>| #[trigger] cur.contains(n) implies exists|k: int|
            0 <= k < assets.len() && #[trigger] asset_reference(assets[k]) == Some(
                asset_reference(assets[k])->0,
            ) && base_name(asset_reference(assets[k])->0) == n by {
            if prev.contains(n) {
                let k = choose|k: int|
                    0 <= k < init.len() && #[trigger] asset_reference(init[k]) == Some(
                        asset_reference(init[k])->0,
                    ) && base_name(asset_reference(init[k])->0) == n;
                assert(assets[k] == init[k]);
            } else {
                let k = assets.len() - 1;
                let j = choose|j: int| 0 <= j < cur.len() && cur[j] == n;
                match asset_reference(assets.last()) {
                    Some(raw) => {
                        if base_name(raw).len() > 0 && !prev.contains(base_name(raw)) {
                            if j < prev.len() {
                                assert(cur[j] == prev[j]);
                            }
                        } else {
                            assert(cur[j] == prev[j]);
                        }
                    },
                    None => {
                        assert(cur[j] == prev[j]);
                    },
                }
                assert(asset_reference(assets[k]) == Some(asset_reference(assets[k])->0));
            }
        }
    }
}

/// What the dependency scan gives, over any asset list:
/// - an asset whose file name `p` is non-empty and no `data:` URL gives
///   the last `/`-segment of `p` (when that is non-empty), whatever its
///   `u` holds;
/// - an asset whose `p` is missing or empty gives the last segment of a
///   non-empty `u`;
/// - every name given is non-empty and comes from an asset in one of
///   these two ways;
/// - no name is given twice.
pub proof fn lemma_dependency_names_from_paths(assets: Seq<LottieAsset>)
    ensures
        forall|k: int, n: Seq<char>|
            0 <= k < assets.len() && field_text(assets[k].p).len() > 0 && !(field_text(
                assets[k].p,
            ).len() >= 5 && field_text(assets[k].p).subrange(0, 5) == "data:"@)
                && #[trigger] is_last_segment(field_text(assets[k].p), n) && n.len() > 0
                ==> dependency_names_spec(assets).contains(n),
        forall|k: int, n: Seq<char>|
            0 <= k < assets.len() && field_text(assets[k].p).len() == 0 && field_text(
                assets[k].u,
            ).len() > 0 && #[trigger] is_last_segment(field_text(assets[k].u), n) && n.len() > 0
                ==> dependency_names_spec(assets).contains(n),
        forall|n: Seq<char>|
            #[trigger] dependency_names_spec(assets).contains(n) ==> n.len() > 0 && exists|k: int|
                0 <= k < assets.len() && {
                    let p = field_text(#[trigger] assets[k].p);
                    let u = field_text(assets[k].u);
                    ||| p.len() > 0 && !(p.len() >= 5 && p.subrange(0, 5) == "data:"@)
                        && is_last_segment(p, n)
                    ||| p.len() == 0 && u.len() > 0 && is_last_segment(u, n)
                },
        dependency_names_spec(assets).no_duplicates(),
{
    reveal_strlit("data:");
    lemma_dependency_names_members(assets);
    lemma_dependency_names_distinct(assets);
    assert forall|k: int, n: Seq<char>|
        0 <= k < assets.len() && field_text(assets[k].p).len() > 0 && !(field_text(
            assets[k].p,
        ).len() >= 5 && field_text(assets[k].p).subrange(0, 5) == "data:"@)
            && #[trigger] is_last_segment(field_text(assets[k].p), n) && n.len() > 0
        implies dependency_names_spec(assets).contains(n) by {
        let p = field_text(assets[k].p);
        lemma_base_name_is_last_segment(p, n);
        assert(!starts_with_spec(p, "data:"@));
        assert(asset_reference(assets[k]) == Some(p));
    }
    assert forall|k: int, n: Seq<char>|
        0 <= k < assets.len() && field_text(assets[k].p).len() == 0 && field_text(
            assets[k].u,
        ).len() > 0 && #[trigger] is_last_segment(field_text(assets[k].u), n) && n.len() > 0
        implies dependency_names_spec(assets).contains(n) by {
        let u = field_text(assets[k].u);
        lemma_base_name_is_last_segment(u, n);
        assert(!starts_with_spec(field_text(assets[k].p), "data:"@));
        assert(asset_reference(assets[k]) == Some(u));
    }
    assert forall|n: Seq<char>| #[trigger] dependency_names_spec(assets).contains(n) implies n.len()
        > 0 && exists|k: int|
        0 <= k < assets.len() && {
            let p = field_text(#[trigger] assets[k].p);
            let u = field_text(assets[k].u);
            ||| p.len() > 0 && !(p.len() >= 5 && p.subrange(0, 5) == "data:"@) && is_last_segment(
                p,
                n,
            )
            ||| p.len() == 0 && u.len() > 0 && is_last_segment(u, n)
        } by {
        let names = dependency_names_spec(assets);
        let j = choose|j: int| 0 <= j < names.len() && names[j] == n;
        assert(names[j].len() > 0);
        let k = choose|k: int|
            0 <= k < assets.len() && #[trigger] asset_reference(assets[k]) == Some(
                asset_reference(assets[k])->0,
            ) && base_name(asset_reference(assets[k])->0) == n;
        let raw = asset_reference(assets[k])->0;
        lemma_base_name_is_last_segment(raw, n);
        let p = field_text(assets[k].p);
        if starts_with_spec(p, "data:"@) {
        } else if p.len() > 0 {
            assert(raw == p);
        } else {
            assert(raw == field_text(assets[k].u));
        }
    }
    let names = dependency_names_spec(assets);
    assert forall|i: int, j: int| 0 <= i < names.len() && 0 <= j < names.len() && i != j implies names[i]
        != names[j] by {
        if i < j {
            assert(names[i] != names[j]);
        } else {
            assert(names[j] != names[i]);
        }
    }
}

} // verus!
