//! Text helpers shared by layout and script bindings: case transforms, CJK
//! detection, byte-range overlap, and unit range segmentation.

use std::ops::Range;
use vstd::prelude::*;
use crate::chars::{chars_of, owned, str_uppercase, uppercase_of};
use crate::style::TextTransform;
use crate::text_units::{text_unit_ranges, unit_pieces, unit_start, utf8_len, TextUnitGranularity};

verus! {

/// `text` as rendered under `transform`.
pub open spec fn text_transform_spec(text: Seq<char>, transform: TextTransform) -> Seq<char> {
    match transform {
        TextTransform::NoTransform => text,
        TextTransform::Uppercase => str_uppercase(text),
    }
}

/// Applies a text transform: the text unchanged, or its full Unicode
/// uppercase mapping.
pub fn apply_text_transform(text: &str, transform: TextTransform) -> (r: String)
    ensures
        r@ == text_transform_spec(text@, transform),
{
    match transform {
        TextTransform::NoTransform => owned(text),
        TextTransform::Uppercase => uppercase_of(text),
    }
}

/// Whether `c` lies in one of the CJK blocks: CJK unified ideographs and
/// their extensions A to E, compatibility ideographs, hiragana, katakana and
/// Hangul syllables.
pub open spec fn is_cjk(c: char) -> bool {
    let v: u32 = c as u32;
    ||| 0x3400 <= v <= 0x4DBF
    ||| 0x4E00 <= v <= 0x9FFF
    ||| 0xF900 <= v <= 0xFAFF
    ||| 0x20000 <= v <= 0x2A6DF
    ||| 0x2A700 <= v <= 0x2B73F
    ||| 0x2B740 <= v <= 0x2B81F
    ||| 0x2B820 <= v <= 0x2CEAF
    ||| 0x3040 <= v <= 0x309F
    ||| 0x30A0 <= v <= 0x30FF
    ||| 0xAC00 <= v <= 0xD7AF
}

/// Whether some character of `s` is CJK.
pub open spec fn has_cjk(s: Seq<char>) -> bool {
    exists|i: int| 0 <= i < s.len() && #[trigger] is_cjk(s[i])
}

/// A text holds a CJK character exactly when one of its characters lies in
/// a CJK block: the unified ideographs (U+4E00..U+9FFF) and extensions A
/// (U+3400..U+4DBF) and B to E (U+20000..U+2A6DF, U+2A700..U+2CEAF), the
/// compatibility ideographs (U+F900..U+FAFF), hiragana (U+3040..U+309F),
/// katakana (U+30A0..U+30FF) and Hangul syllables (U+AC00..U+D7AF).
pub proof fn lemma_cjk_blocks(s: Seq<char>)
    ensures
        has_cjk(s) == exists|i: int|
            0 <= i < s.len() && {
                let v = #[trigger] s[i] as u32;
                (v >= 0x3400 && v < 0x4DC0) || (v >= 0x4E00 && v < 0xA000) || (v >= 0xF900 && v < 0xFB00)
                    || (v >= 0x20000 && v < 0x2A6E0) || (v >= 0x2A700 && v < 0x2CEB0)
                    || (v >= 0x3040 && v < 0x30A0) || (v >= 0x30A0 && v < 0x3100)
                    || (v >= 0xAC00 && v < 0xD7B0)
            },
{
    if has_cjk(s) {
        let i = choose|i: int| 0 <= i < s.len() && #[trigger] is_cjk(s[i]);
        assert(is_cjk(s[i]));
    }
    if exists|i: int|
        0 <= i < s.len() && {
            let v = #[trigger] s[i] as u32;
            (v >= 0x3400 && v < 0x4DC0) || (v >= 0x4E00 && v < 0xA000) || (v >= 0xF900 && v < 0xFB00)
                || (v >= 0x20000 && v < 0x2A6E0) || (v >= 0x2A700 && v < 0x2CEB0)
                || (v >= 0x3040 && v < 0x30A0) || (v >= 0x30A0 && v < 0x3100)
                || (v >= 0xAC00 && v < 0xD7B0)
        } {
        let i = choose|i: int|
            0 <= i < s.len() && {
                let v = #[trigger] s[i] as u32;
                (v >= 0x3400 && v < 0x4DC0) || (v >= 0x4E00 && v < 0xA000) || (v >= 0xF900 && v < 0xFB00)
                    || (v >= 0x20000 && v < 0x2A6E0) || (v >= 0x2A700 && v < 0x2CEB0)
                    || (v >= 0x3040 && v < 0x30A0) || (v >= 0x30A0 && v < 0x3100)
                    || (v >= 0xAC00 && v < 0xD7B0)
            };
        assert(is_cjk(s[i]));
    }
}

/// Whether `text` contains a CJK character.
pub fn contains_cjk(text: &str) -> (r: bool)
    ensures
        r == has_cjk(text@),
        r == exists|i: int|
            0 <= i < text@.len() && {
                let v = #[trigger] text@[i] as u32;
                (v >= 0x3400 && v < 0x4DC0) || (v >= 0x4E00 && v < 0xA000) || (v >= 0xF900 && v < 0xFB00)
                    || (v >= 0x20000 && v < 0x2A6E0) || (v >= 0x2A700 && v < 0x2CEB0)
                    || (v >= 0x3040 && v < 0x30A0) || (v >= 0x30A0 && v < 0x3100)
                    || (v >= 0xAC00 && v < 0xD7B0)
            },
{
    proof {
        lemma_cjk_blocks(text@);
    }
    let cs = chars_of(text);
    let mut i: usize = 0;
    while i < cs.len()
        invariant
            cs@ == text@,
            i <= cs@.len(),
            forall|j: int| 0 <= j < i ==> !#[trigger] is_cjk(cs@[j]),
        decreases cs@.len() - i,
    {
        let v = cs[i] as u32;
        if (0x3400 <= v && v <= 0x4DBF) || (0x4E00 <= v && v <= 0x9FFF) || (0xF900 <= v && v
            <= 0xFAFF) || (0x20000 <= v && v <= 0x2A6DF) || (0x2A700 <= v && v <= 0x2B73F) || (
        0x2B740 <= v && v <= 0x2B81F) || (0x2B820 <= v && v <= 0x2CEAF) || (0x3040 <= v && v
            <= 0x309F) || (0x30A0 <= v && v <= 0x30FF) || (0xAC00 <= v && v <= 0xD7AF) {
            assert(is_cjk(cs@[i as int]));
            return true;
        }
        i = i + 1;
    }
    false
}

/// Whether two half-open ranges share a position.
pub fn ranges_overlap(a: Range<usize>, b: Range<usize>) -> (r: bool)
    ensures
        r == (a.start < b.end && b.start < a.end),
{
    a.start < b.end && b.start < a.end
}

/// Byte ranges of consecutive pairs.
fn to_ranges(pairs: Vec<(usize, usize)>) -> (r: Vec<Range<usize>>)
    ensures
        r@.len() == pairs@.len(),
        forall|k: int|
            0 <= k < r@.len() ==> (#[trigger] r@[k]).start == pairs@[k].0 && r@[k].end
                == pairs@[k].1,
{
    let mut out: Vec<Range<usize>> = Vec::new();
    let mut i: usize = 0;
    while i < pairs.len()
        invariant
            i <= pairs@.len(),
            out@.len() == i,
            forall|k: int|
                0 <= k < i ==> (#[trigger] out@[k]).start == pairs@[k].0 && out@[k].end
                    == pairs@[k].1,
        decreases pairs@.len() - i,
    {
        let (start, end) = pairs[i];
        out.push(start..end);
        i = i + 1;
    }
    out
}

/// Byte ranges of the extended grapheme clusters of `text`.
pub fn describe_grapheme_ranges(text: &str) -> (r: Vec<Range<usize>>)
    requires
        utf8_len(text@) <= usize::MAX,
    ensures
        r@.len() == unit_pieces(text@, TextUnitGranularity::Grapheme).len(),
        forall|k: int|
            0 <= k < r@.len() ==> (#[trigger] r@[k]).start == unit_start(
                unit_pieces(text@, TextUnitGranularity::Grapheme),
                k,
            ) && r@[k].end == unit_start(unit_pieces(text@, TextUnitGranularity::Grapheme), k + 1),
{
    to_ranges(text_unit_ranges(text, TextUnitGranularity::Grapheme))
}

/// Byte ranges of the units of `text` at a granularity (graphemes for CJK
/// text at word granularity).
pub fn describe_text_unit_ranges(text: &str, granularity: TextUnitGranularity) -> (r: Vec<
    Range<usize>,
>)
    requires
        utf8_len(text@) <= usize::MAX,
    ensures
        r@.len() == unit_pieces(text@, granularity).len(),
        forall|k: int|
            0 <= k < r@.len() ==> (#[trigger] r@[k]).start == unit_start(
                unit_pieces(text@, granularity),
                k,
            ) && r@[k].end == unit_start(unit_pieces(text@, granularity), k + 1),
{
    to_ranges(text_unit_ranges(text, granularity))
}

} // verus!
