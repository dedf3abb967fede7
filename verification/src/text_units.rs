//! Text unit segmentation (graphemes or words) for script-driven per-unit
//! overrides.
//!
//! A text is cut into units: extended grapheme clusters, or UAX #29 word
//! pieces (graphemes again when the text holds CJK characters, which has no
//! spaces between words). Each unit carries its position and its byte range
//! in the UTF-8 text; the ranges tile the text.

use unicode_segmentation::UnicodeSegmentation;
use vstd::prelude::*;
use crate::chars::chars_of;
use crate::script::texts;
use crate::text::{contains_cjk, has_cjk};

verus! {

/// How a text is cut into units.
#[derive(Clone, Copy, Debug, PartialEq, Eq, Structural)]
pub enum TextUnitGranularity {
    Grapheme,
    Word,
}

/// One text unit as scripts see it: its position, its text and its byte
/// range in the whole text.
#[derive(Debug)]
pub struct ScriptTextUnitMeta {
    pub index: usize,
    pub text: String,
    pub start: usize,
    pub end: usize,
}

/// The extended grapheme clusters of a text, in order
/// (`UnicodeSegmentation::graphemes(text, true)`).
pub uninterp spec fn unicode_graphemes(s: Seq<char>) -> Seq<Seq<char>>;

/// The pieces of a text between UAX #29 word boundaries, in order
/// (`UnicodeSegmentation::split_word_bounds`).
pub uninterp spec fn unicode_word_bounds(s: Seq<char>) -> Seq<Seq<char>>;

/// Grapheme cluster strings of a text (`graphemes(text, true)`). The
/// clusters are consecutive non-empty slices from the start of the text to
/// its end, so they concatenate to the text.
#[verifier::external_body]
pub fn grapheme_strings(text: &str) -> (r: Vec<String>)
    ensures
        texts(r@) == unicode_graphemes(text@),
        texts(r@).flatten() == text@,
        forall|k: int| 0 <= k < r@.len() ==> (#[trigger] r@[k])@.len() > 0,
{
    UnicodeSegmentation::graphemes(text, true).map(|g| g.to_string()).collect()
}

/// Word-boundary pieces of a text (`split_word_bounds`); as documented, the
/// pieces concatenate to the text.
#[verifier::external_body]
fn word_bound_strings(text: &str) -> (r: Vec<String>)
    ensures
        texts(r@) == unicode_word_bounds(text@),
        texts(r@).flatten() == text@,
{
    UnicodeSegmentation::split_word_bounds(text).map(|w| w.to_string()).collect()
}

/// Number of bytes of `c` in UTF-8.
pub open spec fn char_utf8_len(c: char) -> nat {
    if (c as u32) < 0x80 {
        1
    } else if (c as u32) < 0x800 {
        2
    } else if (c as u32) < 0x10000 {
        3
    } else {
        4
    }
}

/// Number of bytes of `s` in UTF-8.
pub open spec fn utf8_len(s: Seq<char>) -> nat
    decreases s.len(),
{
    if s.len() == 0 {
        0
    } else {
        utf8_len(s.drop_last()) + char_utf8_len(s.last())
    }
}

/// Holds of a non-empty piece.
pub open spec fn nonempty() -> spec_fn(Seq<char>) -> bool {
    |w: Seq<char>| w.len() > 0
}

/// The units of a text at a granularity.
pub open spec fn unit_pieces(text: Seq<char>, g: TextUnitGranularity) -> Seq<Seq<char>> {
    match g {
        TextUnitGranularity::Grapheme => unicode_graphemes(text),
        TextUnitGranularity::Word => if has_cjk(text) {
            unicode_graphemes(text)
        } else {
            unicode_word_bounds(text).filter(nonempty())
        },
    }
}

/// Byte offset at which unit `k` starts: the UTF-8 length of the units
/// before it.
pub open spec fn unit_start(pieces: Seq<Seq<char>>, k: int) -> nat {
    utf8_len(pieces.take(k).flatten())
}

pub proof fn lemma_utf8_len_add(a: Seq<char>, b: Seq<char>)
    ensures
        utf8_len(a + b) == utf8_len(a) + utf8_len(b),
    decreases b.len(),
{
    if b.len() > 0 {
        assert((a + b).drop_last() =~= a + b.drop_last());
        lemma_utf8_len_add(a, b.drop_last());
    } else {
        assert(a + b =~= a);
    }
}

proof fn lemma_unit_start_step(pieces: Seq<Seq<char>>, k: int)
    requires
        0 <= k < pieces.len(),
    ensures
        unit_start(pieces, k + 1) == unit_start(pieces, k) + utf8_len(pieces[k]),
{
    assert(pieces.take(k + 1) =~= pieces.take(k).push(pieces[k]));
    pieces.take(k).lemma_flatten_push(pieces[k]);
    lemma_utf8_len_add(pieces.take(k).flatten(), pieces[k]);
}

proof fn lemma_unit_start_le(pieces: Seq<Seq<char>>, k: int)
    requires
        0 <= k <= pieces.len(),
    ensures
        unit_start(pieces, k) <= utf8_len(pieces.flatten()),
    decreases pieces.len() - k,
{
    if k == pieces.len() {
        assert(pieces.take(k) =~= pieces);
    } else {
        lemma_unit_start_step(pieces, k);
        lemma_unit_start_le(pieces, k + 1);
    }
}

proof fn lemma_filter_nonempty_flatten(ws: Seq<Seq<char>>)
    ensures
        ws.filter(nonempty()).flatten() == ws.flatten(),
    decreases ws.len(),
{
    if ws.len() > 0 {
        let f = nonempty();
        let init = ws.drop_last();
        let last = ws.last();
        lemma_filter_nonempty_flatten(init);
        assert(ws =~= init.push(last));
        init.lemma_flatten_push(last);
        assert(ws.flatten() == init.flatten() + last);
        let sub = init.filter(f);
        reveal(Seq::filter);
        assert(ws.filter(f) == (if f(last) { sub.push(last) } else { sub }));
        if last.len() > 0 {
            sub.lemma_flatten_push(last);
        } else {
            assert(init.flatten() + last =~= init.flatten());
        }
    }
}

/// UTF-8 length of a string.
fn byte_len(s: &str) -> (r: usize)
    requires
        utf8_len(s@) <= usize::MAX,
    ensures
        r == utf8_len(s@),
{
    let cs = chars_of(s);
    let mut total: usize = 0;
    let mut i: usize = 0;
    while i < cs.len()
        invariant
            cs@ == s@,
            i <= cs@.len(),
            total == utf8_len(cs@.take(i as int)),
            utf8_len(s@) <= usize::MAX,
        decreases cs@.len() - i,
    {
        let c = cs[i];
        let v: u32 = c as u32;
        let w: usize = if v < 0x80 {
            1
        } else if v < 0x800 {
            2
        } else if v < 0x10000 {
            3
        } else {
            4
        };
        proof {
            assert(cs@.take(i + 1).drop_last() =~= cs@.take(i as int));
            assert(cs@ =~= cs@.take(i + 1) + cs@.skip(i + 1));
            lemma_utf8_len_add(cs@.take(i + 1), cs@.skip(i + 1));
        }
        total = total + w;
        i = i + 1;
    }
    assert(cs@.take(i as int) =~= cs@);
    total
}

/// The units of `text` at granularity `g`, as strings.
fn unit_strings(text: &str, g: TextUnitGranularity) -> (r: Vec<String>)
    ensures
        texts(r@) == unit_pieces(text@, g),
        texts(r@).flatten() == text@,
{
    match g {
        TextUnitGranularity::Grapheme => grapheme_strings(text),
        TextUnitGranularity::Word => {
            if contains_cjk(text) {
                return grapheme_strings(text);
            }
            let words = word_bound_strings(text);
            let ghost ws = texts(words@);
            let ghost f = nonempty();
            let mut out: Vec<String> = Vec::new();
            let mut i: usize = 0;
            while i < words.len()
                invariant
                    i <= words@.len(),
                    ws == texts(words@),
                    f == nonempty(),
                    texts(out@) == ws.take(i as int).filter(f),
                decreases words@.len() - i,
            {
                proof {
                    reveal(Seq::filter);
                    assert(ws.take(i + 1).drop_last() =~= ws.take(i as int));
                    assert(ws.take(i + 1).last() == words@[i as int]@);
                }
                if words[i].as_str().unicode_len() > 0 {
                    out.push(words[i].clone());
                    assert(texts(out@) =~= ws.take(i as int).filter(f).push(words@[i as int]@));
                }
                i = i + 1;
            }
            proof {
                assert(ws.take(i as int) =~= ws);
                lemma_filter_nonempty_flatten(ws);
            }
            out
        },
    }
}

/// Byte ranges `(start, end)` of consecutive pieces, from offset zero.
fn piece_ranges(pieces: &Vec<String>) -> (r: Vec<(usize, usize)>)
    requires
        utf8_len(texts(pieces@).flatten()) <= usize::MAX,
    ensures
        r@.len() == pieces@.len(),
        forall|k: int|
            0 <= k < r@.len() ==> (#[trigger] r@[k]).0 == unit_start(texts(pieces@), k) && r@[k].1
                == unit_start(texts(pieces@), k + 1),
{
    let ghost ps = texts(pieces@);
    let mut out: Vec<(usize, usize)> = Vec::new();
    let mut offset: usize = 0;
    let mut i: usize = 0;
    assert(ps.take(0) =~= Seq::<Seq<char>>::empty());
    while i < pieces.len()
        invariant
            i <= pieces@.len(),
            ps == texts(pieces@),
            utf8_len(ps.flatten()) <= usize::MAX,
            offset == unit_start(ps, i as int),
            out@.len() == i,
            forall|k: int|
                0 <= k < i ==> (#[trigger] out@[k]).0 == unit_start(ps, k) && out@[k].1
                    == unit_start(ps, k + 1),
        decreases pieces@.len() - i,
    {
        proof {
            lemma_unit_start_step(ps, i as int);
            lemma_unit_start_le(ps, i + 1);
            assert(ps[i as int] == pieces@[i as int]@);
        }
        let len: usize = byte_len(pieces[i].as_str());
        let end: usize = offset + len;
        out.push((offset, end));
        offset = end;
        i = i + 1;
    }
    out
}

/// The units of `text` at granularity `g`, with their positions and byte
/// ranges. Word units skip empty pieces; a text with CJK characters is cut
/// into graphemes at either granularity.
pub fn describe_text_units(text: &str, granularity: TextUnitGranularity) -> (r: Vec<
    ScriptTextUnitMeta,
>)
    requires
        utf8_len(text@) <= usize::MAX,
    ensures
        r@.len() == unit_pieces(text@, granularity).len(),
        forall|k: int|
            0 <= k < r@.len() ==> {
                let u = #[trigger] r@[k];
                let pieces = unit_pieces(text@, granularity);
                &&& u.index == k
                &&& u.text@ == pieces[k]
                &&& u.start == unit_start(pieces, k)
                &&& u.end == unit_start(pieces, k + 1)
            },
        unit_pieces(text@, granularity).flatten() == text@,
        r@.len() > 0 ==> r@[r@.len() - 1].end == utf8_len(text@),
{
    let pieces = unit_strings(text, granularity);
    proof {
        assert(texts(pieces@).take(pieces@.len() as int) =~= texts(pieces@));
    }
    let ranges = piece_ranges(&pieces);
    let mut out: Vec<ScriptTextUnitMeta> = Vec::new();
    let mut i: usize = 0;
    while i < pieces.len()
        invariant
            i <= pieces@.len(),
            ranges@.len() == pieces@.len(),
            texts(pieces@) == unit_pieces(text@, granularity),
            forall|k: int|
                0 <= k < ranges@.len() ==> (#[trigger] ranges@[k]).0 == unit_start(
                    texts(pieces@),
                    k,
                ) && ranges@[k].1 == unit_start(texts(pieces@), k + 1),
            out@.len() == i,
            forall|k: int|
                0 <= k < i ==> {
                    let u = #[trigger] out@[k];
                    &&& u.index == k
                    &&& u.text@ == pieces@[k]@
                    &&& u.start == ranges@[k].0
                    &&& u.end == ranges@[k].1
                },
        decreases pieces@.len() - i,
    {
        let (start, end) = ranges[i];
        out.push(ScriptTextUnitMeta { index: i, text: pieces[i].clone(), start, end });
        i = i + 1;
    }
    assert forall|k: int| 0 <= k < out@.len() implies #[trigger] out@[k].text@ == unit_pieces(
        text@,
        granularity,
    )[k] by {
        assert(texts(pieces@)[k] == pieces@[k]@);
    }
    out
}

/// Byte ranges of the word units of `text` (graphemes when the text holds CJK
/// characters); the same ranges `describe_text_units` gives at word
/// granularity.
pub fn word_ranges(text: &str) -> (r: Vec<[usize; 2]>)
    requires
        utf8_len(text@) <= usize::MAX,
    ensures
        r@.len() == unit_pieces(text@, TextUnitGranularity::Word).len(),
        forall|k: int|
            0 <= k < r@.len() ==> (#[trigger] r@[k])[0] == unit_start(
                unit_pieces(text@, TextUnitGranularity::Word),
                k,
            ) && r@[k][1] == unit_start(unit_pieces(text@, TextUnitGranularity::Word), k + 1),
{
    let pieces = unit_strings(text, TextUnitGranularity::Word);
    let ranges = piece_ranges(&pieces);
    let mut out: Vec<[usize; 2]> = Vec::new();
    let mut i: usize = 0;
    while i < ranges.len()
        invariant
            i <= ranges@.len(),
            out@.len() == i,
            forall|k: int|
                0 <= k < i ==> (#[trigger] out@[k])[0] == ranges@[k].0 && out@[k][1]
                    == ranges@[k].1,
        decreases ranges@.len() - i,
    {
        let (start, end) = ranges[i];
        out.push([start, end]);
        i = i + 1;
    }
    out
}

/// Byte ranges of the units of `text` at granularity `g`.
pub fn text_unit_ranges(text: &str, granularity: TextUnitGranularity) -> (r: Vec<(usize, usize)>)
    requires
        utf8_len(text@) <= usize::MAX,
    ensures
        r@.len() == unit_pieces(text@, granularity).len(),
        forall|k: int|
            0 <= k < r@.len() ==> (#[trigger] r@[k]).0 == unit_start(
                unit_pieces(text@, granularity),
                k,
            ) && r@[k].1 == unit_start(unit_pieces(text@, granularity), k + 1),
{
    let pieces = unit_strings(text, granularity);
    piece_ranges(&pieces)
}

} // verus!
