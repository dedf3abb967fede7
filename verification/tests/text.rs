use opencat::style::TextTransform;
use opencat::text::{
    apply_text_transform, contains_cjk, describe_grapheme_ranges, describe_text_unit_ranges,
    ranges_overlap,
};
use opencat::text_units::{describe_text_units, grapheme_strings, word_ranges, TextUnitGranularity};

#[test]
fn textlayout_applies_uppercase_transform() {
    assert_eq!(
        apply_text_transform("Physics Education Series", TextTransform::Uppercase),
        "PHYSICS EDUCATION SERIES"
    );
}

#[test]
fn text_transform_none_keeps_text() {
    assert_eq!(apply_text_transform("straße", TextTransform::NoTransform), "straße");
    assert_eq!(apply_text_transform("straße", TextTransform::Uppercase), "STRASSE");
}

#[test]
fn cjk_detection() {
    assert!(contains_cjk("hello 你好"));
    assert!(contains_cjk("カタカナ"));
    assert!(contains_cjk("한국어"));
    assert!(!contains_cjk("hello, world!"));
    assert!(!contains_cjk(""));
}

#[test]
fn range_overlap_is_half_open() {
    assert!(ranges_overlap(0..5, 4..6));
    assert!(!ranges_overlap(0..5, 5..6));
    assert!(ranges_overlap(3..3, 0..10));
    assert!(!ranges_overlap(10..12, 0..10));
}

#[test]
fn graphemes_split_emojis_correctly() {
    let units = describe_text_units("a😀b", TextUnitGranularity::Grapheme);
    assert_eq!(units.len(), 3);
    assert_eq!(units[1].text, "😀");
}

#[test]
fn cjk_text_falls_back_to_graphemes_under_word_mode() {
    let units = describe_text_units("你好", TextUnitGranularity::Word);
    assert_eq!(units.len(), 2);
    assert_eq!(units[0].text, "你");
}

#[test]
fn word_mode_segments_latin_text() {
    let units = describe_text_units("hello world", TextUnitGranularity::Word);
    let words: Vec<&str> = units.iter().map(|u| u.text.as_str()).collect();
    assert!(words.contains(&"hello"));
    assert!(words.contains(&"world"));
}

#[test]
fn word_ranges_matches_describe_text_units() {
    let text = "hello, world!";
    let units = describe_text_units(text, TextUnitGranularity::Word);
    let ranges = word_ranges(text);
    assert_eq!(units.len(), ranges.len());
    for (u, [start, end]) in units.iter().zip(ranges.iter()) {
        assert_eq!(u.start, *start);
        assert_eq!(u.end, *end);
    }
}

#[test]
fn word_ranges_cjk_falls_back_to_graphemes() {
    let ranges = word_ranges("你好世界");
    assert_eq!(ranges.len(), 4);
}

#[test]
fn unit_byte_ranges_tile_the_text() {
    let text = "a😀b";
    let units = describe_text_units(text, TextUnitGranularity::Grapheme);
    let spans: Vec<(usize, usize, usize)> = units.iter().map(|u| (u.index, u.start, u.end)).collect();
    assert_eq!(spans, vec![(0, 0, 1), (1, 1, 5), (2, 5, 6)]);
    let ranges = describe_grapheme_ranges(text);
    assert_eq!(ranges, vec![0..1, 1..5, 5..6]);
    let words = describe_text_unit_ranges("hi there", TextUnitGranularity::Word);
    assert_eq!(words, vec![0..2, 2..3, 3..8]);
    assert_eq!(grapheme_strings("e\u{301}x"), vec!["e\u{301}".to_string(), "x".to_string()]);
    assert!(describe_text_units("", TextUnitGranularity::Word).is_empty());
}
