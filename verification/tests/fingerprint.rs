use opencat::fingerprint::{
    compute_element_input_fingerprints, compute_element_input_fingerprints_with, element_kind_tag, ElementInputFingerprints, ElementKind,
    ElementNode,
};

fn bits(v: f32) -> u64 {
    v.to_bits() as u64
}

fn node(
    kind: ElementKind,
    id: &str,
    layout: Vec<u64>,
    paint: Vec<u64>,
    apply: Vec<u64>,
    children: Vec<ElementNode>,
) -> ElementNode {
    ElementNode {
        kind,
        id: id.to_string(),
        layout_input: layout,
        paint_input: paint,
        apply_input: apply,
        children,
        fingerprints: ElementInputFingerprints::default(),
    }
}

const RED: u64 = 0xef4444ff;
const BLUE: u64 = 0x3b82f6ff;

/// A text element: its text and size are layout inputs, its text and color
/// paint inputs, opacity / transform / filter apply inputs.
fn text(id: &str, color: u64, opacity: f32, rotate_deg: f32, brightness: f32) -> ElementNode {
    node(
        ElementKind::Text,
        id,
        vec!['A' as u64, bits(16.0)],
        vec!['A' as u64, color],
        vec![bits(opacity), bits(rotate_deg), bits(brightness)],
        vec![],
    )
}

fn div(id: &str, children: Vec<ElementNode>) -> ElementNode {
    node(ElementKind::Div, id, vec![0], vec![0], vec![bits(1.0)], children)
}

fn resolve(mut root: ElementNode) -> ElementNode {
    compute_element_input_fingerprints(&mut root);
    root
}

#[test]
fn child_paint_change_only_changes_ancestor_paint_subtree() {
    let first = resolve(div("root", vec![text("label", RED, 1.0, 0.0, 1.0)]));
    let second = resolve(div("root", vec![text("label", BLUE, 1.0, 0.0, 1.0)]));

    assert_eq!(first.fingerprints.layout_input_subtree, second.fingerprints.layout_input_subtree);
    assert_eq!(
        first.fingerprints.paint_input_local, second.fingerprints.paint_input_local,
        "parent local paint semantics should ignore child paint changes"
    );
    assert_ne!(
        first.fingerprints.paint_input_subtree, second.fingerprints.paint_input_subtree,
        "parent paint subtree should include child paint changes"
    );
    assert_ne!(
        first.children[0].fingerprints.paint_input_local,
        second.children[0].fingerprints.paint_input_local
    );
}

fn image(id: &str, asset: u64) -> ElementNode {
    node(ElementKind::Bitmap, id, vec![20, 20], vec![asset, 20, 20], vec![bits(1.0)], vec![])
}

#[test]
fn bitmap_asset_change_dirties_paint_but_not_layout_when_dimensions_match() {
    let first = resolve(div("root", vec![image("photo", 0xa)]));
    let second = resolve(div("root", vec![image("photo", 0xb)]));

    assert_eq!(first.fingerprints.layout_input_subtree, second.fingerprints.layout_input_subtree);
    assert_ne!(first.fingerprints.paint_input_subtree, second.fingerprints.paint_input_subtree);
}

#[test]
fn canvas_hidden_child_paint_change_flows_into_canvas_paint_subtree() {
    let canvas = |color: u64| {
        node(
            ElementKind::Canvas,
            "canvas",
            vec![0],
            vec![0],
            vec![bits(1.0)],
            vec![text("hidden", color, 1.0, 0.0, 1.0)],
        )
    };
    let first = resolve(canvas(RED));
    let second = resolve(canvas(BLUE));

    assert_eq!(first.fingerprints.node_count, 2);
    assert_eq!(first.fingerprints.layout_input_subtree, second.fingerprints.layout_input_subtree);
    assert_ne!(first.fingerprints.paint_input_subtree, second.fingerprints.paint_input_subtree);
}

#[test]
fn opacity_change_affects_apply_input_only() {
    let first = resolve(div("root", vec![text("label", RED, 1.0, 0.0, 1.0)]));
    let second = resolve(div("root", vec![text("label", RED, 0.5, 0.0, 1.0)]));

    assert_eq!(
        first.fingerprints.paint_input_subtree, second.fingerprints.paint_input_subtree,
        "opacity must not leak into paint_input"
    );
    assert_eq!(
        first.fingerprints.layout_input_subtree, second.fingerprints.layout_input_subtree,
        "opacity must not leak into layout_input"
    );
    assert_ne!(
        first.fingerprints.apply_input_subtree, second.fingerprints.apply_input_subtree,
        "opacity change must move apply_input_subtree"
    );
    assert_ne!(
        first.children[0].fingerprints.apply_input_local,
        second.children[0].fingerprints.apply_input_local,
        "opacity change must move apply_input_local on the affected node"
    );
}

#[test]
fn css_filter_change_affects_apply_input_only() {
    let first = resolve(div("root", vec![text("label", RED, 1.0, 0.0, 1.0)]));
    let second = resolve(div("root", vec![text("label", RED, 1.0, 0.0, 0.5)]));

    assert_eq!(
        first.fingerprints.paint_input_subtree, second.fingerprints.paint_input_subtree,
        "CSS filter must not be baked into paint_input"
    );
    assert_eq!(
        first.fingerprints.layout_input_subtree, second.fingerprints.layout_input_subtree,
        "CSS filter must not affect layout_input"
    );
    assert_ne!(
        first.fingerprints.apply_input_subtree, second.fingerprints.apply_input_subtree,
        "CSS filter changes must move apply_input_subtree"
    );
    assert_ne!(
        first.children[0].fingerprints.apply_input_local,
        second.children[0].fingerprints.apply_input_local,
        "CSS filter changes must move apply_input_local on the affected node"
    );
}

#[test]
fn child_apply_change_propagates_to_ancestor_apply_subtree_only() {
    let first = resolve(div("root", vec![text("label", RED, 1.0, 0.0, 1.0)]));
    let second = resolve(div("root", vec![text("label", RED, 0.2, 0.0, 1.0)]));

    assert_eq!(
        first.fingerprints.apply_input_local, second.fingerprints.apply_input_local,
        "parent's own apply must not move when only child apply changes"
    );
    assert_ne!(
        first.fingerprints.apply_input_subtree, second.fingerprints.apply_input_subtree,
        "parent's apply_subtree must include child apply"
    );
}

#[test]
fn transforms_change_only_moves_apply_dimension() {
    let first = resolve(div("root", vec![text("label", RED, 1.0, 0.0, 1.0)]));
    let second = resolve(div("root", vec![text("label", RED, 1.0, 45.0, 1.0)]));

    assert_eq!(first.fingerprints.paint_input_subtree, second.fingerprints.paint_input_subtree);
    assert_eq!(first.fingerprints.layout_input_subtree, second.fingerprints.layout_input_subtree);
    assert_ne!(first.fingerprints.apply_input_subtree, second.fingerprints.apply_input_subtree);
}

/// A timeline mid-transition: the transition progress is a paint input of
/// the timeline.
fn timeline_at(progress: f32) -> ElementNode {
    let scene = |id: &str| node(ElementKind::Div, id, vec![bits(100.0), bits(100.0)], vec![0], vec![bits(1.0)], vec![]);
    node(
        ElementKind::Timeline,
        "timeline",
        vec![0],
        vec![1, bits(progress), 0],
        vec![bits(1.0)],
        vec![scene("scene_a"), scene("scene_b")],
    )
}

#[test]
fn transition_progress_change_moves_paint_input_subtree() {
    let at_frame_3 = resolve(timeline_at(0.0));
    let at_frame_5 = resolve(timeline_at(0.5));

    assert_ne!(
        at_frame_3.fingerprints.paint_input_subtree,
        at_frame_5.fingerprints.paint_input_subtree,
        "transition progress change must move paint_input_subtree so DisplayBuildSession cache invalidates"
    );
}

#[test]
fn every_element_is_stamped_and_counts_add_up() {
    let tree = resolve(div(
        "root",
        vec![
            div("a", vec![text("a1", RED, 1.0, 0.0, 1.0), text("a2", BLUE, 1.0, 0.0, 1.0)]),
            text("b", RED, 1.0, 0.0, 1.0),
        ],
    ));
    assert_eq!(tree.fingerprints.node_count, 5);
    assert_eq!(tree.children[0].fingerprints.node_count, 3);
    assert_eq!(tree.children[1].fingerprints.node_count, 1);
    assert_eq!(tree.children[0].children[1].fingerprints.node_count, 1);
    // a1 and b have the same inputs but different ids: same paint, different structure
    assert_eq!(
        tree.children[0].children[0].fingerprints.paint_input_local,
        tree.children[1].fingerprints.paint_input_local
    );
    assert_ne!(
        tree.children[0].children[0].fingerprints.structure_local,
        tree.children[1].fingerprints.structure_local
    );
}

#[test]
fn recomputing_fingerprints_is_stable() {
    let mut tree = div("root", vec![text("label", RED, 1.0, 0.0, 1.0)]);
    let first = compute_element_input_fingerprints(&mut tree);
    let second = compute_element_input_fingerprints(&mut tree);
    assert_eq!(first, second);
    assert_eq!(tree.fingerprints, first);
}

#[test]
fn element_kind_tags_are_stable() {
    assert_eq!(element_kind_tag(ElementKind::Div), 0);
    assert_eq!(element_kind_tag(ElementKind::Timeline), 1);
    assert_eq!(element_kind_tag(ElementKind::Text), 2);
    assert_eq!(element_kind_tag(ElementKind::Bitmap), 3);
    assert_eq!(element_kind_tag(ElementKind::Canvas), 4);
    assert_eq!(element_kind_tag(ElementKind::SvgPath), 5);
    assert_eq!(element_kind_tag(ElementKind::Lottie), 6);
}

fn mix(words: &[u64]) -> u64 {
    words.iter().fold(7u64, |acc, w| acc.wrapping_mul(31).wrapping_add(*w))
}

#[test]
fn fingerprints_hash_the_documented_words() {
    let mut tree = div("r", vec![text("t", RED, 1.0, 0.0, 1.0)]);
    let root = compute_element_input_fingerprints_with(&mut tree, &mix);
    let leaf = tree.children[0].fingerprints;

    // leaf: kind tag 2, id "t" as length + chars, no children
    assert_eq!(leaf.structure_local, mix(&[2, 1, 't' as u64, 0]));
    assert_eq!(leaf.structure_subtree, mix(&[leaf.structure_local, 0]));
    assert_eq!(leaf.paint_input_local, mix(&['A' as u64, RED]));
    assert_eq!(leaf.paint_input_subtree, mix(&[leaf.paint_input_local, 0]));
    assert_eq!(leaf.node_count, 1);

    // root: kind tag 0, id "r", one child
    assert_eq!(root.structure_local, mix(&[0, 1, 'r' as u64, 1]));
    assert_eq!(root.structure_subtree, mix(&[root.structure_local, leaf.structure_subtree, 1]));
    assert_eq!(root.layout_input_local, mix(&[0]));
    assert_eq!(
        root.layout_input_subtree,
        mix(&[root.layout_input_local, leaf.layout_input_subtree, 1])
    );
    assert_eq!(root.apply_input_local, mix(&[bits(1.0)]));
    assert_eq!(root.node_count, 2);
    assert_eq!(tree.fingerprints, root);
}
