//! Per-element input fingerprints of a resolved element tree.
//!
//! Every element carries four independent input dimensions: structure (kind,
//! id, child count), layout, paint and apply (opacity, transforms, filters).
//! For each dimension the element gets a local fingerprint, hashed from its
//! own inputs only, and a subtree fingerprint, hashed from the local one, the
//! children's subtree fingerprints and the child count. Render caches compare
//! these values to decide what must be recomputed.

use std::hash::{Hash, Hasher};
use vstd::prelude::*;
use crate::chars::chars_of;

verus! {

/// Fingerprints of one element, per input dimension.
#[derive(Clone, Copy, Debug, PartialEq, Eq, Structural)]
pub struct ElementInputFingerprints {
    pub structure_local: u64,
    pub layout_input_local: u64,
    pub paint_input_local: u64,
    /// Local hash of the composite/apply inputs: opacity, transforms, CSS
    /// filter, backdrop blur. No paint cache key contains it; it only decides
    /// whether a built display subtree can be reused.
    pub apply_input_local: u64,
    pub structure_subtree: u64,
    pub layout_input_subtree: u64,
    pub paint_input_subtree: u64,
    pub apply_input_subtree: u64,
    pub node_count: usize,
}

impl Default for ElementInputFingerprints {
    fn default() -> (r: Self)
        ensures
            r.structure_local == 0 && r.layout_input_local == 0 && r.paint_input_local == 0
                && r.apply_input_local == 0 && r.structure_subtree == 0
                && r.layout_input_subtree == 0 && r.paint_input_subtree == 0
                && r.apply_input_subtree == 0 && r.node_count == 0,
    {
        ElementInputFingerprints {
            structure_local: 0,
            layout_input_local: 0,
            paint_input_local: 0,
            apply_input_local: 0,
            structure_subtree: 0,
            layout_input_subtree: 0,
            paint_input_subtree: 0,
            apply_input_subtree: 0,
            node_count: 0,
        }
    }
}

/// Kind of a resolved element.
#[derive(Clone, Copy, Debug, PartialEq, Eq, Structural)]
pub enum ElementKind {
    Div,
    Timeline,
    Text,
    Bitmap,
    Canvas,
    SvgPath,
    Lottie,
}

/// A resolved element. The layout, paint and apply inputs are the element's
/// style and content fields of that dimension, each written as one or more
/// 64-bit words in a fixed order (floating-point fields by their bit
/// pattern, optional fields preceded by a presence word).
#[derive(Debug)]
pub struct ElementNode {
    pub kind: ElementKind,
    pub id: String,
    pub layout_input: Vec<u64>,
    pub paint_input: Vec<u64>,
    pub apply_input: Vec<u64>,
    pub children: Vec<ElementNode>,
    pub fingerprints: ElementInputFingerprints,
}

/// One of the four input dimensions.
#[derive(Clone, Copy, Debug, PartialEq, Eq, Structural)]
pub enum InputDimension {
    Structure,
    Layout,
    Paint,
    Apply,
}

/// Hashes `words` with `ahash::AHasher::default()` fed through `[u64]`'s
/// `Hash` implementation. It is public because the contract of
/// `compute_element_input_fingerprints` names it. Nothing is stated of the
/// value: ahash documents that its output may differ between machines and
/// versions (the AES code path follows the target's CPU features, and the
/// words are hashed as bytes in the machine's byte order).
#[verifier::external_body]
pub fn hash_words(words: &[u64]) -> (r: u64) {
    let mut hasher = ahash::AHasher::default();
    words.hash(&mut hasher);
    hasher.finish()
}

pub open spec fn kind_tag_spec(kind: ElementKind) -> u8 {
    match kind {
        ElementKind::Div => 0,
        ElementKind::Timeline => 1,
        ElementKind::Text => 2,
        ElementKind::Bitmap => 3,
        ElementKind::Canvas => 4,
        ElementKind::SvgPath => 5,
        ElementKind::Lottie => 6,
    }
}

/// Stable numeric tag of an element kind.
pub fn element_kind_tag(kind: ElementKind) -> (r: u8)
    ensures
        r == kind_tag_spec(kind),
{
    match kind {
        ElementKind::Div => 0,
        ElementKind::Timeline => 1,
        ElementKind::Text => 2,
        ElementKind::Bitmap => 3,
        ElementKind::Canvas => 4,
        ElementKind::SvgPath => 5,
        ElementKind::Lottie => 6,
    }
}

/// A text as words: its length, then each character's scalar value.
pub open spec fn text_words(s: Seq<char>) -> Seq<u64> {
    seq![s.len() as u64] + s.map_values(|c: char| (c as u32) as u64)
}

/// Structure inputs of an element: kind tag, id, child count.
pub open spec fn structure_words(n: ElementNode) -> Seq<u64> {
    seq![kind_tag_spec(n.kind) as u64] + text_words(n.id@) + seq![n.children@.len() as u64]
}

/// The element's own input words of a dimension.
pub open spec fn input_words(n: ElementNode, d: InputDimension) -> Seq<u64> {
    match d {
        InputDimension::Structure => structure_words(n),
        InputDimension::Layout => n.layout_input@,
        InputDimension::Paint => n.paint_input@,
        InputDimension::Apply => n.apply_input@,
    }
}

/// Words a subtree fingerprint is hashed from: the local fingerprint, each
/// child's subtree fingerprint in order, then the child count.
pub open spec fn subtree_words(local: u64, children: Seq<u64>) -> Seq<u64> {
    seq![local] + children + seq![children.len() as u64]
}

/// Number of elements in a tree.
pub open spec fn node_count_spec(n: ElementNode) -> nat
    decreases n, 0int,
{
    1 + children_node_count(n.children@)
}

/// Number of elements in a list of trees.
pub open spec fn children_node_count(ns: Seq<ElementNode>) -> nat
    decreases ns, 1int,
{
    if ns.len() == 0 {
        0
    } else {
        children_node_count(ns.drop_last()) + node_count_spec(ns.last())
    }
}

/// Local fingerprint of dimension `d` in `fp`.
pub open spec fn local_of(fp: ElementInputFingerprints, d: InputDimension) -> u64 {
    match d {
        InputDimension::Structure => fp.structure_local,
        InputDimension::Layout => fp.layout_input_local,
        InputDimension::Paint => fp.paint_input_local,
        InputDimension::Apply => fp.apply_input_local,
    }
}

/// Subtree fingerprint of dimension `d` in `fp`.
pub open spec fn subtree_of(fp: ElementInputFingerprints, d: InputDimension) -> u64 {
    match d {
        InputDimension::Structure => fp.structure_subtree,
        InputDimension::Layout => fp.layout_input_subtree,
        InputDimension::Paint => fp.paint_input_subtree,
        InputDimension::Apply => fp.apply_input_subtree,
    }
}

/// The stored subtree fingerprints of dimension `d` of a list of elements.
pub open spec fn child_subtrees(ns: Seq<ElementNode>, d: InputDimension) -> Seq<u64> {
    ns.map_values(|c: ElementNode| subtree_of(c.fingerprints, d))
}

/// `r` is a result `hash` can give for a slice holding `words`.
pub open spec fn hashed_by<H: Fn(&[u64]) -> u64>(hash: H, words: Seq<u64>, r: u64) -> bool {
    exists|w: &[u64]| w@ == words && #[trigger] call_ensures(hash, (w,), r)
}

/// `hash` gives equal results for slices holding equal words.
pub open spec fn deterministic<H: Fn(&[u64]) -> u64>(hash: H) -> bool {
    forall|w1: &[u64], w2: &[u64], r1: u64, r2: u64|
        #![trigger call_ensures(hash, (w1,), r1), call_ensures(hash, (w2,), r2)]
        w1@ == w2@ && call_ensures(hash, (w1,), r1) && call_ensures(hash, (w2,), r2) ==> r1 == r2
}

/// The element's own fingerprints of dimension `d` are hashed by `hash`:
/// the local one from its own input words, the subtree one from the local
/// one, the children's stored subtree fingerprints in order and the child
/// count.
pub open spec fn node_hashed_by<H: Fn(&[u64]) -> u64>(
    hash: H,
    n: ElementNode,
    d: InputDimension,
) -> bool {
    &&& hashed_by(hash, input_words(n, d), local_of(n.fingerprints, d))
    &&& hashed_by(
        hash,
        subtree_words(local_of(n.fingerprints, d), child_subtrees(n.children@, d)),
        subtree_of(n.fingerprints, d),
    )
}

/// Every element of the tree has its fingerprints of every dimension
/// hashed by `hash` as `node_hashed_by` says.
pub open spec fn fingerprinted_by<H: Fn(&[u64]) -> u64>(hash: H, n: ElementNode) -> bool
    decreases n,
{
    &&& node_hashed_by(hash, n, InputDimension::Structure)
    &&& node_hashed_by(hash, n, InputDimension::Layout)
    &&& node_hashed_by(hash, n, InputDimension::Paint)
    &&& node_hashed_by(hash, n, InputDimension::Apply)
    &&& forall|i: int|
        0 <= i < n.children@.len() ==> {
            proof {
                assert(decreases_to!(n => n.children@[i]));
            }
            fingerprinted_by(hash, #[trigger] n.children@[i])
        }
}

/// Every element of the tree stores its own element count.
pub open spec fn counted(n: ElementNode) -> bool
    decreases n,
{
    &&& n.fingerprints.node_count == node_count_spec(n)
    &&& forall|i: int|
        0 <= i < n.children@.len() ==> {
            proof {
                assert(decreases_to!(n => n.children@[i]));
            }
            counted(#[trigger] n.children@[i])
        }
}

/// `new` is `old` with only the stored fingerprints changed, at any element.
pub open spec fn same_elements(new: ElementNode, old: ElementNode) -> bool
    decreases old,
{
    &&& new.kind == old.kind
    &&& new.id == old.id
    &&& new.layout_input == old.layout_input
    &&& new.paint_input == old.paint_input
    &&& new.apply_input == old.apply_input
    &&& new.children@.len() == old.children@.len()
    &&& forall|i: int|
        0 <= i < old.children@.len() ==> {
            proof {
                assert(decreases_to!(old => old.children@[i]));
            }
            same_elements(#[trigger] new.children@[i], old.children@[i])
        }
}

/// The two trees have the same shape and the same inputs of dimension `d`
/// at every element.
pub open spec fn same_inputs(a: ElementNode, b: ElementNode, d: InputDimension) -> bool
    decreases a,
{
    &&& input_words(a, d) == input_words(b, d)
    &&& a.children@.len() == b.children@.len()
    &&& forall|i: int|
        0 <= i < a.children@.len() ==> {
            proof {
                assert(decreases_to!(a => a.children@[i]));
            }
            same_inputs(#[trigger] a.children@[i], b.children@[i], d)
        }
}

proof fn lemma_count_prefix(ns: Seq<ElementNode>, i: int)
    requires
        0 <= i < ns.len(),
    ensures
        children_node_count(ns.subrange(0, i + 1)) == children_node_count(ns.subrange(0, i))
            + node_count_spec(ns[i]),
{
    assert(ns.subrange(0, i + 1).drop_last() =~= ns.subrange(0, i));
}

proof fn lemma_count_prefix_le(ns: Seq<ElementNode>, i: int)
    requires
        0 <= i <= ns.len(),
    ensures
        children_node_count(ns.subrange(0, i)) <= children_node_count(ns),
    decreases ns.len(),
{
    if i == ns.len() {
        assert(ns.subrange(0, i) =~= ns);
    } else {
        assert(ns.subrange(0, i) =~= ns.drop_last().subrange(0, i));
        lemma_count_prefix_le(ns.drop_last(), i);
    }
}

/// Trees with the same elements have the same element count.
proof fn lemma_same_elements_count(new: ElementNode, old: ElementNode)
    requires
        same_elements(new, old),
    ensures
        node_count_spec(new) == node_count_spec(old),
    decreases old, 0int,
{
    lemma_same_elements_count_all(new.children@, old.children@);
}

proof fn lemma_same_elements_count_all(new: Seq<ElementNode>, old: Seq<ElementNode>)
    requires
        new.len() == old.len(),
        forall|i: int| 0 <= i < old.len() ==> same_elements(#[trigger] new[i], old[i]),
    ensures
        children_node_count(new) == children_node_count(old),
    decreases old, 1int,
{
    if old.len() > 0 {
        assert forall|i: int| 0 <= i < old.drop_last().len() implies same_elements(
            #[trigger] new.drop_last()[i],
            old.drop_last()[i],
        ) by {
            assert(new.drop_last()[i] == new[i]);
        }
        lemma_same_elements_count_all(new.drop_last(), old.drop_last());
        lemma_same_elements_count(new.last(), old.last());
    }
}

/// Words of `text_words` computed for a string.
fn push_text_words(words: &mut Vec<u64>, s: &str)
    ensures
        final(words)@ == old(words)@ + text_words(s@),
{
    let cs = chars_of(s);
    let n: usize = cs.len();
    words.push(n as u64);
    let ghost base = words@;
    let mut j: usize = 0;
    while j < n
        invariant
            n == cs@.len(),
            cs@ == s@,
            j <= n,
            words@ == base + cs@.subrange(0, j as int).map_values(|c: char| (c as u32) as u64),
        decreases n - j,
    {
        let c = cs[j];
        words.push(c as u32 as u64);
        j = j + 1;
        assert(cs@.subrange(0, j as int).map_values(|c: char| (c as u32) as u64) =~= cs@.subrange(
            0,
            j - 1,
        ).map_values(|c: char| (c as u32) as u64).push((c as u32) as u64));
    }
    assert(cs@.subrange(0, n as int) =~= cs@);
    assert(words@ =~= old(words)@ + text_words(s@));
}

/// The structure input words of an element.
fn structure_input_words(node: &ElementNode) -> (r: Vec<u64>)
    ensures
        r@ == structure_words(*node),
{
    let mut words: Vec<u64> = Vec::new();
    words.push(element_kind_tag(node.kind) as u64);
    push_text_words(&mut words, node.id.as_str());
    words.push(node.children.len() as u64);
    assert(words@ =~= structure_words(*node));
    words
}

/// Hash of a subtree: the local fingerprint, the children's subtree
/// fingerprints, then the child count.
fn hash_subtree<H: Fn(&[u64]) -> u64>(local: u64, children: &[u64], hash: &H) -> (r: u64)
    requires
        forall|w: &[u64]| call_requires(*hash, (w,)),
    ensures
        hashed_by(*hash, subtree_words(local, children@), r),
{
    let mut words: Vec<u64> = Vec::new();
    words.push(local);
    let mut j: usize = 0;
    while j < children.len()
        invariant
            j <= children@.len(),
            words@ == seq![local] + children@.subrange(0, j as int),
        decreases children@.len() - j,
    {
        words.push(children[j]);
        j = j + 1;
        assert(words@ =~= seq![local] + children@.subrange(0, j as int));
    }
    assert(children@.subrange(0, children@.len() as int) =~= children@);
    words.push(children.len() as u64);
    assert(words@ =~= subtree_words(local, children@));
    hash_slice(words.as_slice(), hash)
}

/// One call of `hash`.
fn hash_slice<H: Fn(&[u64]) -> u64>(words: &[u64], hash: &H) -> (r: u64)
    requires
        forall|w: &[u64]| call_requires(*hash, (w,)),
    ensures
        hashed_by(*hash, words@, r),
{
    let r = hash(words);
    assert(call_ensures(*hash, (words,), r));
    r
}

/// Fingerprints of `node` and all its descendants, hashed by `hash`; each
/// element's `fingerprints` field is set to its own values.
fn compute_node<H: Fn(&[u64]) -> u64>(node: &mut ElementNode, hash: &H) -> (r:
    ElementInputFingerprints)
    requires
        node_count_spec(*old(node)) <= usize::MAX,
        forall|w: &[u64]| call_requires(*hash, (w,)),
    ensures
        r == final(node).fingerprints,
        same_elements(*final(node), *old(node)),
        counted(*final(node)),
        fingerprinted_by(*hash, *final(node)),
    decreases *old(node),
{
    let ghost old_node = *node;
    let n: usize = node.children.len();
    let mut structure_kids: Vec<u64> = Vec::new();
    let mut layout_kids: Vec<u64> = Vec::new();
    let mut paint_kids: Vec<u64> = Vec::new();
    let mut apply_kids: Vec<u64> = Vec::new();
    let mut count: usize = 1;
    let mut i: usize = 0;
    while i < n
        invariant
            old_node == *old(node),
            forall|w: &[u64]| call_requires(*hash, (w,)),
            n == old_node.children@.len(),
            node.children@.len() == n,
            node.kind == old_node.kind,
            node.id == old_node.id,
            node.layout_input == old_node.layout_input,
            node.paint_input == old_node.paint_input,
            node.apply_input == old_node.apply_input,
            i <= n,
            node_count_spec(old_node) <= usize::MAX,
            forall|j: int|
                0 <= j < i ==> {
                    &&& same_elements(#[trigger] node.children@[j], old_node.children@[j])
                    &&& counted(node.children@[j])
                    &&& fingerprinted_by(*hash, node.children@[j])
                },
            forall|j: int| i <= j < n ==> #[trigger] node.children@[j] == old_node.children@[j],
            structure_kids@ == child_subtrees(
                node.children@.subrange(0, i as int),
                InputDimension::Structure,
            ),
            layout_kids@ == child_subtrees(
                node.children@.subrange(0, i as int),
                InputDimension::Layout,
            ),
            paint_kids@ == child_subtrees(
                node.children@.subrange(0, i as int),
                InputDimension::Paint,
            ),
            apply_kids@ == child_subtrees(
                node.children@.subrange(0, i as int),
                InputDimension::Apply,
            ),
            count == 1 + children_node_count(old_node.children@.subrange(0, i as int)),
        decreases n - i,
    {
        proof {
            lemma_count_prefix(old_node.children@, i as int);
            lemma_count_prefix_le(old_node.children@, i as int + 1);
            assert(node.children@[i as int] == old_node.children@[i as int]);
            assert(decreases_to!(old_node => node.children@[i as int]));
        }
        let ghost before = node.children@;
        let fp = compute_node(&mut node.children[i], hash);
        proof {
            assert(node.children@ == before.update(i as int, node.children@[i as int]));
            lemma_same_elements_count(node.children@[i as int], old_node.children@[i as int]);
            assert(node.children@.subrange(0, i as int + 1) =~= before.subrange(0, i as int).push(
                node.children@[i as int],
            ));
        }
        structure_kids.push(fp.structure_subtree);
        layout_kids.push(fp.layout_input_subtree);
        paint_kids.push(fp.paint_input_subtree);
        apply_kids.push(fp.apply_input_subtree);
        count = count + fp.node_count;
        i = i + 1;
    }
    proof {
        assert(old_node.children@.subrange(0, n as int) =~= old_node.children@);
        assert(node.children@.subrange(0, n as int) =~= node.children@);
    }
    let structure_local: u64 = hash_slice(structure_input_words(node).as_slice(), hash);
    let layout_local: u64 = hash_slice(node.layout_input.as_slice(), hash);
    let paint_local: u64 = hash_slice(node.paint_input.as_slice(), hash);
    let apply_local: u64 = hash_slice(node.apply_input.as_slice(), hash);
    let fingerprints = ElementInputFingerprints {
        structure_local,
        layout_input_local: layout_local,
        paint_input_local: paint_local,
        apply_input_local: apply_local,
        structure_subtree: hash_subtree(structure_local, structure_kids.as_slice(), hash),
        layout_input_subtree: hash_subtree(layout_local, layout_kids.as_slice(), hash),
        paint_input_subtree: hash_subtree(paint_local, paint_kids.as_slice(), hash),
        apply_input_subtree: hash_subtree(apply_local, apply_kids.as_slice(), hash),
        node_count: count,
    };
    let ghost kids = node.children@;
    node.fingerprints = fingerprints;
    proof {
        assert(node.children@ == kids);
        assert(same_elements(*node, old_node));
        lemma_same_elements_count(*node, old_node);
        assert(structure_words(*node) == structure_words(old_node));
    }
    fingerprints
}

/// Computes the input fingerprints of every element of the tree rooted at
/// `root` with `hash`, stores them on the elements, and returns the root's.
/// Each element's local fingerprint of a dimension is a result of `hash` on
/// its own input words of that dimension; its subtree fingerprint is a
/// result of `hash` on the local one, its children's stored subtree
/// fingerprints in order and the child count; its element count is the
/// size of its subtree. Nothing else in the tree changes.
pub fn compute_element_input_fingerprints_with<H: Fn(&[u64]) -> u64>(
    root: &mut ElementNode,
    hash: &H,
) -> (r: ElementInputFingerprints)
    requires
        node_count_spec(*old(root)) <= usize::MAX,
        forall|w: &[u64]| call_requires(*hash, (w,)),
    ensures
        r == final(root).fingerprints,
        same_elements(*final(root), *old(root)),
        counted(*final(root)),
        fingerprinted_by(*hash, *final(root)),
{
    compute_node(root, hash)
}

/// Computes the input fingerprints of every element of the tree rooted at
/// `root` with aHash (`compute_element_input_fingerprints_with` over
/// `hash_words`), stores them on the elements, and returns the root's. Each
/// fingerprint is a result of `hash_words` on the words the per-element law
/// names; the aHash values themselves are not stated.
pub fn compute_element_input_fingerprints(root: &mut ElementNode) -> (r: ElementInputFingerprints)
    requires
        node_count_spec(*old(root)) <= usize::MAX,
    ensures
        r == final(root).fingerprints,
        same_elements(*final(root), *old(root)),
        counted(*final(root)),
        fingerprinted_by(hash_words, *final(root)),
{
    compute_element_input_fingerprints_with(root, &hash_words)
}

/// A fingerprint depends only on the tree's shape and on the inputs of its
/// own dimension: for a deterministic hash, trees fingerprinted with it that
/// agree on those have equal local and subtree fingerprints in that
/// dimension, whatever their other inputs.
pub proof fn lemma_fingerprint_depends_only_on_dimension<H: Fn(&[u64]) -> u64>(
    hash: H,
    a: ElementNode,
    b: ElementNode,
    d: InputDimension,
)
    requires
        deterministic(hash),
        fingerprinted_by(hash, a),
        fingerprinted_by(hash, b),
        same_inputs(a, b, d),
    ensures
        local_of(a.fingerprints, d) == local_of(b.fingerprints, d),
        subtree_of(a.fingerprints, d) == subtree_of(b.fingerprints, d),
    decreases a,
{
    assert forall|i: int| 0 <= i < a.children@.len() implies subtree_of(
        (#[trigger] a.children@[i]).fingerprints,
        d,
    ) == subtree_of(b.children@[i].fingerprints, d) by {
        assert(decreases_to!(a => a.children@[i]));
        assert(fingerprinted_by(hash, a.children@[i]));
        assert(fingerprinted_by(hash, b.children@[i]));
        assert(same_inputs(a.children@[i], b.children@[i], d));
        lemma_fingerprint_depends_only_on_dimension(hash, a.children@[i], b.children@[i], d);
    }
    assert(child_subtrees(a.children@, d) =~= child_subtrees(b.children@, d));
    lemma_hash_agrees(hash, d, a, b);
}

proof fn lemma_hashed_unique<H: Fn(&[u64]) -> u64>(hash: H, words: Seq<u64>, r1: u64, r2: u64)
    requires
        deterministic(hash),
        hashed_by(hash, words, r1),
        hashed_by(hash, words, r2),
    ensures
        r1 == r2,
{
    let w1 = choose|w: &[u64]| w@ == words && #[trigger] call_ensures(hash, (w,), r1);
    let w2 = choose|w: &[u64]| w@ == words && #[trigger] call_ensures(hash, (w,), r2);
    assert(call_ensures(hash, (w1,), r1) && call_ensures(hash, (w2,), r2));
}

proof fn lemma_hash_agrees<H: Fn(&[u64]) -> u64>(
    hash: H,
    d: InputDimension,
    a: ElementNode,
    b: ElementNode,
)
    requires
        deterministic(hash),
        node_hashed_by(hash, a, d),
        node_hashed_by(hash, b, d),
        input_words(a, d) == input_words(b, d),
        child_subtrees(a.children@, d) == child_subtrees(b.children@, d),
    ensures
        local_of(a.fingerprints, d) == local_of(b.fingerprints, d),
        subtree_of(a.fingerprints, d) == subtree_of(b.fingerprints, d),
{
    lemma_hashed_unique(
        hash,
        input_words(a, d),
        local_of(a.fingerprints, d),
        local_of(b.fingerprints, d),
    );
    lemma_hashed_unique(
        hash,
        subtree_words(local_of(a.fingerprints, d), child_subtrees(a.children@, d)),
        subtree_of(a.fingerprints, d),
        subtree_of(b.fingerprints, d),
    );
}

/// The per-element law of a fingerprinted tree: each element's local
/// fingerprint of a dimension is a result of the hash on its own input
/// words, and its subtree fingerprint a result of the hash on the local one,
/// its children's stored subtree fingerprints in order and the child count;
/// the same holds of each child.
pub proof fn lemma_fingerprint_per_node<H: Fn(&[u64]) -> u64>(
    hash: H,
    n: ElementNode,
    d: InputDimension,
)
    requires
        fingerprinted_by(hash, n),
    ensures
        hashed_by(hash, input_words(n, d), local_of(n.fingerprints, d)),
        hashed_by(
            hash,
            subtree_words(local_of(n.fingerprints, d), child_subtrees(n.children@, d)),
            subtree_of(n.fingerprints, d),
        ),
        forall|i: int| 0 <= i < n.children@.len() ==> fingerprinted_by(hash, #[trigger] n.children@[i]),
{
}

/// Sum of the element counts stored on a list of elements.
pub open spec fn stored_counts(ns: Seq<ElementNode>) -> int
    decreases ns.len(),
{
    if ns.len() == 0 {
        0
    } else {
        stored_counts(ns.drop_last()) + ns.last().fingerprints.node_count
    }
}

proof fn lemma_stored_counts(ns: Seq<ElementNode>)
    requires
        forall|i: int| 0 <= i < ns.len() ==> counted(#[trigger] ns[i]),
    ensures
        stored_counts(ns) == children_node_count(ns),
    decreases ns.len(),
{
    if ns.len() > 0 {
        assert forall|i: int| 0 <= i < ns.drop_last().len() implies counted(
            #[trigger] ns.drop_last()[i],
        ) by {
            assert(ns.drop_last()[i] == ns[i]);
        }
        lemma_stored_counts(ns.drop_last());
        assert(counted(ns[ns.len() - 1]));
    }
}

/// In a counted tree every element's count is one plus the counts stored
/// on its children (hidden children included).
pub proof fn lemma_node_count_sums_children(n: ElementNode)
    requires
        counted(n),
    ensures
        n.fingerprints.node_count == 1 + stored_counts(n.children@),
{
    lemma_stored_counts(n.children@);
}

proof fn lemma_same_elements_same_inputs(new: ElementNode, old: ElementNode, d: InputDimension)
    requires
        same_elements(new, old),
    ensures
        same_inputs(new, old, d),
    decreases old,
{
    assert forall|i: int| 0 <= i < new.children@.len() implies same_inputs(
        #[trigger] new.children@[i],
        old.children@[i],
        d,
    ) by {
        assert(decreases_to!(old => old.children@[i]));
        lemma_same_elements_same_inputs(new.children@[i], old.children@[i], d);
    }
    assert(input_words(new, d) == input_words(old, d));
}

/// Fingerprinting ignores the stored fingerprints: with a deterministic
/// hash, fingerprinting a tree again gives the fingerprints it had.
pub proof fn lemma_recompute_is_stable<H: Fn(&[u64]) -> u64>(
    hash: H,
    new: ElementNode,
    old: ElementNode,
)
    requires
        deterministic(hash),
        fingerprinted_by(hash, old),
        counted(old),
        fingerprinted_by(hash, new),
        counted(new),
        same_elements(new, old),
    ensures
        new.fingerprints == old.fingerprints,
{
    lemma_same_elements_same_inputs(new, old, InputDimension::Structure);
    lemma_same_elements_same_inputs(new, old, InputDimension::Layout);
    lemma_same_elements_same_inputs(new, old, InputDimension::Paint);
    lemma_same_elements_same_inputs(new, old, InputDimension::Apply);
    lemma_fingerprint_depends_only_on_dimension(hash, new, old, InputDimension::Structure);
    lemma_fingerprint_depends_only_on_dimension(hash, new, old, InputDimension::Layout);
    lemma_fingerprint_depends_only_on_dimension(hash, new, old, InputDimension::Paint);
    lemma_fingerprint_depends_only_on_dimension(hash, new, old, InputDimension::Apply);
    lemma_same_elements_count(new, old);
}

} // verus!
