//! Script drivers: the JS sources attached to composition nodes, their
//! external script references, stable driver ids, the target registry, and
//! the keyword tables that script bindings use to decode style values.

use std::collections::HashMap;
use std::hash::{Hash, Hasher};
use vstd::prelude::*;
use crate::chars::{chars_of, concat2, join, join_spec, owned, starts_with, starts_with_spec,
    string_of, text_eq};
use crate::keyed::KeyedMap;
use crate::style::{AlignItems, FlexDirection, JustifyContent, ObjectFit, Position, TextAlign};

verus! {

/// Identifier of an asset in the prepared resource catalog.
#[derive(Debug, Clone, PartialEq, Eq, Hash)]
pub struct AssetId(pub String);

/// Error raised by a script binding.
#[derive(Debug)]
pub struct ScriptError {
    pub message: String,
}

/// Create a binding error from an operation name and message:
/// ``script binding `<op>`: <message>``.
pub fn script_error(op: &str, message: String) -> (r: ScriptError)
    ensures
        r.message@ == "script binding `"@ + op@ + "`: "@ + message@,
{
    let a = concat2("script binding `", op);
    let b = a.concat("`: ");
    ScriptError { message: b.concat(message.as_str()) }
}

/// Stable id of an installed script driver.
#[derive(Clone, Copy, Debug, PartialEq, Eq, Structural, Hash)]
pub struct ScriptDriverId(pub u64);

/// Hashes `source` with `ahash::AHasher::default()` fed through `str`'s
/// `Hash` implementation. Nothing is stated of the value: ahash documents
/// that its output may differ between machines and versions (the AES code
/// path follows the target's CPU features), so no fixed function of the
/// text describes it.
#[verifier::external_body]
pub fn driver_id_from_source(source: &str) -> (r: ScriptDriverId) {
    let mut h = ahash::AHasher::default();
    source.hash(&mut h);
    ScriptDriverId(h.finish())
}

/// `id` is a result `driver_id_from_source` can give for a string holding
/// `source`.
pub open spec fn hashes_source(source: Seq<char>, id: ScriptDriverId) -> bool {
    exists|t: &str| t@ == source && #[trigger] call_ensures(driver_id_from_source, (t,), id)
}

/// One call of `hash` on `source`.
fn hash_with<F: Fn(&str) -> ScriptDriverId>(hash: &F, source: &str) -> (r: ScriptDriverId)
    requires
        call_requires(*hash, (source,)),
    ensures
        call_ensures(*hash, (source,), r),
{
    hash(source)
}

/// `driver_id_from_source` on `source`, with its result tied to the call.
pub(crate) fn hash_source(source: &str) -> (r: ScriptDriverId)
    ensures
        hashes_source(source@, r),
{
    let r = hash_with(&driver_id_from_source, source);
    assert(call_ensures(driver_id_from_source, (source,), r));
    r
}

/// External script file declared by logical path/url.
#[derive(Debug, PartialEq, Eq)]
pub struct ScriptExternalRef {
    pub asset_id: AssetId,
    /// Logical path or URL as authored.
    pub locator: String,
}

impl ScriptExternalRef {
    pub fn duplicate(&self) -> (r: Self)
        ensures
            r == *self,
    {
        ScriptExternalRef { asset_id: AssetId(self.asset_id.0.clone()), locator: self.locator.clone() }
    }
}

/// Whether a locator names a web resource.
pub open spec fn is_url_locator(locator: Seq<char>) -> bool {
    starts_with_spec(locator, "http://"@) || starts_with_spec(locator, "https://"@)
}

/// Canonical asset id text of a script locator.
pub open spec fn script_asset_id_spec(locator: Seq<char>) -> Seq<char> {
    if is_url_locator(locator) {
        "script:url:"@ + locator
    } else {
        "script:path:"@ + locator
    }
}

/// Canonical AssetId for a logical script locator (path or url).
pub fn asset_id_for_script_locator(locator: &str) -> (r: AssetId)
    ensures
        r.0@ == script_asset_id_spec(locator@),
{
    let chars = chars_of(locator);
    if starts_with(&chars, &chars_of("http://")) || starts_with(&chars, &chars_of("https://")) {
        AssetId(concat2("script:url:", locator))
    } else {
        AssetId(concat2("script:path:", locator))
    }
}

/// Script attached to a node: inline source, external references, or both.
#[derive(Debug)]
pub struct ScriptDriver {
    /// Final JS source. Inline scripts set this at parse; external scripts are
    /// empty until prepare injects host-supplied text.
    pub source: String,
    /// Primary external (single-path case).
    pub external: Option<ScriptExternalRef>,
    /// Ordered external locators.
    pub externals: Vec<ScriptExternalRef>,
    /// Inline fragments joined ahead of the external texts at prepare.
    pub inline_fragments: Vec<String>,
}

/// Asset id texts of external references, in order.
pub open spec fn external_ids(es: Seq<ScriptExternalRef>) -> Seq<Seq<char>> {
    es.map_values(|e: ScriptExternalRef| e.asset_id.0@)
}

/// Texts of a list of strings.
pub open spec fn texts(v: Seq<String>) -> Seq<Seq<char>> {
    v.map_values(|s: String| s@)
}

/// Text a driver id is derived from: the `\0`-joined external asset ids, the
/// single external's id, or the inline source.
pub open spec fn driver_key_spec(d: &ScriptDriver) -> Seq<char> {
    if d.externals@.len() > 0 {
        join_spec(external_ids(d.externals@), seq!['\0'])
    } else {
        match d.external {
            Some(ext) => ext.asset_id.0@,
            None => d.source@,
        }
    }
}

/// The external reference a locator declares.
pub open spec fn external_ref_spec(locator: Seq<char>, r: ScriptExternalRef) -> bool {
    r.locator@ == locator && r.asset_id.0@ == script_asset_id_spec(locator)
}

/// What a driver's source becomes once host texts are applied: the inline
/// fragments and then each external's text, `\n`-joined, or empty when some
/// external text is missing.
pub open spec fn resolved_source_spec(
    inline: Seq<Seq<char>>,
    ids: Seq<Seq<char>>,
    host: Map<Seq<char>, String>,
) -> Seq<char> {
    if forall|k: int| 0 <= k < ids.len() ==> host.contains_key(#[trigger] ids[k]) {
        join_spec(inline + ids.map_values(|id: Seq<char>| host[id]@), seq!['\n'])
    } else {
        Seq::empty()
    }
}

impl ScriptDriver {
    /// Inline driver.
    pub fn from_source(source: &str) -> (r: Result<Self, ScriptError>)
        ensures
            match r {
                Ok(d) => d.source@ == source@ && d.external is None && d.externals@.len() == 0
                    && d.inline_fragments@.len() == 0,
                Err(_) => false,
            },
    {
        Ok(Self {
            source: owned(source),
            external: None,
            externals: Vec::new(),
            inline_fragments: Vec::new(),
        })
    }

    /// Declared external script. Source text is injected during prepare.
    pub fn from_external(locator: String) -> (r: Self)
        ensures
            r.source@.len() == 0,
            r.externals@.len() == 1,
            external_ref_spec(locator@, r.externals@[0]),
            r.external == Some(r.externals@[0]),
            r.inline_fragments@.len() == 0,
    {
        let asset_id = asset_id_for_script_locator(locator.as_str());
        let external = ScriptExternalRef { asset_id, locator };
        let first = external.duplicate();
        let mut externals = Vec::new();
        externals.push(external);
        Self {
            source: String::new(),
            external: Some(first),
            externals,
            inline_fragments: Vec::new(),
        }
    }

    /// Mixed or multi-external declaration.
    pub fn from_pieces(inline_fragments: Vec<String>, external_locators: Vec<String>) -> (r: Self)
        ensures
            r.source@.len() == 0,
            r.inline_fragments@ == inline_fragments@,
            r.externals@.len() == external_locators@.len(),
            forall|k: int|
                0 <= k < external_locators@.len() ==> external_ref_spec(
                    (#[trigger] external_locators@[k])@,
                    r.externals@[k],
                ),
            r.external == (if external_locators@.len() > 0 {
                Some(r.externals@[0])
            } else {
                None
            }),
    {
        let mut externals: Vec<ScriptExternalRef> = Vec::new();
        let mut i: usize = 0;
        while i < external_locators.len()
            invariant
                i <= external_locators@.len(),
                externals@.len() == i,
                forall|k: int|
                    0 <= k < i ==> external_ref_spec(
                        (#[trigger] external_locators@[k])@,
                        externals@[k],
                    ),
            decreases external_locators@.len() - i,
        {
            let locator = external_locators[i].clone();
            let asset_id = asset_id_for_script_locator(locator.as_str());
            externals.push(ScriptExternalRef { asset_id, locator });
            i = i + 1;
        }
        let external = if externals.len() > 0 {
            Some(externals[0].duplicate())
        } else {
            None
        };
        Self { source: String::new(), external, externals, inline_fragments }
    }

    /// Text the driver id is derived from.
    pub fn driver_key(&self) -> (r: String)
        ensures
            r@ == driver_key_spec(self),
    {
        if self.externals.len() > 0 {
            let mut parts: Vec<Vec<char>> = Vec::new();
            let mut i: usize = 0;
            while i < self.externals.len()
                invariant
                    i <= self.externals@.len(),
                    parts@.len() == i,
                    forall|j: int|
                        0 <= j < i ==> (#[trigger] parts@[j])@ == self.externals@[j].asset_id.0@,
                decreases self.externals@.len() - i,
            {
                let p = chars_of(self.externals[i].asset_id.0.as_str());
                parts.push(p);
                i = i + 1;
            }
            assert(parts@.map_values(|p: Vec<char>| p@) =~= external_ids(self.externals@));
            let sep = ['\0'];
            assert(sep@ =~= seq!['\0']);
            let joined = join(&parts, &sep);
            string_of(&joined)
        } else {
            match &self.external {
                Some(ext) => ext.asset_id.0.clone(),
                None => self.source.clone(),
            }
        }
    }

    /// Stable id of this driver: what `driver_id_from_source` gives for its
    /// key (`driver_key`). The hash value is the outside hasher's, of which
    /// nothing more is stated.
    pub fn driver_id(&self) -> (r: ScriptDriverId)
        ensures
            hashes_source(driver_key_spec(self), r),
    {
        let key = self.driver_key();
        hash_source(key.as_str())
    }

    /// Cache key of this driver: the number of its id (`driver_id`).
    pub fn cache_key(&self) -> (r: u64)
        ensures
            hashes_source(driver_key_spec(self), ScriptDriverId(r)),
    {
        self.driver_id().0
    }

    /// Externals are declared and their text has not arrived yet.
    pub fn is_external_pending(&self) -> (r: bool)
        ensures
            r == (self.externals@.len() > 0 && self.source@.len() == 0),
    {
        self.externals.len() > 0 && self.source.as_str().unicode_len() == 0
    }

    /// Apply host-supplied script texts (keyed by asset id) and produce the
    /// final joined source. A missing external leaves the source empty; a
    /// driver without externals is left unchanged.
    pub fn resolve_with_host_texts(&mut self, texts: &KeyedMap<String>)
        ensures
            final(self).externals == old(self).externals,
            final(self).external == old(self).external,
            final(self).inline_fragments == old(self).inline_fragments,
            old(self).externals@.len() == 0 ==> final(self).source == old(self).source,
            old(self).externals@.len() > 0 ==> final(self).source@ == resolved_source_spec(
                crate::script::texts(old(self).inline_fragments@),
                external_ids(old(self).externals@),
                texts@,
            ),
    {
        if self.externals.len() == 0 {
            return;
        }
        let ghost ids = external_ids(self.externals@);
        let ghost inl = crate::script::texts(self.inline_fragments@);
        let mut parts: Vec<Vec<char>> = Vec::new();
        let mut i: usize = 0;
        while i < self.inline_fragments.len()
            invariant
                i <= self.inline_fragments@.len(),
                parts@.len() == i,
                forall|j: int|
                    0 <= j < i ==> (#[trigger] parts@[j])@ == self.inline_fragments@[j]@,
            decreases self.inline_fragments@.len() - i,
        {
            let p = chars_of(self.inline_fragments[i].as_str());
            parts.push(p);
            i = i + 1;
        }
        let n_inline: usize = i;
        let mut k: usize = 0;
        while k < self.externals.len()
            invariant
                *self == *old(self),
                k <= self.externals@.len(),
                n_inline == self.inline_fragments@.len(),
                ids == external_ids(self.externals@),
                parts@.len() == n_inline + k,
                forall|j: int|
                    0 <= j < n_inline ==> (#[trigger] parts@[j])@ == self.inline_fragments@[j]@,
                forall|j: int| 0 <= j < k ==> texts@.contains_key(#[trigger] ids[j]),
                forall|j: int|
                    0 <= j < k ==> (#[trigger] parts@[n_inline + j])@ == texts@[ids[j]]@,
            decreases self.externals@.len() - k,
        {
            match texts.get(self.externals[k].asset_id.0.as_str()) {
                Some(t) => {
                    let p = chars_of(t.as_str());
                    parts.push(p);
                    assert(parts@[n_inline + k as int] == p);
                    k = k + 1;
                },
                None => {
                    assert(!texts@.contains_key(ids[k as int]));
                    self.source = String::new();
                    return;
                },
            }
        }
        let ghost lhs = parts@.map_values(|p: Vec<char>| p@);
        let ghost rhs = inl + ids.map_values(|id: Seq<char>| texts@[id]@);
        assert forall|j: int| 0 <= j < parts@.len() implies #[trigger] lhs[j] == rhs[j] by {
            if j >= n_inline {
                assert(parts@[n_inline + (j - n_inline)] == parts@[j]);
            }
        }
        assert(lhs =~= rhs);
        let sep = ['\n'];
        assert(sep@ =~= seq!['\n']);
        let joined = join(&parts, &sep);
        self.source = string_of(&joined);
    }
}

/// Inline driver from source text.
pub fn driver_from_source(source: &str) -> (r: Result<ScriptDriver, ScriptError>)
    ensures
        match r {
            Ok(d) => d.source@ == source@ && d.external is None && d.externals@.len() == 0
                && d.inline_fragments@.len() == 0,
            Err(_) => false,
        },
{
    ScriptDriver::from_source(source)
}

/// Text handed to scripts for a text node or caption.
#[derive(Debug, Clone)]
pub struct ScriptTextSource {
    pub text: String,
    pub kind: ScriptTextSourceKind,
}

#[derive(Debug, Clone, Copy, PartialEq, Eq, Structural)]
pub enum ScriptTextSourceKind {
    TextNode,
    Caption,
}

/// Node ids a script may target, by category.
pub struct ScriptTargetRegistry {
    pub visual_ids: KeyedMap<()>,
    pub canvas_ids: KeyedMap<()>,
    pub non_visual_ids: KeyedMap<()>,
}

impl ScriptTargetRegistry {
    pub fn new() -> (r: Self)
        ensures
            r.visual_ids@.dom().is_empty(),
            r.canvas_ids@.dom().is_empty(),
            r.non_visual_ids@.dom().is_empty(),
    {
        ScriptTargetRegistry {
            visual_ids: KeyedMap::new(),
            canvas_ids: KeyedMap::new(),
            non_visual_ids: KeyedMap::new(),
        }
    }

    pub fn contains_visual(&self, id: &str) -> (r: bool)
        ensures
            r == self.visual_ids@.contains_key(id@),
    {
        self.visual_ids.contains_key(id)
    }

    pub fn contains_canvas(&self, id: &str) -> (r: bool)
        ensures
            r == self.canvas_ids@.contains_key(id@),
    {
        self.canvas_ids.contains_key(id)
    }

    pub fn contains_non_visual(&self, id: &str) -> (r: bool)
        ensures
            r == self.non_visual_ids@.contains_key(id@),
    {
        self.non_visual_ids.contains_key(id)
    }
}

pub open spec fn position_spec(name: Seq<char>) -> Option<Position> {
    if name == "relative"@ {
        Some(Position::Relative)
    } else if name == "absolute"@ {
        Some(Position::Absolute)
    } else {
        None
    }
}

pub fn position_from_name(name: &str) -> (r: Option<Position>)
    ensures
        r == position_spec(name@),
{
    if text_eq(name, "relative") {
        Some(Position::Relative)
    } else if text_eq(name, "absolute") {
        Some(Position::Absolute)
    } else {
        None
    }
}

pub open spec fn flex_direction_spec(name: Seq<char>) -> Option<FlexDirection> {
    if name == "row"@ {
        Some(FlexDirection::Row)
    } else if name == "col"@ || name == "column"@ {
        Some(FlexDirection::Col)
    } else {
        None
    }
}

pub fn flex_direction_from_name(name: &str) -> (r: Option<FlexDirection>)
    ensures
        r == flex_direction_spec(name@),
{
    if text_eq(name, "row") {
        Some(FlexDirection::Row)
    } else if text_eq(name, "col") || text_eq(name, "column") {
        Some(FlexDirection::Col)
    } else {
        None
    }
}

pub open spec fn justify_content_spec(name: Seq<char>) -> Option<JustifyContent> {
    if name == "start"@ {
        Some(JustifyContent::Start)
    } else if name == "center"@ {
        Some(JustifyContent::Center)
    } else if name == "end"@ {
        Some(JustifyContent::End)
    } else if name == "between"@ {
        Some(JustifyContent::Between)
    } else if name == "around"@ {
        Some(JustifyContent::Around)
    } else if name == "evenly"@ {
        Some(JustifyContent::Evenly)
    } else {
        None
    }
}

pub fn justify_content_from_name(name: &str) -> (r: Option<JustifyContent>)
    ensures
        r == justify_content_spec(name@),
{
    if text_eq(name, "start") {
        Some(JustifyContent::Start)
    } else if text_eq(name, "center") {
        Some(JustifyContent::Center)
    } else if text_eq(name, "end") {
        Some(JustifyContent::End)
    } else if text_eq(name, "between") {
        Some(JustifyContent::Between)
    } else if text_eq(name, "around") {
        Some(JustifyContent::Around)
    } else if text_eq(name, "evenly") {
        Some(JustifyContent::Evenly)
    } else {
        None
    }
}

pub open spec fn align_items_spec(name: Seq<char>) -> Option<AlignItems> {
    if name == "start"@ {
        Some(AlignItems::Start)
    } else if name == "center"@ {
        Some(AlignItems::Center)
    } else if name == "end"@ {
        Some(AlignItems::End)
    } else if name == "stretch"@ {
        Some(AlignItems::Stretch)
    } else {
        None
    }
}

pub fn align_items_from_name(name: &str) -> (r: Option<AlignItems>)
    ensures
        r == align_items_spec(name@),
{
    if text_eq(name, "start") {
        Some(AlignItems::Start)
    } else if text_eq(name, "center") {
        Some(AlignItems::Center)
    } else if text_eq(name, "end") {
        Some(AlignItems::End)
    } else if text_eq(name, "stretch") {
        Some(AlignItems::Stretch)
    } else {
        None
    }
}

pub open spec fn object_fit_spec(name: Seq<char>) -> Option<ObjectFit> {
    if name == "contain"@ {
        Some(ObjectFit::Contain)
    } else if name == "cover"@ {
        Some(ObjectFit::Cover)
    } else if name == "fill"@ {
        Some(ObjectFit::Fill)
    } else {
        None
    }
}

pub fn object_fit_from_name(name: &str) -> (r: Option<ObjectFit>)
    ensures
        r == object_fit_spec(name@),
{
    if text_eq(name, "contain") {
        Some(ObjectFit::Contain)
    } else if text_eq(name, "cover") {
        Some(ObjectFit::Cover)
    } else if text_eq(name, "fill") {
        Some(ObjectFit::Fill)
    } else {
        None
    }
}

pub open spec fn text_align_spec(name: Seq<char>) -> Option<TextAlign> {
    if name == "left"@ {
        Some(TextAlign::Left)
    } else if name == "center"@ {
        Some(TextAlign::Center)
    } else if name == "right"@ {
        Some(TextAlign::Right)
    } else {
        None
    }
}

pub fn text_align_from_name(name: &str) -> (r: Option<TextAlign>)
    ensures
        r == text_align_spec(name@),
{
    if text_eq(name, "left") {
        Some(TextAlign::Left)
    } else if text_eq(name, "center") {
        Some(TextAlign::Center)
    } else if text_eq(name, "right") {
        Some(TextAlign::Right)
    } else {
        None
    }
}

/// The keyword a script writes for a position.
pub open spec fn position_named(v: Position, name: Seq<char>) -> bool {
    match v {
        Position::Relative => name == "relative"@,
        Position::Absolute => name == "absolute"@,
    }
}

/// The keywords a script writes for a flex direction (`col` and `column`
/// both name the column direction; the reversed ones have none).
pub open spec fn flex_direction_named(v: FlexDirection, name: Seq<char>) -> bool {
    match v {
        FlexDirection::Row => name == "row"@,
        FlexDirection::Col => name == "col"@ || name == "column"@,
        FlexDirection::RowReverse => false,
        FlexDirection::ColReverse => false,
    }
}

/// The keyword a script writes for a justify-content value (`stretch` has
/// none).
pub open spec fn justify_content_named(v: JustifyContent, name: Seq<char>) -> bool {
    match v {
        JustifyContent::Start => name == "start"@,
        JustifyContent::Center => name == "center"@,
        JustifyContent::End => name == "end"@,
        JustifyContent::Between => name == "between"@,
        JustifyContent::Around => name == "around"@,
        JustifyContent::Evenly => name == "evenly"@,
        JustifyContent::Stretch => false,
    }
}

/// The keyword a script writes for an align-items value (`baseline` has
/// none).
pub open spec fn align_items_named(v: AlignItems, name: Seq<char>) -> bool {
    match v {
        AlignItems::Start => name == "start"@,
        AlignItems::Center => name == "center"@,
        AlignItems::End => name == "end"@,
        AlignItems::Stretch => name == "stretch"@,
        AlignItems::Baseline => false,
    }
}

/// The keyword a script writes for an object-fit value.
pub open spec fn object_fit_named(v: ObjectFit, name: Seq<char>) -> bool {
    match v {
        ObjectFit::Contain => name == "contain"@,
        ObjectFit::Cover => name == "cover"@,
        ObjectFit::Fill => name == "fill"@,
    }
}

/// The keyword a script writes for a text alignment.
pub open spec fn text_align_named(v: TextAlign, name: Seq<char>) -> bool {
    match v {
        TextAlign::Left => name == "left"@,
        TextAlign::Center => name == "center"@,
        TextAlign::Right => name == "right"@,
    }
}

/// Each style keyword decodes to the value of the same name, and only a
/// value's own keyword decodes to it: a name gives `Some(v)` exactly when it
/// is a keyword of `v`.
pub proof fn lemma_keywords_decode_to_their_values(name: Seq<char>)
    ensures
        forall|v: Position| position_spec(name) == Some(v) <==> #[trigger] position_named(v, name),
        forall|v: FlexDirection|
            flex_direction_spec(name) == Some(v) <==> #[trigger] flex_direction_named(v, name),
        forall|v: JustifyContent|
            justify_content_spec(name) == Some(v) <==> #[trigger] justify_content_named(v, name),
        forall|v: AlignItems| align_items_spec(name) == Some(v) <==> #[trigger] align_items_named(v, name),
        forall|v: ObjectFit| object_fit_spec(name) == Some(v) <==> #[trigger] object_fit_named(v, name),
        forall|v: TextAlign| text_align_spec(name) == Some(v) <==> #[trigger] text_align_named(v, name),
{
    reveal_strlit("relative");
    reveal_strlit("absolute");
    reveal_strlit("row");
    reveal_strlit("col");
    reveal_strlit("column");
    reveal_strlit("start");
    reveal_strlit("center");
    reveal_strlit("end");
    reveal_strlit("between");
    reveal_strlit("around");
    reveal_strlit("evenly");
    reveal_strlit("stretch");
    reveal_strlit("contain");
    reveal_strlit("cover");
    reveal_strlit("fill");
    reveal_strlit("left");
    reveal_strlit("right");
    assert("relative"@ != "absolute"@) by {
        assert("relative"@[0] != "absolute"@[0]);
    }
    assert("row"@ != "col"@ && "row"@ != "column"@ && "col"@ != "column"@) by {
        assert("row"@[0] != "col"@[0]);
        assert("row"@[0] != "column"@[0]);
        assert("col"@.len() != "column"@.len());
    }
    assert forall|v: Position| position_spec(name) == Some(v) <==> #[trigger] position_named(
        v,
        name,
    ) by {
        match v {
            Position::Relative => {},
            Position::Absolute => {},
        }
    }
    assert forall|v: FlexDirection| flex_direction_spec(name) == Some(v) <==> #[trigger] flex_direction_named(
        v,
        name,
    ) by {
        match v {
            FlexDirection::Row => {},
            FlexDirection::Col => {},
            FlexDirection::RowReverse => {},
            FlexDirection::ColReverse => {},
        }
    }
    assert("start"@ != "center"@) by {
        assert("start"@.len() != "center"@.len() || "start"@[0] != "center"@[0]);
    }
    assert("start"@ != "end"@) by {
        assert("start"@.len() != "end"@.len() || "start"@[0] != "end"@[0]);
    }
    assert("start"@ != "between"@) by {
        assert("start"@.len() != "between"@.len() || "start"@[0] != "between"@[0]);
    }
    assert("start"@ != "around"@) by {
        assert("start"@.len() != "around"@.len() || "start"@[0] != "around"@[0]);
    }
    assert("start"@ != "evenly"@) by {
        assert("start"@.len() != "evenly"@.len() || "start"@[0] != "evenly"@[0]);
    }
    assert("center"@ != "end"@) by {
        assert("center"@.len() != "end"@.len() || "center"@[0] != "end"@[0]);
    }
    assert("center"@ != "between"@) by {
        assert("center"@.len() != "between"@.len() || "center"@[0] != "between"@[0]);
    }
    assert("center"@ != "around"@) by {
        assert("center"@.len() != "around"@.len() || "center"@[0] != "around"@[0]);
    }
    assert("center"@ != "evenly"@) by {
        assert("center"@.len() != "evenly"@.len() || "center"@[0] != "evenly"@[0]);
    }
    assert("end"@ != "between"@) by {
        assert("end"@.len() != "between"@.len() || "end"@[0] != "between"@[0]);
    }
    assert("end"@ != "around"@) by {
        assert("end"@.len() != "around"@.len() || "end"@[0] != "around"@[0]);
    }
    assert("end"@ != "evenly"@) by {
        assert("end"@.len() != "evenly"@.len() || "end"@[0] != "evenly"@[0]);
    }
    assert("between"@ != "around"@) by {
        assert("between"@.len() != "around"@.len() || "between"@[0] != "around"@[0]);
    }
    assert("between"@ != "evenly"@) by {
        assert("between"@.len() != "evenly"@.len() || "between"@[0] != "evenly"@[0]);
    }
    assert("around"@ != "evenly"@) by {
        assert("around"@.len() != "evenly"@.len() || "around"@[0] != "evenly"@[0]);
    }
    assert forall|v: JustifyContent| justify_content_spec(name) == Some(v) <==> #[trigger] justify_content_named(v, name) by {
        match v {
            JustifyContent::Start => {},
            JustifyContent::Center => {},
            JustifyContent::End => {},
            JustifyContent::Between => {},
            JustifyContent::Around => {},
            JustifyContent::Evenly => {},
            JustifyContent::Stretch => {},
        }
    }
    assert("start"@ != "stretch"@) by {
        assert("start"@.len() != "stretch"@.len() || "start"@[0] != "stretch"@[0]);
    }
    assert("center"@ != "stretch"@) by {
        assert("center"@.len() != "stretch"@.len() || "center"@[0] != "stretch"@[0]);
    }
    assert("end"@ != "stretch"@) by {
        assert("end"@.len() != "stretch"@.len() || "end"@[0] != "stretch"@[0]);
    }
    assert forall|v: AlignItems| align_items_spec(name) == Some(v) <==> #[trigger] align_items_named(v, name) by {
        match v {
            AlignItems::Start => {},
            AlignItems::Center => {},
            AlignItems::End => {},
            AlignItems::Stretch => {},
            AlignItems::Baseline => {},
        }
    }
    assert("contain"@ != "cover"@) by {
        assert("contain"@.len() != "cover"@.len() || "contain"@[0] != "cover"@[0]);
    }
    assert("contain"@ != "fill"@) by {
        assert("contain"@.len() != "fill"@.len() || "contain"@[0] != "fill"@[0]);
    }
    assert("cover"@ != "fill"@) by {
        assert("cover"@.len() != "fill"@.len() || "cover"@[0] != "fill"@[0]);
    }
    assert forall|v: ObjectFit| object_fit_spec(name) == Some(v) <==> #[trigger] object_fit_named(v, name) by {
        match v {
            ObjectFit::Contain => {},
            ObjectFit::Cover => {},
            ObjectFit::Fill => {},
        }
    }
    assert("left"@ != "center"@) by {
        assert("left"@.len() != "center"@.len() || "left"@[0] != "center"@[0]);
    }
    assert("left"@ != "right"@) by {
        assert("left"@.len() != "right"@.len() || "left"@[0] != "right"@[0]);
    }
    assert("center"@ != "right"@) by {
        assert("center"@.len() != "right"@.len() || "center"@[0] != "right"@[0]);
    }
    assert forall|v: TextAlign| text_align_spec(name) == Some(v) <==> #[trigger] text_align_named(v, name) by {
        match v {
            TextAlign::Left => {},
            TextAlign::Center => {},
            TextAlign::Right => {},
        }
    }
}

/// One step of the xorshift32 generator, with a zero seed replaced by the
/// golden-ratio constant.
pub open spec fn xorshift32_spec(seed: u32) -> u32 {
    let x0: u32 = if seed == 0 { 0x9E37_79B9 } else { seed };
    let x1: u32 = x0 ^ (x0 << 13u32);
    let x2: u32 = x1 ^ (x1 >> 17u32);
    x2 ^ (x2 << 5u32)
}

/// Deterministic pseudo-random word from a seed (xorshift32).
pub fn xorshift32(seed: u32) -> (r: u32)
    ensures
        r == xorshift32_spec(seed),
{
    let mut x: u32 = if seed == 0 { 0x9E37_79B9 } else { seed };
    x = x ^ (x << 13u32);
    x = x ^ (x >> 17u32);
    x = x ^ (x << 5u32);
    x
}

/// The generator never yields zero: each xorshift step is invertible, so a
/// non-zero state stays non-zero, and a zero seed is replaced first.
pub proof fn lemma_xorshift32_nonzero(seed: u32)
    ensures
        xorshift32_spec(seed) != 0,
{
    let x0: u32 = if seed == 0 { 0x9E37_79B9 } else { seed };
    assert(x0 != 0);
    let x1: u32 = x0 ^ (x0 << 13u32);
    assert(x1 != 0) by (bit_vector)
        requires
            x0 != 0,
            x1 == x0 ^ (x0 << 13u32),
    ;
    let x2: u32 = x1 ^ (x1 >> 17u32);
    assert(x2 != 0) by (bit_vector)
        requires
            x1 != 0,
            x2 == x1 ^ (x1 >> 17u32),
    ;
    let x3: u32 = x2 ^ (x2 << 5u32);
    assert(x3 != 0) by (bit_vector)
        requires
            x2 != 0,
            x3 == x2 ^ (x2 << 5u32),
    ;
}

/// Tile mode of an image shader child, by its script name.
#[derive(Clone, Copy, Debug, PartialEq, Eq, Structural)]
pub enum TileModeName {
    Clamp,
    Repeat,
    Mirror,
    Decal,
}

/// Tile mode of a child that names none.
pub fn default_tile_mode() -> (r: TileModeName)
    ensures
        r == TileModeName::Clamp,
{
    TileModeName::Clamp
}

/// A runtime-effect child declared by a script.
#[derive(Debug)]
pub enum ScriptChildSpec {
    Image { asset_id: String, tile_x: TileModeName, tile_y: TileModeName },
}

/// An image a draw command refers to.
#[derive(Debug)]
pub enum ImageRef {
    Static { asset_id: String },
    VideoFrame { asset_id: String, time_micros: u64 },
    Generated { id: u64 },
}

/// A runtime-effect child as the draw list carries it.
#[derive(Debug)]
pub enum RuntimeEffectChildRef {
    Image(ImageRef),
}

impl ScriptChildSpec {
    /// The draw-list child this spec declares: an image child becomes a
    /// static image reference to its asset.
    pub fn to_ir_child_ref(&self) -> (r: RuntimeEffectChildRef)
        ensures
            match (*self, r) {
                (
                    ScriptChildSpec::Image { asset_id, .. },
                    RuntimeEffectChildRef::Image(ImageRef::Static { asset_id: out }),
                ) => out@ == asset_id@,
                _ => false,
            },
    {
        match self {
            ScriptChildSpec::Image { asset_id, .. } => RuntimeEffectChildRef::Image(
                ImageRef::Static { asset_id: asset_id.clone() },
            ),
        }
    }
}

/// Script host that serves mutations computed elsewhere (the web target runs
/// scripts natively and hands their results over), keyed by driver id.
pub struct PrecomputedScriptHost<M> {
    pub mutations: HashMap<u64, M>,
}

impl<M> PrecomputedScriptHost<M> {
    /// An empty host.
    pub fn new() -> (r: Self)
        ensures
            r.mutations@ == Map::<u64, M>::empty(),
    {
        PrecomputedScriptHost { mutations: HashMap::new() }
    }

    /// A host holding `mutations` for driver id zero.
    pub fn from_single(mutations: M) -> (r: Self)
        ensures
            r.mutations@ == Map::<u64, M>::empty().insert(0, mutations),
    {
        broadcast use vstd::std_specs::hash::group_hash_axioms;

        let mut map: HashMap<u64, M> = HashMap::new();
        map.insert(0, mutations);
        PrecomputedScriptHost { mutations: map }
    }

    /// Stores the mutations of a driver, replacing earlier ones.
    pub fn insert(&mut self, id: ScriptDriverId, mutations: M)
        ensures
            final(self).mutations@ == old(self).mutations@.insert(id.0, mutations),
    {
        broadcast use vstd::std_specs::hash::group_hash_axioms;

        self.mutations.insert(id.0, mutations);
    }

    /// The mutations a frame of `driver` applies: the driver's own when the
    /// host holds them, else every stored set (in the map's order, which is
    /// not fixed), else none.
    pub fn mutations_for_frame(&self, driver: ScriptDriverId) -> (r: Vec<&M>)
        ensures
            self.mutations@.contains_key(driver.0) ==> r@.len() == 1 && *r@[0]
                == self.mutations@[driver.0],
            !self.mutations@.contains_key(driver.0) ==> exists|ks: Seq<u64>|
                {
                    &&& ks.no_duplicates()
                    &&& ks.len() == r@.len()
                    &&& ks.to_set() == self.mutations@.dom()
                    &&& forall|i: int|
                        0 <= i < ks.len() ==> #[trigger] self.mutations@.contains_key(ks[i])
                            && *r@[i] == self.mutations@[ks[i]]
                },
    {
        broadcast use vstd::std_specs::hash::group_hash_axioms;

        let mut out: Vec<&M> = Vec::new();
        match self.mutations.get(&driver.0) {
            Some(m) => {
                out.push(m);
                return out;
            },
            None => {},
        }
        let ghost mut ks: Seq<u64> = Seq::empty();
        let iter = self.mutations.iter();
        let ghost rem = vstd::std_specs::iter::IteratorSpec::remaining(&iter);
        proof {
            assert(rem.len() == self.mutations@.dom().len());
        }
        for (k, v) in it: iter
            invariant
                it.seq() == rem,
                out@.len() == it.index(),
                ks.len() == it.index(),
                forall|i: int| 0 <= i < it.index() ==> ks[i] == *rem[i].0,
                forall|i: int| 0 <= i < it.index() ==> *out@[i] == *rem[i].1,
        {
            proof {
                ks = ks.push(*k);
            }
            out.push(v);
        }
        proof {
            let m = self.mutations@;
            assert(ks.len() == rem.len());
            assert forall|i: int, j: int| 0 <= i < ks.len() && 0 <= j < ks.len() && i != j implies ks[i]
                != ks[j] by {
                assert(m.contains_key(*rem[i].0) && m[*rem[i].0] == *rem[i].1);
                assert(m.contains_key(*rem[j].0) && m[*rem[j].0] == *rem[j].1);
                if ks[i] == ks[j] {
                    assert(rem[i] == rem[j]);
                }
            }
            assert forall|k: u64| m.dom().contains(k) implies #[trigger] ks.to_set().contains(k) by {
                assert(m.contains_key(k));
                assert(rem.contains((&k, &m[k])));
                let i = choose|i: int| 0 <= i < rem.len() && rem[i] == (&k, &m[k]);
                assert(ks[i] == k);
                assert(ks.contains(k));
            }
            assert forall|k: u64| #[trigger] ks.to_set().contains(k) implies m.dom().contains(k) by {
                assert(ks.contains(k));
                let i = choose|i: int| 0 <= i < ks.len() && ks[i] == k;
                assert(m.contains_key(*rem[i].0));
            }
            assert(ks.to_set() =~= m.dom());
            assert forall|i: int| 0 <= i < ks.len() implies #[trigger] m.contains_key(ks[i])
                && *out@[i] == m[ks[i]] by {
                assert(m.contains_key(*rem[i].0) && m[*rem[i].0] == *rem[i].1);
            }
        }
        out
    }

    /// Installs a script: it always succeeds, and its id is what
    /// `driver_id_from_source` gives for its source (the hash value itself
    /// is not stated).
    pub fn install(&mut self, source: &str) -> (r: Result<ScriptDriverId, ScriptError>)
        ensures
            r matches Ok(d) && hashes_source(source@, d),
            final(self).mutations@ == old(self).mutations@,
    {
        Ok(hash_source(source))
    }
}

impl<M> Default for PrecomputedScriptHost<M> {
    fn default() -> (r: Self)
        ensures
            r.mutations@ == Map::<u64, M>::empty(),
    {
        PrecomputedScriptHost::new()
    }
}

impl Default for ScriptTargetRegistry {
    fn default() -> (r: Self)
        ensures
            r.visual_ids@.dom().is_empty(),
            r.canvas_ids@.dom().is_empty(),
            r.non_visual_ids@.dom().is_empty(),
    {
        ScriptTargetRegistry::new()
    }
}

impl Default for ScriptDriver {
    /// A driver with no source and no external references.
    fn default() -> (r: Self)
        ensures
            r.source@ == Seq::<char>::empty(),
            r.external is None,
            r.externals@.len() == 0,
            r.inline_fragments@.len() == 0,
    {
        ScriptDriver {
            source: String::new(),
            external: None,
            externals: Vec::new(),
            inline_fragments: Vec::new(),
        }
    }
}

} // verus!
