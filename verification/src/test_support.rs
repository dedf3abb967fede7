//! In-memory stand-ins used by tests of the pipeline: an asset catalog with
//! dimensions, video facts and aliases, and a script host that hands out
//! sequential driver ids.

use vstd::prelude::*;
use crate::chars::{chars_of, owned, push_all, string_of};
use crate::keyed::KeyedMap;
use crate::script::{AssetId, ScriptDriverId, ScriptError};
use crate::time::DurationMicros;

verus! {

/// Facts the catalog records about a video asset.
#[derive(Clone, Copy, Debug, PartialEq, Eq, Structural)]
pub struct VideoInfoMeta {
    pub width: u32,
    pub height: u32,
    pub duration_micros: Option<DurationMicros>,
}

/// Error of a catalog operation.
#[derive(Debug)]
pub struct CatalogError {
    pub message: String,
}

/// std's `Debug` rendering of a string: quoted, with escapes.
pub uninterp spec fn str_debug(s: Seq<char>) -> Seq<char>;

/// `format!("{:?}", s)`: depends on the characters of `s` alone.
#[verifier::external_body]
fn debug_text(s: &str) -> (r: String)
    ensures
        r@ == str_debug(s@),
{
    format!("{:?}", s)
}

/// Asset catalog for tests: dimensions and video facts by asset id, and
/// aliases from one id to another.
#[derive(Debug)]
pub struct TestCatalog {
    dims: KeyedMap<(u32, u32)>,
    video_info: KeyedMap<VideoInfoMeta>,
    aliases: KeyedMap<AssetId>,
}

impl TestCatalog {
    /// Dimensions by asset id text.
    pub closed spec fn dims_view(&self) -> Map<Seq<char>, (u32, u32)> {
        self.dims@
    }

    /// Recorded video facts by asset id text.
    pub closed spec fn video_info_view(&self) -> Map<Seq<char>, VideoInfoMeta> {
        self.video_info@
    }

    /// Alias targets by alias id text.
    pub closed spec fn aliases_view(&self) -> Map<Seq<char>, AssetId> {
        self.aliases@
    }

    /// Every alias has dimensions (those of its target when it was made).
    #[verifier::type_invariant]
    closed spec fn aliases_have_dims(self) -> bool {
        forall|k: Seq<char>| #[trigger] self.aliases@.contains_key(k) ==> self.dims@.contains_key(k)
    }

    /// Records dimensions under `key`.
    fn put_dims(&mut self, key: String, dims: (u32, u32))
        ensures
            final(self).dims_view() == old(self).dims_view().insert(key@, dims),
            final(self).video_info_view() == old(self).video_info_view(),
            final(self).aliases_view() == old(self).aliases_view(),
    {
        proof {
            use_type_invariant(&*self);
        }
        let mut aliases: KeyedMap<AssetId> = KeyedMap::new();
        std::mem::swap(&mut aliases, &mut self.aliases);
        let mut all: KeyedMap<(u32, u32)> = KeyedMap::new();
        std::mem::swap(&mut all, &mut self.dims);
        all.insert(key, dims);
        std::mem::swap(&mut all, &mut self.dims);
        std::mem::swap(&mut aliases, &mut self.aliases);
    }

    /// Records video facts under `key`.
    fn put_video_info(&mut self, key: String, info: VideoInfoMeta)
        ensures
            final(self).dims_view() == old(self).dims_view(),
            final(self).video_info_view() == old(self).video_info_view().insert(key@, info),
            final(self).aliases_view() == old(self).aliases_view(),
    {
        proof {
            use_type_invariant(&*self);
        }
        let mut all: KeyedMap<VideoInfoMeta> = KeyedMap::new();
        std::mem::swap(&mut all, &mut self.video_info);
        all.insert(key, info);
        std::mem::swap(&mut all, &mut self.video_info);
    }

    /// Records `target` as the target of the alias `key`, which has
    /// dimensions.
    fn put_alias(&mut self, key: String, target: AssetId)
        requires
            old(self).dims_view().contains_key(key@),
        ensures
            final(self).dims_view() == old(self).dims_view(),
            final(self).video_info_view() == old(self).video_info_view(),
            final(self).aliases_view() == old(self).aliases_view().insert(key@, target),
    {
        proof {
            use_type_invariant(&*self);
        }
        let mut all: KeyedMap<AssetId> = KeyedMap::new();
        std::mem::swap(&mut all, &mut self.aliases);
        all.insert(key, target);
        std::mem::swap(&mut all, &mut self.aliases);
    }
}

/// Alias targets as texts.
pub open spec fn alias_texts(m: Map<Seq<char>, AssetId>) -> Map<Seq<char>, Seq<char>> {
    m.map_values(|a: AssetId| a.0@)
}

/// Text of the error an alias to an undeclared target gives.
pub open spec fn unknown_alias_target_text(target: Seq<char>) -> Seq<char> {
    "alias target AssetId("@ + str_debug(target) + ") is not a declared asset"@
}

impl TestCatalog {
    /// An empty catalog.
    pub fn new() -> (r: Self)
        ensures
            r.dims_view() == Map::<Seq<char>, (u32, u32)>::empty(),
            r.video_info_view() == Map::<Seq<char>, VideoInfoMeta>::empty(),
            r.aliases_view() == Map::<Seq<char>, AssetId>::empty(),
    {
        TestCatalog { dims: KeyedMap::new(), video_info: KeyedMap::new(), aliases: KeyedMap::new() }
    }

    /// Records the dimensions of an asset and hands its id back.
    pub fn register_dimensions(&mut self, id: AssetId, width: u32, height: u32) -> (r: AssetId)
        ensures
            r == id,
            final(self).dims_view() == old(self).dims_view().insert(id.0@, (width, height)),
            final(self).video_info_view() == old(self).video_info_view(),
            final(self).aliases_view() == old(self).aliases_view(),
    {
        self.put_dims(owned(id.0.as_str()), (width, height));
        id
    }

    /// Records the facts of a video asset (and its dimensions) and hands its
    /// id back.
    pub fn register_video_info(&mut self, id: AssetId, info: VideoInfoMeta) -> (r: AssetId)
        ensures
            r == id,
            final(self).dims_view() == old(self).dims_view().insert(id.0@, (info.width, info.height)),
            final(self).video_info_view() == old(self).video_info_view().insert(id.0@, info),
            final(self).aliases_view() == old(self).aliases_view(),
    {
        self.put_dims(owned(id.0.as_str()), (info.width, info.height));
        self.put_video_info(owned(id.0.as_str()), info);
        id
    }

    /// Dimensions of an asset; `(0, 0)` for an unknown one.
    pub fn dimensions(&self, id: &AssetId) -> (r: (u32, u32))
        ensures
            r == (if self.dims_view().contains_key(id.0@) {
                self.dims_view()[id.0@]
            } else {
                (0u32, 0u32)
            }),
    {
        match self.dims.get(id.0.as_str()) {
            Some(d) => *d,
            None => (0, 0),
        }
    }

    /// Declares `alias` as another name of `target`, which must have
    /// dimensions: the alias gets the target's dimensions.
    pub fn alias(&mut self, alias: AssetId, target: &AssetId) -> (r: Result<(), CatalogError>)
        ensures
            match r {
                Ok(()) => {
                    &&& old(self).dims_view().contains_key(target.0@)
                    &&& final(self).dims_view() == old(self).dims_view().insert(
                        alias.0@,
                        old(self).dims_view()[target.0@],
                    )
                    &&& alias_texts(final(self).aliases_view()) == alias_texts(old(self).aliases_view()).insert(
                        alias.0@,
                        target.0@,
                    )
                    &&& final(self).video_info_view() == old(self).video_info_view()
                },
                Err(e) => {
                    &&& !old(self).dims_view().contains_key(target.0@)
                    &&& e.message@ == unknown_alias_target_text(target.0@)
                    &&& final(self).dims_view() == old(self).dims_view()
                    &&& final(self).aliases_view() == old(self).aliases_view()
                    &&& final(self).video_info_view() == old(self).video_info_view()
                },
            },
    {
        let dims = match self.dims.get(target.0.as_str()) {
            Some(d) => *d,
            None => {
                let mut out: Vec<char> = Vec::new();
                push_all(&mut out, &chars_of("alias target AssetId("));
                push_all(&mut out, &chars_of(debug_text(target.0.as_str()).as_str()));
                push_all(&mut out, &chars_of(") is not a declared asset"));
                return Err(CatalogError { message: string_of(&out) });
            },
        };
        self.put_dims(owned(alias.0.as_str()), dims);
        let key = owned(alias.0.as_str());
        let ghost before = self.aliases_view();
        self.put_alias(key, AssetId(owned(target.0.as_str())));
        assert(alias_texts(self.aliases_view()) =~= alias_texts(before).insert(alias.0@, target.0@));
        Ok(())
    }

    /// Whether the catalog knows the asset, by dimensions or as an alias.
    /// Every alias has dimensions, so this is whether it has dimensions.
    pub fn is_known_asset(&self, id: &AssetId) -> (r: bool)
        ensures
            r == (self.dims_view().contains_key(id.0@) || self.aliases_view().contains_key(id.0@)),
            r == self.dims_view().contains_key(id.0@),
    {
        proof {
            use_type_invariant(self);
        }
        self.dims.contains_key(id.0.as_str()) || self.aliases.contains_key(id.0.as_str())
    }

    /// The target of an alias.
    pub fn resolve_alias(&self, alias: &AssetId) -> (r: Option<AssetId>)
        ensures
            match r {
                Some(t) => self.aliases_view().contains_key(alias.0@) && t.0@ == self.aliases_view()[alias.0@].0@,
                None => !self.aliases_view().contains_key(alias.0@),
            },
    {
        match self.aliases.get(alias.0.as_str()) {
            Some(t) => Some(AssetId(owned(t.0.as_str()))),
            None => None,
        }
    }

    /// Registers an audio asset under its locator: it becomes known with
    /// dimensions `(0, 0)` unless it already has dimensions.
    pub fn register_audio(&mut self, locator: &str) -> (r: AssetId)
        ensures
            r.0@ == locator@,
            final(self).dims_view() == (if old(self).dims_view().contains_key(locator@) {
                old(self).dims_view()
            } else {
                old(self).dims_view().insert(locator@, (0u32, 0u32))
            }),
            final(self).video_info_view() == old(self).video_info_view(),
            final(self).aliases_view() == old(self).aliases_view(),
    {
        if !self.dims.contains_key(locator) {
            self.put_dims(owned(locator), (0, 0));
        }
        AssetId(owned(locator))
    }

    /// The recorded facts of a video asset.
    pub fn video_info(&self, id: &AssetId) -> (r: Option<VideoInfoMeta>)
        ensures
            r == (if self.video_info_view().contains_key(id.0@) {
                Some(self.video_info_view()[id.0@])
            } else {
                None
            }),
    {
        match self.video_info.get(id.0.as_str()) {
            Some(v) => Some(*v),
            None => None,
        }
    }
}

/// Script host for tests: each distinct source gets the next id, starting
/// at one; installing a source again gives its earlier id.
#[derive(Debug)]
pub struct MockScriptHost {
    pub next_id: u64,
    pub map: KeyedMap<u64>,
}

/// Installing `source`: the updated source-to-id map, the updated last id,
/// and the id given out.
pub open spec fn install_spec(map: Map<Seq<char>, u64>, next_id: u64, source: Seq<char>) -> (
    Map<Seq<char>, u64>,
    u64,
    u64,
) {
    if map.contains_key(source) {
        (map, next_id, map[source])
    } else {
        (map.insert(source, (next_id + 1) as u64), (next_id + 1) as u64, (next_id + 1) as u64)
    }
}

/// Whether installing `source` can give out an id: it is known, or ids are
/// left.
pub open spec fn install_accepts(map: Map<Seq<char>, u64>, next_id: u64, source: Seq<char>) -> bool {
    map.contains_key(source) || next_id < u64::MAX
}

/// Installing the same source twice gives the same id and leaves the host
/// as the first install left it.
pub proof fn lemma_install_is_stable(map: Map<Seq<char>, u64>, next_id: u64, source: Seq<char>)
    requires
        install_accepts(map, next_id, source),
    ensures
        ({
            let (m1, n1, id1) = install_spec(map, next_id, source);
            let (m2, n2, id2) = install_spec(m1, n1, source);
            id2 == id1 && m2 == m1 && n2 == n1
        }),
{
}

impl MockScriptHost {
    /// A host that has given out no ids.
    pub fn new() -> (r: Self)
        ensures
            r.next_id == 0,
            r.map@ == Map::<Seq<char>, u64>::empty(),
    {
        MockScriptHost { next_id: 0, map: KeyedMap::new() }
    }

    /// Installs a script and returns its driver id.
    pub fn install(&mut self, source: &str) -> (r: Result<ScriptDriverId, ScriptError>)
        requires
            install_accepts(old(self).map@, old(self).next_id, source@),
        ensures
            ({
                let (m, n, id) = install_spec(old(self).map@, old(self).next_id, source@);
                &&& r matches Ok(d) && d.0 == id
                &&& final(self).map@ == m
                &&& final(self).next_id == n
            }),
    {
        match self.map.get(source) {
            Some(id) => Ok(ScriptDriverId(*id)),
            None => {
                self.next_id = self.next_id + 1;
                self.map.insert(owned(source), self.next_id);
                Ok(ScriptDriverId(self.next_id))
            },
        }
    }
}

impl Default for TestCatalog {
    fn default() -> (r: Self)
        ensures
            r.dims_view() == Map::<Seq<char>, (u32, u32)>::empty(),
            r.video_info_view() == Map::<Seq<char>, VideoInfoMeta>::empty(),
            r.aliases_view() == Map::<Seq<char>, AssetId>::empty(),
    {
        TestCatalog::new()
    }
}

impl Default for MockScriptHost {
    fn default() -> (r: Self)
        ensures
            r.next_id == 0,
            r.map@ == Map::<Seq<char>, u64>::empty(),
    {
        MockScriptHost::new()
    }
}

} // verus!
