# opencat

The verified core of a declarative video composition engine, written in
Verus. `src/` holds the deterministic logic of the engine with contracts
proved by Verus; `app/` holds the host-side glue that Verus does not check
(JSON decoding, floating-point policies, `std::error::Error` types).

Modules of the library:

- `time`: frame indices, rational frame rates, microsecond timestamps and
  half-open ranges, with exact round-half-up conversions.
- `fingerprint`: per-element input fingerprints of a resolved element tree
  (structure, layout, paint and apply dimensions, local and subtree).
- `audio_plan`: the audio schedule of a composition.
- `media`: keyframe seek plans, scale-target bucketing and preview settings.
- `text`, `text_units`: case transforms, CJK detection and grapheme or word
  segmentation with byte ranges.
- `glsl`, `transition`: rewriting GLTransition GLSL sources into SkSL.
- `script`, `realm`, `dispatch`: script drivers, their ids and installation,
  style keyword decoding, and the JS shim of the binding table.
- `style`: style keyword enums and CSS filter names.
- `consumer`, `errors`: frame media validation and error texts.
- `probe`, `oracle`: image probing, Lottie dependencies, and helpers of the
  browser frame oracle.
- `chars`, `keyed`: character-sequence primitives and a text-keyed map.
- `test_support`: in-memory catalog and script host for tests.
