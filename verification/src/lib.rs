//! OpenCat: the verified core of a declarative video composition engine.
//!
//! The crate holds the deterministic parts of the engine: the typed media
//! time contract, script driver bookkeeping, style keyword tables, text unit
//! segmentation, GLSL transition source rewriting, render-cache fingerprints,
//! audio scheduling and media seek planning.

pub mod audio_plan;
pub mod chars;
pub mod consumer;
pub mod dispatch;
pub mod errors;
pub mod fingerprint;
pub mod glsl;
pub mod keyed;
pub mod media;
pub mod oracle;
pub mod probe;
pub mod realm;
pub mod script;
pub mod style;
pub mod text;
pub mod test_support;
pub mod text_units;
pub mod time;
pub mod transition;
