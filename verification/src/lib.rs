//! Canonical formatting of package manifests.
//!
//! A manifest is written from its structured description, not from its
//! text: every setting stands at its fixed place, what can be inferred is
//! left out, and every value is spelled one way. The one thing taken from
//! the text are its comments, which `scan_comments` finds by the keys they
//! stand above and `render_manifest` writes above the same keys again.
//!
//! - `text`, `quote`, `array`, `version`: how values are spelled.
//! - `comments`, `extra`: what is read from the source text.
//! - `model`: the manifest and its parts.
//! - `package`, `metadata`, `target`, `dependency`, `sections`, `features`,
//!   `manifest`: the blocks of the canonical manifest, and the whole.
//! - `paths`: paths relative to the package's root.
//! - `reading`, `front`, `lines`, `roundtrip`: what holds of the scan and
//!   the rendering together.

pub mod array;
pub mod comments;
pub mod dependency;
pub mod extra;
pub mod features;
pub mod front;
pub mod lines;
pub mod manifest;
pub mod metadata;
pub mod model;
pub mod package;
pub mod paths;
pub mod quote;
pub mod reading;
pub mod roundtrip;
pub mod sections;
pub mod target;
pub mod text;
pub mod version;

pub use comments::{scan_comments, CommentMap};
pub use extra::{parse_manifest, ManifestExtra, ParseError};
pub use manifest::render_manifest;
