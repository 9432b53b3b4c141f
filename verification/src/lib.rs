//! A static-site generator for HTML slide presentations.
//!
//! The crate turns a deck manifest, a tree of template sources and a locale's
//! translation document into a set of rendered, navigable HTML pages: one page
//! per slide, an optional overview page grouped by section, presenter pages
//! with speaker notes, and an optional print page.  The build pipeline —
//! manifest resolution, slide discovery with deterministic ordering and
//! extension aliasing, translation flattening, navigation computation and the
//! four render passes — is verified; template evaluation itself is delegated
//! to an embedded template engine behind narrow trusted interfaces.

pub mod deck;
pub mod engine;
pub mod error;
pub mod extensions;
pub mod filters;
pub mod functions;
pub mod laws;
pub mod layouts;
pub mod manifest;
pub mod markdown;
pub mod nav;
pub mod pdf;
pub mod project;
pub mod render;
pub mod slide;
pub mod strmap;
pub mod text;
pub mod translations;
pub mod watch;
pub mod yaml;

