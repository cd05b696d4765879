//! Document-analysis core of an editor-integration adapter.
//!
//! The adapter hands the bytes that an external source analyzer printed to
//! this library. The library parses them as JSON, checks them against the
//! analyzer's schema, and re-encodes the contents into the forms an editor
//! protocol asks for: flat diagnostics with related information,
//! delta-encoded semantic tokens and inlay hints. It also keeps the latest
//! token and hint sets of every document, and decides which finished
//! analysis may replace them.

pub mod analysis;
pub mod cache;
pub mod decode;
pub mod diagnostics;
pub mod error;
pub mod hints;
pub mod invoker;
pub mod json;
pub mod orchestrator;
pub mod position;
pub mod report;
pub mod text;
pub mod tokens;
