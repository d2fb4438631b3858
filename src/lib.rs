//! Merges proxy-subscription feeds: decodes node URIs, renames and
//! deduplicates their display names, and re-encodes the merged list.

pub mod encoding;
pub mod feed;
pub mod fetch;
pub mod json;
pub mod merge;
pub mod node;
pub mod pairs;
pub mod rename;
pub mod settings;
pub mod text;
