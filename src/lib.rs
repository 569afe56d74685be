//! A file catalogue: breadth-first tree walking with a skip policy, a shared
//! catalogue rebuilt on every scan, and substring/attribute queries over it.
pub mod indexer;
pub mod pattern;
pub mod preview;
pub mod query;
pub mod record;
pub mod scan;
pub mod searcher;
pub mod text;
pub mod walker;
