//! The record of an indexed file, with its extension kept apart.
use vstd::prelude::*;

verus! {

/// One indexed file.
#[derive(Debug, Clone)]
pub struct FileMetadata {
    pub path: String,
    pub name: String,
    pub extension: Option<String>,
    pub size: u64,
    /// Last modification, in seconds since the Unix epoch.
    pub modified_time: i64,
}

} // verus!
