//! The records held by the catalogue and the records that queries return.
use vstd::prelude::*;

verus! {

/// One regular file seen by a walker.
#[derive(Debug, Clone)]
pub struct FileMetadata {
    /// Full path of the file.
    pub path: String,
    /// Final component of `path`.
    pub name: String,
    /// Length in bytes when the file was seen.
    pub size: u64,
    /// Last modification, in seconds since the Unix epoch.
    pub modified_time: i64,
}

/// One query match. The last three fields belong to content search and stay
/// empty for name and attribute queries.
#[derive(Debug, Clone)]
pub struct SearchResult {
    pub file_path: String,
    pub name: String,
    pub size: u64,
    pub modified_time: i64,
    pub line_number: Option<i32>,
    pub content: Option<String>,
    pub matches: Option<Vec<String>>,
}

/// The result that carries a record's fields and no content-search data.
pub open spec fn result_of(m: FileMetadata) -> SearchResult {
    SearchResult {
        file_path: m.path,
        name: m.name,
        size: m.size,
        modified_time: m.modified_time,
        line_number: None,
        content: None,
        matches: None,
    }
}

impl FileMetadata {
    pub fn new(path: String, name: String, size: u64, modified_time: i64) -> (r: FileMetadata)
        ensures
            r == (FileMetadata { path, name, size, modified_time }),
    {
        FileMetadata { path, name, size, modified_time }
    }

    /// The query result for this record.
    pub fn to_result(&self) -> (r: SearchResult)
        ensures
            r == result_of(*self),
    {
        SearchResult {
            file_path: self.path.clone(),
            name: self.name.clone(),
            size: self.size,
            modified_time: self.modified_time,
            line_number: None,
            content: None,
            matches: None,
        }
    }
}

impl From<FileMetadata> for SearchResult {
    fn from(metadata: FileMetadata) -> (r: SearchResult) {
        SearchResult {
            file_path: metadata.path,
            name: metadata.name,
            size: metadata.size,
            modified_time: metadata.modified_time,
            line_number: None,
            content: None,
            matches: None,
        }
    }
}

impl vstd::std_specs::convert::FromSpecImpl<FileMetadata> for SearchResult {
    open spec fn obeys_from_spec() -> bool {
        true
    }

    open spec fn from_spec(metadata: FileMetadata) -> SearchResult {
        result_of(metadata)
    }
}

} // verus!
