//! Search for a query in the contents of files.
use vstd::prelude::*;
use vstd::utf8::{decode_utf8, valid_utf8};

use regex::Regex;

use crate::pattern::pattern_is_match;
use crate::preview::decode_preview;
use crate::text::{contains, seq_contains};

verus! {

/// Decides whether a file's contents hold a query.
pub struct ContentSearcher {
    pattern: Option<Regex>,
}

impl ContentSearcher {
    /// A searcher without a compiled pattern: it looks for the literal query.
    pub fn new() -> (r: ContentSearcher)
        ensures
            !r.has_pattern(),
    {
        ContentSearcher { pattern: None }
    }

    /// A compiled pattern replaces the literal query.
    pub closed spec fn has_pattern(&self) -> bool {
        self.pattern is Some
    }

    /// Whether `content` holds `query` (case-sensitive), or, with a compiled
    /// pattern, a match of the pattern.
    pub fn content_matches(&self, content: &str, query: &str) -> (r: bool)
        ensures
            !self.has_pattern() ==> r == seq_contains(content@, query@),
    {
        match &self.pattern {
            Some(re) => pattern_is_match(re, content),
            None => contains(content, query),
        }
    }

    /// Whether a file whose bytes are `bytes` is a hit: it must be valid UTF-8,
    /// and its text must hold the query.
    pub fn file_matches(&self, bytes: &[u8], query: &str) -> (r: bool)
        ensures
            !valid_utf8(bytes@) ==> !r,
            !self.has_pattern() ==> r == (valid_utf8(bytes@) && seq_contains(
                decode_utf8(bytes@),
                query@,
            )),
    {
        match decode_preview(bytes) {
            Ok(text) => self.content_matches(text.as_str(), query),
            Err(_) => false,
        }
    }
}

} // verus!
