//! Text previews of files and highlighting of a query in text.
use vstd::prelude::*;
use vstd::string::{StrSliceExecFns, StringExecFns};
use vstd::utf8::{decode_utf8, valid_utf8};

use regex::Regex;

use crate::pattern::{mark, marked, pattern_mark_all};
use crate::text::{chars_of, occurs_at, occurs_at_index};

verus! {

/// `s` with every occurrence of `q`, taken left to right without overlap,
/// replaced by `r`. An empty `q` occurs before each character and at the end.
pub open spec fn replaced_all(s: Seq<char>, q: Seq<char>, r: Seq<char>) -> Seq<char>
    decreases s.len(),
{
    if q.len() == 0 {
        if s.len() == 0 {
            r
        } else {
            r + seq![s[0]] + replaced_all(s.skip(1), q, r)
        }
    } else if s.len() == 0 {
        s
    } else if occurs_at(s, q, 0) {
        r + replaced_all(s.skip(q.len() as int), q, r)
    } else {
        seq![s[0]] + replaced_all(s.skip(1), q, r)
    }
}

/// Relies on `std::str::from_utf8`: it accepts exactly the valid UTF-8 byte
/// strings, and decodes them.
#[verifier::external_body]
fn utf8_text(bytes: &[u8]) -> (r: Option<String>)
    ensures
        r is Some <==> valid_utf8(bytes@),
        r is Some ==> r->0@ == decode_utf8(bytes@),
{
    match std::str::from_utf8(bytes) {
        Ok(s) => Some(s.to_string()),
        Err(_) => None,
    }
}

/// The text of a file's bytes, or the failure to decode them as UTF-8.
pub fn decode_preview(bytes: &[u8]) -> (r: Result<String, String>)
    ensures
        r is Ok <==> valid_utf8(bytes@),
        r is Ok ==> r->Ok_0@ == decode_utf8(bytes@),
        r is Err ==> r->Err_0@ == "Failed to read file content"@,
{
    match utf8_text(bytes) {
        Some(s) => Ok(s),
        None => Err(String::from_str("Failed to read file content")),
    }
}

/// Every occurrence of `query` in `content` wrapped in the highlight marker.
pub fn highlight_literal(content: &str, query: &str) -> (r: String)
    ensures
        r@ == replaced_all(content@, query@, marked(query@)),
{
    let cs = chars_of(content);
    let qs = chars_of(query);
    let m = mark(query);
    let ghost goal = replaced_all(cs@, qs@, m@);
    let mut out = String::new();
    let mut i: usize = 0;
    if qs.len() == 0 {
        assert(cs@.skip(0) =~= cs@);
        while i < cs.len()
            invariant
                cs@ == content@,
                qs@.len() == 0,
                i <= cs@.len(),
                out@ + replaced_all(cs@.skip(i as int), qs@, m@) == goal,
            decreases cs@.len() - i,
        {
            assert(cs@.skip(i as int).skip(1) =~= cs@.skip(i + 1));
            assert(cs@.skip(i as int)[0] == cs@[i as int]);
            let one = content.substring_char(i, i + 1);
            assert(one@ =~= seq![cs@[i as int]]);
            out.append(m.as_str());
            out.append(one);
            i += 1;
        }
        assert(cs@.skip(i as int).len() == 0);
        out.append(m.as_str());
        return out;
    }
    let mut start: usize = 0;
    assert(cs@.skip(0) =~= cs@);
    assert(cs@.subrange(0, 0) =~= Seq::<char>::empty());
    while i < cs.len()
        invariant
            cs@ == content@,
            qs@ == query@,
            qs@.len() > 0,
            start <= i <= cs@.len(),
            out@ + cs@.subrange(start as int, i as int) + replaced_all(cs@.skip(i as int), qs@, m@)
                == goal,
        decreases cs@.len() - i,
    {
        let ghost rest = cs@.skip(i as int);
        if occurs_at_index(&cs, &qs, i) {
            assert(rest.subrange(0, qs@.len() as int) =~= cs@.subrange(i as int, i + qs@.len()));
            assert(occurs_at(rest, qs@, 0));
            assert(rest.skip(qs@.len() as int) =~= cs@.skip(i + qs@.len()));
            let before = content.substring_char(start, i);
            out.append(before);
            out.append(m.as_str());
            i = i + qs.len();
            start = i;
            assert(cs@.subrange(start as int, i as int) =~= Seq::<char>::empty());
        } else {
            assert(!occurs_at(rest, qs@, 0)) by {
                if occurs_at(rest, qs@, 0) {
                    assert(rest.subrange(0, qs@.len() as int) =~= cs@.subrange(
                        i as int,
                        i + qs@.len(),
                    ));
                }
            }
            assert(rest.skip(1) =~= cs@.skip(i + 1));
            assert(rest[0] == cs@[i as int]);
            assert(cs@.subrange(start as int, i as int).push(cs@[i as int]) =~= cs@.subrange(
                start as int,
                i + 1,
            ));
            i += 1;
        }
    }
    assert(cs@.skip(i as int).len() == 0);
    let tail = content.substring_char(start, i);
    out.append(tail);
    out
}

/// Previews of files, and highlighting of a query in a preview.
pub struct FilePreview {
    pattern: Option<Regex>,
}

impl FilePreview {
    /// A previewer without a compiled pattern: it highlights the literal query.
    pub fn new() -> (r: FilePreview)
        ensures
            !r.has_pattern(),
    {
        FilePreview { pattern: None }
    }

    /// A compiled pattern replaces the literal query.
    pub closed spec fn has_pattern(&self) -> bool {
        self.pattern is Some
    }

    /// `content` with every case-sensitive occurrence of `query` wrapped in the
    /// highlight marker; with a compiled pattern, every match of the pattern.
    pub fn highlight_content(&self, content: &str, query: &str) -> (r: String)
        ensures
            !self.has_pattern() ==> r@ == replaced_all(content@, query@, marked(query@)),
    {
        match &self.pattern {
            Some(re) => pattern_mark_all(re, content),
            None => highlight_literal(content, query),
        }
    }
}

} // verus!
