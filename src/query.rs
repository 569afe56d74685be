//! Name and attribute queries over a snapshot of the catalogue.
use vstd::prelude::*;

use crate::record::{result_of, FileMetadata, SearchResult};
use crate::text::{
    chars_of, contains_chars, eq_ascii_case, eq_ignore_ascii_case, lower_of, lowercase, occurs_at,
    opt_view, seq_contains,
};

verus! {

/// No query returns more results than this.
pub const MAX_RESULTS: usize = 500;

/// Optional filters of an advanced query.
#[derive(Debug, Clone)]
pub struct AdvancedFilterOptions {
    /// Wanted extension, compared without regard to ASCII case; empty means any.
    pub file_type: Option<String>,
    /// Smallest size accepted, inclusive.
    pub min_size: Option<u64>,
    /// Largest size accepted, inclusive.
    pub max_size: Option<u64>,
}

/// Options of a query as the front end sends them.
#[derive(Debug, Clone)]
pub struct AdvancedSearchOptions {
    pub query: String,
    pub use_regex: bool,
    pub pattern: Option<String>,
}

impl AdvancedFilterOptions {
    pub fn new(file_type: Option<String>, min_size: Option<u64>, max_size: Option<u64>) -> (r: Self)
        ensures
            r == (AdvancedFilterOptions { file_type, min_size, max_size }),
    {
        AdvancedFilterOptions { file_type, min_size, max_size }
    }
}

/// A name for the extension that `Path::extension` finds in a path.
pub uninterp spec fn extension_of(path: Seq<char>) -> Option<Seq<char>>;

/// Relies on `std::path::Path::extension`: the extension of the path's final
/// component, if it has one. A path built from a `str` always has a `str`
/// extension.
#[verifier::external_body]
pub(crate) fn path_extension(path: &str) -> (r: Option<String>)
    ensures
        opt_view(r) == extension_of(path@),
{
    match std::path::Path::new(path).extension() {
        Some(os) => match os.to_str() {
            Some(e) => Some(e.to_string()),
            None => None,
        },
        None => None,
    }
}

/// The lower-cased query occurs in the lower-cased name or path.
pub open spec fn basic_match(q_lower: Seq<char>, f: FileMetadata) -> bool {
    seq_contains(lower_of(f.name@), q_lower) || seq_contains(lower_of(f.path@), q_lower)
}

/// An extension (or its absence) agrees with the extension filter.
pub open spec fn extension_accepted(file_type: Option<String>, extension: Option<Seq<char>>) -> bool {
    match file_type {
        None => true,
        Some(e) => e@.len() == 0 || match extension {
            Some(x) => eq_ascii_case(x, e@),
            None => false,
        },
    }
}

/// The record's extension agrees with the extension filter.
pub open spec fn extension_passes(file_type: Option<String>, path: Seq<char>) -> bool {
    extension_accepted(file_type, extension_of(path))
}

/// The record's size lies within the size bounds.
pub open spec fn size_passes(filters: AdvancedFilterOptions, size: u64) -> bool {
    (filters.min_size is None || filters.min_size->0 <= size) && (filters.max_size is None || size
        <= filters.max_size->0)
}

/// The record answers an advanced query.
pub open spec fn advanced_match(q_lower: Seq<char>, filters: AdvancedFilterOptions, f: FileMetadata) -> bool {
    (q_lower.len() == 0 || basic_match(q_lower, f)) && extension_passes(filters.file_type, f.path@)
        && size_passes(filters, f.size)
}

/// `basic_match` as a predicate on records.
pub open spec fn basic_pred(q_lower: Seq<char>) -> spec_fn(FileMetadata) -> bool {
    |f: FileMetadata| basic_match(q_lower, f)
}

/// `advanced_match` as a predicate on records.
pub open spec fn advanced_pred(q_lower: Seq<char>, filters: AdvancedFilterOptions) -> spec_fn(
    FileMetadata,
) -> bool {
    |f: FileMetadata| advanced_match(q_lower, filters, f)
}

/// The records of `s` that satisfy `p`, in the order of `s`.
pub open spec fn matching(s: Seq<FileMetadata>, p: spec_fn(FileMetadata) -> bool) -> Seq<FileMetadata>
    decreases s.len(),
{
    if s.len() == 0 {
        Seq::empty()
    } else {
        let m = matching(s.drop_last(), p);
        if p(s.last()) {
            m.push(s.last())
        } else {
            m
        }
    }
}

/// The first `MAX_RESULTS` elements of `s`, or all of them if there are fewer.
pub open spec fn capped(s: Seq<FileMetadata>) -> Seq<FileMetadata> {
    if s.len() <= MAX_RESULTS {
        s
    } else {
        s.take(MAX_RESULTS as int)
    }
}

/// What a query returns: the first matching records, as results.
pub open spec fn first_matches(s: Seq<FileMetadata>, p: spec_fn(FileMetadata) -> bool) -> Seq<SearchResult> {
    capped(matching(s, p)).map_values(|f: FileMetadata| result_of(f))
}

/// Every record selected by `matching` satisfies the predicate and comes from `s`.
pub proof fn lemma_matching_sound(s: Seq<FileMetadata>, p: spec_fn(FileMetadata) -> bool)
    ensures
        matching(s, p).len() <= s.len(),
        forall|j: int|
            0 <= j < matching(s, p).len() ==> p(#[trigger] matching(s, p)[j]) && s.contains(
                matching(s, p)[j],
            ),
    decreases s.len(),
{
    if s.len() > 0 {
        lemma_matching_sound(s.drop_last(), p);
        let m = matching(s.drop_last(), p);
        assert forall|j: int| 0 <= j < m.len() implies s.contains(#[trigger] m[j]) by {
            let k = choose|k: int| 0 <= k < s.drop_last().len() && s.drop_last()[k] == m[j];
            assert(s[k] == m[j]);
        }
        assert(s[s.len() - 1] == s.last());
    }
}

/// A predicate that holds of every record selects all of them.
pub proof fn lemma_matching_all(s: Seq<FileMetadata>, p: spec_fn(FileMetadata) -> bool)
    requires
        forall|f: FileMetadata| #[trigger] p(f),
    ensures
        matching(s, p) == s,
    decreases s.len(),
{
    if s.len() > 0 {
        lemma_matching_all(s.drop_last(), p);
        assert(s.drop_last().push(s.last()) =~= s);
    }
}

/// What `matching` selects from a prefix is a prefix of what it selects from the whole.
pub proof fn lemma_matching_prefix(s: Seq<FileMetadata>, p: spec_fn(FileMetadata) -> bool, i: int)
    requires
        0 <= i <= s.len(),
    ensures
        matching(s.take(i), p).len() <= matching(s, p).len(),
        matching(s, p).take(matching(s.take(i), p).len() as int) == matching(s.take(i), p),
    decreases s.len(),
{
    if i == s.len() {
        assert(s.take(i) =~= s);
        assert(matching(s, p).take(matching(s, p).len() as int) =~= matching(s, p));
    } else {
        assert(s.drop_last().take(i) =~= s.take(i));
        lemma_matching_prefix(s.drop_last(), p, i);
        let a = matching(s.take(i), p);
        let m = matching(s.drop_last(), p);
        if p(s.last()) {
            assert(m.push(s.last()).take(a.len() as int) =~= m.take(a.len() as int));
        }
    }
}

/// One more record of the input adds it to the selection when it qualifies.
proof fn lemma_matching_step(s: Seq<FileMetadata>, p: spec_fn(FileMetadata) -> bool, i: int)
    requires
        0 <= i < s.len(),
    ensures
        matching(s.take(i + 1), p) == if p(s[i]) {
            matching(s.take(i), p).push(s[i])
        } else {
            matching(s.take(i), p)
        },
{
    assert(s.take(i + 1).drop_last() =~= s.take(i));
    assert(s.take(i + 1).last() == s[i]);
}

/// Once the selection from a prefix is full, it is what a query returns.
proof fn lemma_capped_at_exit(s: Seq<FileMetadata>, p: spec_fn(FileMetadata) -> bool, i: int)
    requires
        0 <= i <= s.len(),
        i == s.len() || matching(s.take(i), p).len() == MAX_RESULTS,
        matching(s.take(i), p).len() <= MAX_RESULTS,
    ensures
        capped(matching(s, p)) == matching(s.take(i), p),
{
    lemma_matching_prefix(s, p, i);
    if i == s.len() {
        assert(s.take(i) =~= s);
    }
}

/// The empty needle occurs in every text.
pub proof fn lemma_empty_needle(hay: Seq<char>)
    ensures
        seq_contains(hay, Seq::empty()),
{
    assert(hay.subrange(0, 0) =~= Seq::<char>::empty());
    assert(occurs_at(hay, Seq::empty(), 0));
}

/// A basic query whose lower-cased text is empty selects every record, so it
/// returns the first `MAX_RESULTS` records of the catalogue, and at least one
/// when the catalogue is not empty.
pub proof fn lemma_empty_basic_query(files: Seq<FileMetadata>, q_lower: Seq<char>)
    requires
        q_lower.len() == 0,
    ensures
        first_matches(files, basic_pred(q_lower)) == capped(files).map_values(
            |f: FileMetadata| result_of(f),
        ),
        files.len() > 0 ==> first_matches(files, basic_pred(q_lower)).len() > 0,
{
    assert(q_lower =~= Seq::<char>::empty());
    assert forall|f: FileMetadata| #[trigger] basic_pred(q_lower)(f) by {
        lemma_empty_needle(lower_of(f.name@));
    }
    lemma_matching_all(files, basic_pred(q_lower));
}

/// An advanced query with empty text and no filters selects every record:
/// the empty text is no condition.
pub proof fn lemma_empty_advanced_query(files: Seq<FileMetadata>, q_lower: Seq<char>, filters: AdvancedFilterOptions)
    requires
        q_lower.len() == 0,
        filters.file_type is None,
        filters.min_size is None,
        filters.max_size is None,
    ensures
        first_matches(files, advanced_pred(q_lower, filters)) == capped(files).map_values(
            |f: FileMetadata| result_of(f),
        ),
{
    assert forall|f: FileMetadata| #[trigger] advanced_pred(q_lower, filters)(f) by {}
    lemma_matching_all(files, advanced_pred(q_lower, filters));
}

/// Every result of a query comes from a record of the catalogue that satisfies it.
pub proof fn lemma_results_satisfy(files: Seq<FileMetadata>, p: spec_fn(FileMetadata) -> bool)
    ensures
        first_matches(files, p).len() <= MAX_RESULTS,
        forall|j: int|
            0 <= j < first_matches(files, p).len() ==> exists|k: int|
                0 <= k < files.len() && p(files[k]) && #[trigger] first_matches(files, p)[j]
                    == result_of(files[k]),
{
    lemma_matching_sound(files, p);
    let m = matching(files, p);
    assert forall|j: int| 0 <= j < first_matches(files, p).len() implies exists|k: int|
        0 <= k < files.len() && p(files[k]) && #[trigger] first_matches(files, p)[j] == result_of(
            files[k],
        ) by {
        assert(capped(m)[j] == m[j]);
        assert(p(m[j]));
        assert(files.contains(m[j]));
    }
}

/// With equal lower and upper size bounds, every result has exactly that size.
pub proof fn lemma_equal_size_bounds(files: Seq<FileMetadata>, q_lower: Seq<char>, filters: AdvancedFilterOptions, x: u64)
    requires
        filters.min_size == Some(x),
        filters.max_size == Some(x),
    ensures
        forall|j: int|
            0 <= j < first_matches(files, advanced_pred(q_lower, filters)).len() ==> (
            #[trigger] first_matches(files, advanced_pred(q_lower, filters))[j]).size == x,
{
    lemma_results_satisfy(files, advanced_pred(q_lower, filters));
}

/// With a non-empty extension filter, no result comes from a path without an extension.
pub proof fn lemma_extension_filter_needs_extension(files: Seq<FileMetadata>, q_lower: Seq<char>, filters: AdvancedFilterOptions)
    requires
        filters.file_type is Some,
        filters.file_type->0@.len() > 0,
    ensures
        forall|j: int|
            0 <= j < first_matches(files, advanced_pred(q_lower, filters)).len() ==> extension_of(
                (#[trigger] first_matches(files, advanced_pred(q_lower, filters))[j]).file_path@,
            ) is Some,
{
    lemma_results_satisfy(files, advanced_pred(q_lower, filters));
}

/// Whether an extension, as `Path::extension` finds it, passes the extension
/// filter: no filter or an empty one passes everything; otherwise the
/// extension must exist and equal the filter up to ASCII case.
pub fn extension_matches(file_type: &Option<String>, extension: &Option<String>) -> (r: bool)
    ensures
        r == extension_accepted(*file_type, opt_view(*extension)),
{
    match file_type {
        None => true,
        Some(e) => {
            if e.as_str().is_empty() {
                return true;
            }
            match extension {
                Some(x) => eq_ignore_ascii_case(x.as_str(), e.as_str()),
                None => false,
            }
        },
    }
}

fn basic_matches_record(q: &Vec<char>, f: &FileMetadata) -> (r: bool)
    ensures
        r == basic_match(q@, *f),
{
    let name_lower = lowercase(f.name.as_str());
    if contains_chars(&chars_of(name_lower.as_str()), q) {
        return true;
    }
    let path_lower = lowercase(f.path.as_str());
    contains_chars(&chars_of(path_lower.as_str()), q)
}

fn advanced_matches_record(q: &Vec<char>, filters: &AdvancedFilterOptions, f: &FileMetadata) -> (r: bool)
    ensures
        r == advanced_match(q@, *filters, *f),
{
    if q.len() > 0 && !basic_matches_record(q, f) {
        return false;
    }
    if !extension_matches(&filters.file_type, &path_extension(f.path.as_str())) {
        return false;
    }
    if let Some(min) = filters.min_size {
        if f.size < min {
            return false;
        }
    }
    if let Some(max) = filters.max_size {
        if f.size > max {
            return false;
        }
    }
    true
}

/// Records whose name or path contains `query`, compared after lower-casing,
/// in catalogue order, at most `MAX_RESULTS` of them.
pub fn basic_search(files: &Vec<FileMetadata>, query: &str) -> (r: Vec<SearchResult>)
    ensures
        r@ == first_matches(files@, basic_pred(lower_of(query@))),
        r@.len() <= MAX_RESULTS,
        query@.len() == 0 ==> r@ == capped(files@).map_values(|f: FileMetadata| result_of(f)),
{
    let query_lower = lowercase(query);
    let q = chars_of(query_lower.as_str());
    let ghost p = basic_pred(q@);
    let mut out: Vec<SearchResult> = Vec::new();
    let mut i: usize = 0;
    while i < files.len() && out.len() < MAX_RESULTS
        invariant
            i <= files@.len(),
            q@ == lower_of(query@),
            p == basic_pred(q@),
            out@ == matching(files@.take(i as int), p).map_values(|f: FileMetadata| result_of(f)),
            out@.len() <= MAX_RESULTS,
        decreases files@.len() - i,
    {
        proof {
            lemma_matching_step(files@, p, i as int);
        }
        if basic_matches_record(&q, &files[i]) {
            let res = files[i].to_result();
            proof {
                let m = matching(files@.take(i as int), p);
                assert(m.push(files@[i as int]).map_values(|f: FileMetadata| result_of(f)) =~= out@.push(res));
            }
            out.push(res);
        }
        i += 1;
    }
    proof {
        lemma_capped_at_exit(files@, p, i as int);
        lemma_matching_sound(files@, p);
        if query@.len() == 0 {
            lemma_empty_basic_query(files@, q@);
        }
    }
    out
}

/// Records that pass the query text (no condition when it is empty) and every
/// filter given, in catalogue order, at most `MAX_RESULTS` of them.
pub fn advanced_search(files: &Vec<FileMetadata>, query: &str, filters: &AdvancedFilterOptions) -> (r: Vec<SearchResult>)
    ensures
        r@ == first_matches(files@, advanced_pred(lower_of(query@), *filters)),
        r@.len() <= MAX_RESULTS,
        query@.len() == 0 && filters.file_type is None && filters.min_size is None
            && filters.max_size is None ==> r@ == capped(files@).map_values(|f: FileMetadata| result_of(f)),
{
    let query_lower = lowercase(query);
    let q = chars_of(query_lower.as_str());
    let ghost p = advanced_pred(q@, *filters);
    let mut out: Vec<SearchResult> = Vec::new();
    let mut i: usize = 0;
    while i < files.len() && out.len() < MAX_RESULTS
        invariant
            i <= files@.len(),
            q@ == lower_of(query@),
            p == advanced_pred(q@, *filters),
            out@ == matching(files@.take(i as int), p).map_values(|f: FileMetadata| result_of(f)),
            out@.len() <= MAX_RESULTS,
        decreases files@.len() - i,
    {
        proof {
            lemma_matching_step(files@, p, i as int);
        }
        if advanced_matches_record(&q, filters, &files[i]) {
            let res = files[i].to_result();
            proof {
                let m = matching(files@.take(i as int), p);
                assert(m.push(files@[i as int]).map_values(|f: FileMetadata| result_of(f)) =~= out@.push(res));
            }
            out.push(res);
        }
        i += 1;
    }
    proof {
        lemma_capped_at_exit(files@, p, i as int);
        lemma_matching_sound(files@, p);
        if query@.len() == 0 && filters.file_type is None && filters.min_size is None
            && filters.max_size is None {
            lemma_empty_advanced_query(files@, q@, *filters);
        }
    }
    out
}

} // verus!
