//! Compiled patterns of the `regex` crate, for the optional pattern mode of
//! highlighting and content search.
use vstd::prelude::*;
use vstd::string::StringExecFns;

use regex::Regex;

verus! {

#[verifier::external_type_specification]
#[verifier::external_body]
pub struct ExRegex(regex::Regex);

/// `text` wrapped in the highlight marker.
pub open spec fn marked(text: Seq<char>) -> Seq<char> {
    "<mark>"@ + text + "</mark>"@
}

/// `text` wrapped in the highlight marker.
pub fn mark(text: &str) -> (r: String)
    ensures
        r@ == marked(text@),
{
    let mut r = String::from_str("<mark>");
    r.append(text);
    r.append("</mark>");
    r
}

/// Relies on `regex::Regex::is_match`: whether the pattern matches somewhere
/// in `haystack`. Nothing is stated of the answer.
#[verifier::external_body]
pub(crate) fn pattern_is_match(re: &Regex, haystack: &str) -> (r: bool) {
    re.is_match(haystack)
}

/// Relies on `regex::Regex::replace_all`: each match of the pattern is put in
/// the highlight marker by `mark`. Nothing is stated of the result.
#[verifier::external_body]
pub(crate) fn pattern_mark_all(re: &Regex, content: &str) -> (r: String) {
    re.replace_all(content, |caps: &regex::Captures| mark(&caps[0])).to_string()
}

} // verus!
