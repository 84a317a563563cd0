//! The field extractor: which field a text fragment belongs to, and the value
//! it holds for that field.

use crate::normalizer::{cut_annotation, without_annotation};
use crate::text::{
    contains, occurs_in, option_text, strip_prefixes, trim, trim_start_matches, trim_text,
};
use vstd::prelude::*;

verus! {

/// The value that `text` holds for the field marked by `label`: none unless
/// the label stands somewhere in the text; else the trimmed text without the
/// label in front of it, trimmed again.
pub open spec fn labelled_text(text: Seq<char>, label: Seq<char>) -> Option<Seq<char>> {
    if occurs_in(text, label) {
        Some(trim_text(strip_prefixes(trim_text(text), label)))
    } else {
        None
    }
}

/// The value that `text` holds for the field marked by `label`.
pub fn labelled_value<'a>(text: &'a str, label: &str) -> (value: Option<&'a str>)
    ensures
        option_text(value) == labelled_text(text@, label@),
{
    if contains(text, label) {
        Some(trim(trim_start_matches(trim(text), label)))
    } else {
        None
    }
}

/// The date fragment that `text` holds under `label`: its value for that
/// label, cut before the first opening parenthesis of either form.
pub open spec fn date_fragment_text(text: Seq<char>, label: Seq<char>) -> Option<Seq<char>> {
    match labelled_text(text, label) {
        Some(value) => Some(without_annotation(value)),
        None => None,
    }
}

/// The date fragment that `text` holds under `label`, without the annotation
/// in parentheses that may follow the date.
pub fn date_fragment<'a>(text: &'a str, label: &str) -> (fragment: Option<&'a str>)
    ensures
        option_text(fragment) == date_fragment_text(text@, label@),
{
    match labelled_value(text, label) {
        Some(value) => Some(cut_annotation(value)),
        None => None,
    }
}

/// Whether the regular expression `pattern` matches somewhere in `haystack`;
/// `None` where `pattern` is no regular expression.
pub uninterp spec fn regex_search(pattern: Seq<char>, haystack: Seq<char>) -> Option<bool>;

/// Has `regex` compile `pattern` (`Regex::new`) and look for a match anywhere
/// in `haystack` (`Regex::is_match`). A pattern that does not compile gives
/// `None`.
#[verifier::external_body]
fn regex_is_match(pattern: &str, haystack: &str) -> (found: Option<bool>)
    ensures
        found == regex_search(pattern@, haystack@),
{
    match regex::Regex::new(pattern) {
        Ok(compiled) => Some(compiled.is_match(haystack)),
        Err(_) => None,
    }
}

/// Whether `text` has the shape that `pattern` describes.
pub open spec fn has_shape(text: Seq<char>, pattern: Seq<char>) -> bool {
    regex_search(pattern, text) == Some(true)
}

/// Whether `text` has the shape that the regular expression `pattern`
/// describes. A pattern that is no regular expression describes no text.
pub fn matches_shape(text: &str, pattern: &str) -> (matched: bool)
    ensures
        matched == has_shape(text@, pattern@),
{
    match regex_is_match(pattern, text) {
        Some(found) => found,
        None => false,
    }
}

} // verus!
