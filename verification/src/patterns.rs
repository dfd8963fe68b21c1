//! The regular expressions that the naming rules lean on, and the calls into
//! the regex engine that apply them.

use vstd::prelude::*;

verus! {

/// A run of characters that are no word characters.
pub const NON_WORD_RUN: &'static str = "\\W+";

/// A run of characters that are no word characters, with a word on each side.
pub const INNER_NON_WORD_RUN: &'static str = "\\b\\W+\\b";

/// A line, with a trailing `Error` in any case set apart from the rest.
pub const ERROR_SUFFIXED: &'static str = "(?i)^(?<name>.*)(?:Error)?$";

/// A character that is neither an ASCII letter, a digit, `_` nor `-`.
pub const NON_SLUG_CHAR: &'static str = "[^a-zA-Z0-9_-]";

/// The patterns of this module, which all compile.
pub open spec fn known_pattern(p: Seq<char>) -> bool {
    p == NON_WORD_RUN@ || p == INNER_NON_WORD_RUN@ || p == ERROR_SUFFIXED@ || p == NON_SLUG_CHAR@
}

/// The pieces that `Regex::split` cuts `text` into at the matches of
/// `pattern`, in order.
pub uninterp spec fn regex_split_of(pattern: Seq<char>, text: Seq<char>) -> Seq<Seq<char>>;

/// The matches of `pattern` in `text` that `Regex::find_iter` walks, in order.
pub uninterp spec fn regex_matches_of(pattern: Seq<char>, text: Seq<char>) -> Seq<Seq<char>>;

/// What `Regex::replace_all` makes of `text` when every match of `pattern`
/// gives way to the expansion of `rep`.
pub uninterp spec fn regex_replaced_of(pattern: Seq<char>, text: Seq<char>, rep: Seq<char>) -> Seq<
    char,
>;

/// `Regex::split` with a pattern of this module: the parts of `text` that
/// no match covers, in order.
#[verifier::external_body]
pub(crate) fn split_by(pattern: &str, text: &str) -> (r: Vec<String>)
    requires
        known_pattern(pattern@),
    ensures
        r.deep_view() == regex_split_of(pattern@, text@),
{
    regex::Regex::new(pattern).unwrap().split(text).map(|p| p.to_string()).collect()
}

/// `Regex::find_iter` with a pattern of this module: the text of each
/// successive match in `text`.
#[verifier::external_body]
pub(crate) fn matches_of(pattern: &str, text: &str) -> (r: Vec<String>)
    requires
        known_pattern(pattern@),
    ensures
        r.deep_view() == regex_matches_of(pattern@, text@),
{
    regex::Regex::new(pattern).unwrap().find_iter(text).map(|m| m.as_str().to_string()).collect()
}

/// `Regex::replace_all` with a pattern of this module: `text` with each
/// match replaced by `rep`, in which `$name` stands for a group of the match.
#[verifier::external_body]
pub(crate) fn replace_all_by(pattern: &str, text: &str, rep: &str) -> (r: String)
    requires
        known_pattern(pattern@),
    ensures
        r@ == regex_replaced_of(pattern@, text@, rep@),
{
    regex::Regex::new(pattern).unwrap().replace_all(text, rep).to_string()
}

} // verus!
