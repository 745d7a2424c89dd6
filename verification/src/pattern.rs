//! Regular expressions.
use vstd::prelude::*;

verus! {

/// Whether `regex::Regex::new` compiles a pattern, where a word has so many
/// bits: the limit on the size of what it compiles to counts words.
pub uninterp spec fn regex_valid(pattern: Seq<char>, word_bits: nat) -> bool;

/// Whether a pattern that compiles matches a part of a text, by
/// `regex::Regex::is_match`.
pub uninterp spec fn regex_found(pattern: Seq<char>, text: Seq<char>) -> bool;

/// Whether a pattern that compiles matches a part of a text; nothing where it
/// does not compile.
pub open spec fn regex_search(pattern: Seq<char>, text: Seq<char>) -> Option<bool> {
    if regex_valid(pattern, usize::BITS as nat) {
        Some(regex_found(pattern, text))
    } else {
        None
    }
}

/// Compiles a pattern with `regex::Regex::new` and searches a text with
/// `regex::Regex::is_match`: nothing where the pattern does not compile, else
/// whether a part of the text matches. Which patterns compile and what they match
/// is named, since the syntax of patterns decides it.
#[verifier::external_body]
pub(crate) fn search(pattern: &str, text: &str) -> (r: Option<bool>)
    ensures
        r == if regex_valid(pattern@, usize::BITS as nat) {
            Some(regex_found(pattern@, text@))
        } else {
            None::<bool>
        },
{
    match regex::Regex::new(pattern) {
        Ok(re) => Some(re.is_match(text)),
        Err(_) => None,
    }
}

} // verus!
