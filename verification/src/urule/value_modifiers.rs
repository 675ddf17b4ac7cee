//! Value transforms and ending comparators selected by a field-key's
//! modifier chain.

use vstd::prelude::*;
use crate::strings::{seq_contains, seq_ends_with, str_contains, str_ends_with};

verus! {

/// The longest text the `base64` transform accepts, set so the encoder's
/// output-size arithmetic cannot overflow even when every character encodes
/// to four bytes; a longer input makes the whole selector resolve to a
/// non-match.
pub const BASE64_INPUT_LIMIT: usize = usize::MAX / 8;

/// The standard, padded base64 encoding of the UTF-8 bytes of `s`.
pub uninterp spec fn base64_of(s: Seq<char>) -> Seq<char>;

/// Relies on `base64::encode`: the standard alphabet with padding, a result
/// determined by the input characters alone, and empty exactly on empty
/// input.
#[verifier::external_body]
pub fn to_base64(value: &str) -> (r: String)
    requires
        value@.len() <= BASE64_INPUT_LIMIT,
    ensures
        r@ == base64_of(value@),
        value@.len() == 0 ==> r@.len() == 0,
        value@.len() > 0 ==> r@.len() > 0,
{
    base64::encode(value)
}

/// Whether the observed text ends with the given ending.
pub fn ends_with(field_value: &str, ending: &str) -> (r: bool)
    ensures
        r == seq_ends_with(field_value@, ending@),
{
    str_ends_with(field_value, ending)
}

/// What the regex engine answers for a pattern and a text: the match result
/// where the pattern compiles, nothing where it does not compile.
pub uninterp spec fn regex_match_of(pattern: Seq<char>, text: Seq<char>) -> Option<bool>;

/// Relies on `regex::Regex::new` and `Regex::is_match`: whether the compiled
/// pattern matches anywhere in the text, with an uncompilable pattern
/// resolving to a non-match rather than an error.
#[verifier::external_body]
pub fn regex(field_value: &str, pattern: &str) -> (r: bool)
    ensures
        regex_match_of(pattern@, field_value@) matches Option::Some(b) ==> r == b,
        regex_match_of(pattern@, field_value@) is None ==> r == false,
{
    let re = match ::regex::Regex::new(pattern) {
        Ok(re) => re,
        Err(_) => return false,
    };
    re.is_match(field_value)
}

/// Containment of an expected text in an already-transformed value. The
/// offset-tolerant refinement — trying the three byte alignments of the
/// encoded needle — is the intended extension point; plain containment over
/// the transformed value stands in for it.
pub fn base64_offset_contains(b64: &str, value: &str) -> (r: bool)
    ensures
        r == seq_contains(b64@, value@),
{
    str_contains(b64, value)
}

} // verus!
