//! The one outside call of the JSON assembly: quoting a string as a JSON
//! string literal. Request bodies are otherwise built and checked by
//! verified code.

use vstd::prelude::*;

verus! {

/// The JSON string literal (quotes and escapes included) that encodes a
/// character sequence. The encoding depends on the characters alone.
pub uninterp spec fn json_string_of(s: Seq<char>) -> Seq<char>;

/// Relies on serde_json::to_string for &str: it returns the JSON string
/// literal encoding its argument, and it cannot fail or panic on any
/// string — serialization of a string only writes escaped bytes into a
/// vector, and str's Serialize implementation never errs.
#[verifier::external_body]
pub(crate) fn json_quote(s: &str) -> (r: String)
    ensures
        r@ == json_string_of(s@),
{
    serde_json::to_string(s).unwrap()
}

} // verus!
