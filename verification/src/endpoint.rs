//! Endpoints: which texts are URIs.

use vstd::prelude::*;

use ipp::prelude::Uri;

verus! {

/// Whether the `http` crate reads `text` as a URI.
pub uninterp spec fn is_uri(text: Seq<char>) -> bool;

/// Parses `text` as a URI with the `http` crate (`Uri::from_str`) and says
/// whether that succeeded. The crate decides from the characters alone.
#[verifier::external_body]
fn parses_as_uri(text: &str) -> (ok: bool)
    ensures
        ok == is_uri(text@),
{
    text.parse::<Uri>().is_ok()
}

/// Whether `text` is a URI.
pub fn is_valid_uri(text: &str) -> (ok: bool)
    ensures
        ok == is_uri(text@),
{
    parses_as_uri(text)
}

} // verus!
