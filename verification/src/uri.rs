//! What the library asks of `hyper`'s URI parser.

use vstd::prelude::*;
use std::str::FromStr;

verus! {

/// What `hyper::Uri` makes of a text: `None` where it refuses the text, else
/// the text that the parsed URI holds and is compared by. For an absolute URI
/// without a path that is the text with `/` after the authority.
pub uninterp spec fn uri_normal_form(text: Seq<char>) -> Option<Seq<char>>;

/// What `hyper::Uri::authority` gives for a text: `None` where the text is no
/// URI or the URI has no authority, else the authority part.
pub uninterp spec fn uri_authority(text: Seq<char>) -> Option<Seq<char>>;

/// Parses `text` with `hyper::Uri::from_str` and hands back the text of the
/// parsed URI (`Uri::as_ref`), or `None` where the parser refuses `text`.
#[verifier::external_body]
pub(crate) fn normal_form(text: &str) -> (r: Option<String>)
    ensures
        r is Some <==> uri_normal_form(text@) is Some,
        r matches Some(s) ==> uri_normal_form(text@) == Some(s@),
{
    match hyper::Uri::from_str(text) {
        Ok(uri) => Some(uri.as_ref().to_string()),
        Err(_) => None,
    }
}

/// Parses `text` with `hyper::Uri::from_str` and hands back the authority of
/// the parsed URI (`Uri::authority`). The text is ASCII, so that every index
/// the parser keeps is a character boundary.
#[verifier::external_body]
pub(crate) fn authority(text: &str) -> (r: Option<String>)
    requires
        text.is_ascii(),
    ensures
        r is Some <==> uri_authority(text@) is Some,
        r matches Some(s) ==> uri_authority(text@) == Some(s@),
{
    match hyper::Uri::from_str(text) {
        Ok(uri) => uri.authority().map(|a| a.to_string()),
        Err(_) => None,
    }
}

} // verus!
