//! Canonical addresses: where a page of the site is found on the web.

use vstd::prelude::*;
use crate::text::text_view;

verus! {

/// The address that the url crate makes of `path`, taken as a reference
/// relative to the address `origin`; `None` where it rejects either.
pub uninterp spec fn joined_url(origin: Seq<char>, path: Seq<char>) -> Option<Seq<char>>;

/// Parses the origin with `url::Url::parse` and resolves the path against
/// it with `url::Url::join`. Trusted: the outcome is a function of the two
/// texts.
#[verifier::external_body]
fn url_join(origin: &str, path: &str) -> (r: Option<String>)
    ensures
        text_view(r) == joined_url(origin@, path@),
{
    match url::Url::parse(origin) {
        Ok(base) => match base.join(path) {
            Ok(joined) => Some(String::from(joined)),
            Err(_) => None,
        },
        Err(_) => None,
    }
}

/// The address of the page at `path` on the site at `origin`, or `None`
/// where the two make no address.
pub fn canonical_url(origin: &str, path: &str) -> (r: Option<String>)
    ensures
        text_view(r) == joined_url(origin@, path@),
{
    url_join(origin, path)
}

} // verus!
