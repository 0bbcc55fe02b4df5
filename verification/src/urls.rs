//! URLs, as the `url` crate parses them.

use vstd::prelude::*;

verus! {

/// The parts of a URL that the library reads.
pub struct UrlParts {
    pub scheme: String,
    pub path: String,
}

/// Scheme and path of `s` as `url::Url::parse` reads it, or `None` when it
/// refuses `s`.
pub uninterp spec fn url_parts(s: Seq<char>) -> Option<(Seq<char>, Seq<char>)>;

/// The view of parsed URL parts.
pub open spec fn parts_view(p: Option<UrlParts>) -> Option<(Seq<char>, Seq<char>)> {
    match p {
        Some(u) => Some((u.scheme@, u.path@)),
        None => None,
    }
}

/// Parses a URL with `url::Url::parse` and returns its scheme and path.
#[verifier::external_body]
pub(crate) fn parse_url(s: &str) -> (r: Option<UrlParts>)
    ensures
        parts_view(r) == url_parts(s@),
{
    match url::Url::parse(s) {
        Ok(u) => Some(UrlParts { scheme: u.scheme().to_string(), path: u.path().to_string() }),
        Err(_) => None,
    }
}

} // verus!
