//! URLs: whether a text parses as one, and a URL with query pairs appended.
use vstd::prelude::*;

use url::Url;

verus! {

/// The text parses as an absolute URL (`url::Url::parse`).
pub uninterp spec fn url_parses(text: Seq<char>) -> bool;

/// The serialisation of `base`, parsed as a URL, with `pairs` appended to its
/// query in order, form-urlencoded (`Url::parse`, `query_pairs_mut().append_pair`,
/// `as_str`); `None` when `base` does not parse.
pub uninterp spec fn url_with_pairs(base: Seq<char>, pairs: Seq<(Seq<char>, Seq<char>)>) -> Option<Seq<char>>;

/// The host of the parsed URL (`Url::parse` then `host_str`), if it parses
/// and has one.
pub uninterp spec fn url_host(text: Seq<char>) -> Option<Seq<char>>;

/// The characters of each key and value.
pub open spec fn pair_views(pairs: Seq<(String, String)>) -> Seq<(Seq<char>, Seq<char>)> {
    pairs.map_values(|p: (String, String)| (p.0@, p.1@))
}

/// Whether `text` parses as a URL (`Url::parse`).
#[verifier::external_body]
pub(crate) fn parse_ok(text: &str) -> (res: bool)
    ensures
        res == url_parses(text@),
{
    Url::parse(text).is_ok()
}

/// `base` with the query pairs appended (`Url::parse`, `query_pairs_mut`,
/// `append_pair` per pair, `as_str`). Appending never fails, so the result is
/// present exactly when `base` parses.
#[verifier::external_body]
pub(crate) fn with_query(base: &str, pairs: &Vec<(String, String)>) -> (res: Option<String>)
    ensures
        res is Some <==> url_parses(base@),
        res is None ==> url_with_pairs(base@, pair_views(pairs@)) is None,
        res matches Some(u) ==> Some(u@) == url_with_pairs(base@, pair_views(pairs@)),
{
    let mut url = Url::parse(base).ok()?;
    {
        let mut qp = url.query_pairs_mut();
        for (k, v) in pairs.iter() {
            qp.append_pair(k, v);
        }
    }
    Some(url.as_str().to_string())
}

/// The host of the URL in `text` (`Url::parse` then `host_str`).
#[verifier::external_body]
pub(crate) fn host_of(text: &str) -> (res: Option<String>)
    ensures
        res is Some <==> url_host(text@) is Some,
        res matches Some(h) ==> Some(h@) == url_host(text@),
{
    Url::parse(text).ok().and_then(|u| u.host_str().map(|h| h.to_string()))
}

} // verus!
