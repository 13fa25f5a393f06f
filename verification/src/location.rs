//! Locations of files.

use vstd::prelude::*;

verus! {

/// A text, by its characters, or why there is none, by its characters.
pub open spec fn text_result(result: Result<String, String>) -> Result<Seq<char>, Seq<char>> {
    match result {
        Ok(text) => Ok(text@),
        Err(reason) => Err(reason@),
    }
}

/// A location as it is written down, or why it cannot be read.
pub uninterp spec fn url_parsed(text: Seq<char>) -> Result<Seq<char>, Seq<char>>;

/// A location seen from a base, or why it cannot be read.
pub uninterp spec fn url_joined(base: Seq<char>, relative: Seq<char>) -> Result<
    Seq<char>,
    Seq<char>,
>;

/// The part of a location before its path, or why the location cannot be read.
pub uninterp spec fn url_store(text: Seq<char>) -> Result<Seq<char>, Seq<char>>;

/// `Url::parse`: a location as it is written down, or the text of the error. Both depend on the
/// text alone; nothing is said of which locations can be read.
#[verifier::external_body]
pub(crate) fn parse_url(text: &str) -> (location: Result<String, String>)
    ensures
        text_result(location) == url_parsed(text@),
{
    url::Url::parse(text).map(|url| url.to_string()).map_err(|e| e.to_string())
}

/// `Url::join`, on a base that is read with `Url::parse`: the location that a relative one
/// stands for, seen from the base, or the text of the error. Both depend on the two texts alone;
/// nothing is said of how they are put together.
#[verifier::external_body]
pub(crate) fn join_url(base: &str, relative: &str) -> (location: Result<String, String>)
    ensures
        text_result(location) == url_joined(base@, relative@),
{
    url::Url::parse(base)
        .and_then(|base| base.join(relative))
        .map(|url| url.to_string())
        .map_err(|e| e.to_string())
}

/// The slice of a `Url` before its path: the scheme and the authority of a location that is read
/// with `Url::parse`, or the text of the error. Both depend on the text alone.
#[verifier::external_body]
pub(crate) fn store_url(text: &str) -> (store: Result<String, String>)
    ensures
        text_result(store) == url_store(text@),
{
    url::Url::parse(text)
        .map(|url| url[..url::Position::BeforePath].to_string())
        .map_err(|e| e.to_string())
}

} // verus!
