//! Reading lists of texts that travel as JSON.

use vstd::prelude::*;

verus! {

use crate::iceberg::contents::{text_pairs, texts};

/// Lists of texts, by their characters.
pub open spec fn text_lists(lists: Seq<Vec<String>>) -> Seq<Seq<Seq<char>>> {
    lists.map_values(|list: Vec<String>| texts(list@))
}

/// What comes of reading pairs of texts, by their characters.
pub open spec fn pairs_result(result: Result<Vec<(String, String)>, String>) -> Result<
    Seq<(Seq<char>, Seq<char>)>,
    Seq<char>,
> {
    match result {
        Ok(pairs) => Ok(text_pairs(pairs@)),
        Err(message) => Err(message@),
    }
}

/// What comes of reading lists of texts, by their characters.
pub open spec fn lists_result(result: Result<Vec<Vec<String>>, String>) -> Result<
    Seq<Seq<Seq<char>>>,
    Seq<char>,
> {
    match result {
        Ok(lists) => Ok(text_lists(lists@)),
        Err(message) => Err(message@),
    }
}

/// The pairs of texts that a JSON document holds; of any other document, the message that says
/// why it holds none.
pub uninterp spec fn json_text_pairs(json: Seq<char>) -> Result<
    Seq<(Seq<char>, Seq<char>)>,
    Seq<char>,
>;

/// The lists of texts that a JSON document holds; of any other document, the message that says
/// why it holds none.
pub uninterp spec fn json_text_lists(json: Seq<char>) -> Result<Seq<Seq<Seq<char>>>, Seq<char>>;

/// `serde_json::from_str` for a list of pairs of texts: the pairs, or the text of the error.
/// Both depend on the document alone; nothing is said of which documents hold pairs.
#[verifier::external_body]
pub(crate) fn parse_text_pairs(json: &str) -> (pairs: Result<Vec<(String, String)>, String>)
    ensures
        pairs_result(pairs) == json_text_pairs(json@),
{
    serde_json::from_str::<Vec<(String, String)>>(json).map_err(|e| e.to_string())
}

/// `serde_json::from_str` for a list of lists of texts: the lists, or the text of the error.
/// Both depend on the document alone; nothing is said of which documents hold lists.
#[verifier::external_body]
pub(crate) fn parse_text_lists(json: &str) -> (lists: Result<Vec<Vec<String>>, String>)
    ensures
        lists_result(lists) == json_text_lists(json@),
{
    serde_json::from_str::<Vec<Vec<String>>>(json).map_err(|e| e.to_string())
}

} // verus!
