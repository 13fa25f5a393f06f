//! How texts, and lists of texts, show in messages.

use vstd::prelude::*;
use vstd::string::*;

verus! {

use crate::iceberg::contents::texts;

/// A text as it shows between quotes.
pub uninterp spec fn quoted(text: Seq<char>) -> Seq<char>;

/// The `Debug` of `str`: the text between quotes, with escapes where they are due, which is
/// the same for the same text. Nothing is said of the escapes.
#[verifier::external_body]
pub(crate) fn quoted_text(text: &str) -> (shown: String)
    ensures
        shown@ == quoted(text@),
{
    format!("{:?}", text)
}

/// Texts one after the other, with commas between them.
pub open spec fn comma_joined(items: Seq<Seq<char>>) -> Seq<char>
    decreases items.len(),
{
    if items.len() == 0 {
        Seq::empty()
    } else if items.len() == 1 {
        items[0]
    } else {
        comma_joined(items.drop_last()) + ", "@ + items.last()
    }
}

/// A list of texts, as it shows in messages.
pub open spec fn shown_list(items: Seq<Seq<char>>) -> Seq<char> {
    "["@ + comma_joined(items) + "]"@
}

/// Texts between quotes.
pub open spec fn all_quoted(items: Seq<Seq<char>>) -> Seq<Seq<char>> {
    items.map_values(|item: Seq<char>| quoted(item))
}

/// A list of texts that are shown already.
pub fn list_text(items: &Vec<String>) -> (text: String)
    ensures
        text@ == shown_list(texts(items@)),
{
    let ghost all = texts(items@);
    let mut inner = "".to_owned();
    proof {
        reveal_strlit("");
        assert(inner@ =~= comma_joined(all.take(0)));
    }
    for i in 0..items.len()
        invariant
            all == texts(items@),
            inner@ == comma_joined(all.take(i as int)),
    {
        proof {
            assert(all.take(i + 1).drop_last() =~= all.take(i as int));
            assert(all.take(i + 1).last() == items@[i as int]@);
            assert(i == 0 ==> all.take(i + 1)[0] == items@[i as int]@);
        }
        if i > 0 {
            inner.append(", ");
        }
        inner.append(items[i].as_str());
        assert(inner@ =~= comma_joined(all.take(i + 1)));
    }
    assert(all.take(all.len() as int) =~= all);
    let mut text = "[".to_owned();
    text.append(inner.as_str());
    text.append("]");
    text
}

/// A list of texts between quotes.
pub fn quoted_list_text(items: &Vec<String>) -> (text: String)
    ensures
        text@ == shown_list(all_quoted(texts(items@))),
{
    let mut shown: Vec<String> = Vec::new();
    for i in 0..items.len()
        invariant
            texts(shown@) == all_quoted(texts(items@).take(i as int)),
    {
        let ghost before = texts(shown@);
        shown.push(quoted_text(items[i].as_str()));
        assert(texts(shown@) =~= before.push(quoted(items@[i as int]@)));
        assert(all_quoted(texts(items@).take(i + 1)) =~= before.push(quoted(items@[i as int]@)));
    }
    assert(texts(items@).take(items@.len() as int) =~= texts(items@));
    list_text(&shown)
}

} // verus!
