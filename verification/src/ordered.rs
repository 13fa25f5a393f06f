//! Texts in dictionary order.

use vstd::prelude::*;
use vstd::string::*;

use crate::bytes::bytes_le;

verus! {

use crate::bytes::{lemma_lex_total, lemma_lex_transitive, lex_le};
use crate::iceberg::contents::texts;
use crate::string_map::entries_view;
use vstd::utf8::encode_utf8;

/// Whether a text comes before another in dictionary order, or is the same.
pub open spec fn text_le(a: Seq<char>, b: Seq<char>) -> bool {
    lex_le(encode_utf8(a), encode_utf8(b))
}

fn comes_before(a: &String, b: &String) -> (before: bool)
    ensures
        before == text_le(a@, b@),
{
    bytes_le(a.as_str().as_bytes(), b.as_str().as_bytes())
}

/// Ordered entries with one more in its place, behind those with the same key.
pub open spec fn entry_placed<V>(entries: Seq<(Seq<char>, V)>, entry: (Seq<char>, V)) -> Seq<
    (Seq<char>, V),
>
    decreases entries.len(),
{
    if entries.len() == 0 || text_le(entries.last().0, entry.0) {
        entries.push(entry)
    } else {
        entry_placed(entries.drop_last(), entry).push(entries.last())
    }
}

/// Entries in the order of their keys. Those with the same key stay in order.
pub open spec fn by_key<V>(entries: Seq<(Seq<char>, V)>) -> Seq<(Seq<char>, V)>
    decreases entries.len(),
{
    if entries.len() == 0 {
        Seq::empty()
    } else {
        entry_placed(by_key(entries.drop_last()), entries.last())
    }
}

/// Entries with other values under the same keys.
pub open spec fn with_values<V, W>(entries: Seq<(Seq<char>, V)>, value: spec_fn(V) -> W) -> Seq<
    (Seq<char>, W),
> {
    entries.map_values(|entry: (Seq<char>, V)| (entry.0, value(entry.1)))
}

proof fn lemma_placed_with_values<V, W>(
    entries: Seq<(Seq<char>, V)>,
    entry: (Seq<char>, V),
    value: spec_fn(V) -> W,
)
    ensures
        with_values(entry_placed(entries, entry), value) == entry_placed(
            with_values(entries, value),
            (entry.0, value(entry.1)),
        ),
    decreases entries.len(),
{
    let other = with_values(entries, value);
    if entries.len() == 0 || text_le(entries.last().0, entry.0) {
        assert(with_values(entries.push(entry), value) =~= other.push(
            (entry.0, value(entry.1)),
        ));
    } else {
        let init = entries.drop_last();
        lemma_placed_with_values(init, entry, value);
        assert(with_values(init, value) =~= other.drop_last());
        assert(with_values(entry_placed(init, entry).push(entries.last()), value) =~= with_values(
            entry_placed(init, entry),
            value,
        ).push((entries.last().0, value(entries.last().1))));
    }
}

/// The order of entries does not depend on their values.
pub proof fn lemma_order_with_values<V, W>(entries: Seq<(Seq<char>, V)>, value: spec_fn(V) -> W)
    ensures
        with_values(by_key(entries), value) == by_key(with_values(entries, value)),
    decreases entries.len(),
{
    if entries.len() == 0 {
        assert(with_values(by_key(entries), value) =~= by_key(with_values(entries, value)));
    } else {
        let init = entries.drop_last();
        lemma_order_with_values(init, value);
        assert(with_values(init, value) =~= with_values(entries, value).drop_last());
        lemma_placed_with_values(by_key(init), entries.last(), value);
    }
}

/// Whether entries stand in the order of their keys.
pub open spec fn is_ordered<V>(entries: Seq<(Seq<char>, V)>) -> bool {
    forall|i: int, j: int|
        0 <= i < j < entries.len() ==> text_le((#[trigger] entries[i]).0, (#[trigger] entries[j]).0)
}

proof fn lemma_placed<V>(entries: Seq<(Seq<char>, V)>, entry: (Seq<char>, V))
    requires
        is_ordered(entries),
    ensures
        is_ordered(entry_placed(entries, entry)),
        entry_placed(entries, entry).to_multiset() == entries.to_multiset().insert(entry),
        entry_placed(entries, entry).len() == entries.len() + 1,
        forall|i: int|
            0 <= i < entry_placed(entries, entry).len() ==> (entries.contains(
                #[trigger] entry_placed(entries, entry)[i],
            ) || entry_placed(entries, entry)[i] == entry),
    decreases entries.len(),
{
    broadcast use vstd::seq_lib::group_to_multiset_ensures;

    if entries.len() == 0 || text_le(entries.last().0, entry.0) {
        let result = entries.push(entry);
        assert forall|i: int| 0 <= i < result.len() implies (entries.contains(#[trigger] result[i])
            || result[i] == entry) by {
            if i < entries.len() {
                assert(entries[i] == result[i]);
            }
        }
        assert forall|i: int, j: int| 0 <= i < j < result.len() implies text_le(
            (#[trigger] result[i]).0,
            (#[trigger] result[j]).0,
        ) by {
            if j == entries.len() {
                let last = entries[entries.len() - 1];
                if i < entries.len() - 1 {
                    assert(text_le(entries[i].0, last.0));
                    lemma_lex_transitive(
                        encode_utf8(entries[i].0),
                        encode_utf8(last.0),
                        encode_utf8(entry.0),
                    );
                }
            } else {
                assert(text_le(entries[i].0, entries[j].0));
            }
        }
    } else {
        let (init, last) = (entries.drop_last(), entries.last());
        assert forall|i: int, j: int| 0 <= i < j < init.len() implies text_le(
            (#[trigger] init[i]).0,
            (#[trigger] init[j]).0,
        ) by {
            assert(text_le(entries[i].0, entries[j].0));
        }
        lemma_placed(init, entry);
        lemma_lex_total(encode_utf8(last.0), encode_utf8(entry.0));
        let before = entry_placed(init, entry);
        let result = before.push(last);
        assert(entries =~= init.push(last));
        assert(result.to_multiset() =~= entries.to_multiset().insert(entry));
        assert forall|i: int| 0 <= i < result.len() implies (entries.contains(#[trigger] result[i])
            || result[i] == entry) by {
            if i < before.len() {
                if init.contains(before[i]) {
                    let k = choose|k: int| 0 <= k < init.len() && init[k] == before[i];
                    assert(entries[k] == result[i]);
                }
            } else {
                assert(entries[entries.len() - 1] == result[i]);
            }
        }
        assert forall|i: int, j: int| 0 <= i < j < result.len() implies text_le(
            (#[trigger] result[i]).0,
            (#[trigger] result[j]).0,
        ) by {
            assert(result[i] == before[i]);
            if j < before.len() {
                assert(text_le(before[i].0, before[j].0));
            } else if init.contains(before[i]) {
                let k = choose|k: int| 0 <= k < init.len() && init[k] == before[i];
                assert(text_le(entries[k].0, entries[entries.len() - 1].0));
            }
        }
    }
}

/// Ordering loses no entry, and brings the keys in order.
pub proof fn law_entries_are_ordered<V>(entries: Seq<(Seq<char>, V)>)
    ensures
        is_ordered(by_key(entries)),
        by_key(entries).to_multiset() == entries.to_multiset(),
        by_key(entries).len() == entries.len(),
    decreases entries.len(),
{
    broadcast use vstd::seq_lib::group_to_multiset_ensures;

    if entries.len() > 0 {
        law_entries_are_ordered(entries.drop_last());
        lemma_placed(by_key(entries.drop_last()), entries.last());
        assert(entries =~= entries.drop_last().push(entries.last()));
    }
}

proof fn lemma_placed_at<V>(entries: Seq<(Seq<char>, V)>, entry: (Seq<char>, V), at: int)
    requires
        0 <= at <= entries.len(),
        at > 0 ==> text_le(entries[at - 1].0, entry.0),
        forall|i: int| at <= i < entries.len() ==> !text_le((#[trigger] entries[i]).0, entry.0),
    ensures
        entry_placed(entries, entry) == entries.insert(at, entry),
    decreases entries.len(),
{
    if at == entries.len() {
        assert(entries.insert(at, entry) =~= entries.push(entry));
    } else {
        assert(!text_le(entries[entries.len() - 1].0, entry.0));
        let init = entries.drop_last();
        assert forall|i: int| at <= i < init.len() implies !text_le(
            (#[trigger] init[i]).0,
            entry.0,
        ) by {
            assert(init[i] == entries[i]);
        }
        lemma_placed_at(init, entry, at);
        assert(init.insert(at, entry).push(entries.last()) =~= entries.insert(at, entry));
    }
}

/// Brings entries in the order of their keys. Those with the same key stay in order.
pub fn sort_by_key<V>(entries: Vec<(String, V)>) -> (sorted: Vec<(String, V)>)
    ensures
        entries_view(sorted@) == by_key(entries_view(entries@)),
{
    let ghost all = entries@;
    let ghost views = entries_view(all);
    let mut sorted: Vec<(String, V)> = Vec::new();
    assert(entries_view(sorted@) =~= by_key(views.take(0)));
    for entry in iter: entries
        invariant
            iter.seq() == all,
            views == entries_view(all),
            entries_view(sorted@) == by_key(views.take(iter.index())),
    {
        let ghost n = iter.index();
        let ghost before = sorted@;
        let ghost view = (entry.0@, entry.1);
        proof {
            assert(views.take(n + 1).drop_last() =~= views.take(n));
            assert(views.take(n + 1).last() == view);
        }
        let mut at: usize = sorted.len();
        while at > 0 && !comes_before(&sorted[at - 1].0, &entry.0)
            invariant
                at <= sorted@.len(),
                forall|i: int|
                    at <= i < sorted@.len() ==> !text_le((#[trigger] sorted@[i]).0@, entry.0@),
            decreases at,
        {
            at = at - 1;
        }
        proof {
            let placed = entries_view(before);
            assert(at > 0 ==> text_le(placed[at - 1].0, view.0));
            assert forall|i: int| at <= i < placed.len() implies !text_le(
                (#[trigger] placed[i]).0,
                view.0,
            ) by {
                assert(placed[i].0 == before[i].0@);
            }
            lemma_placed_at(placed, view, at as int);
        }
        sorted.insert(at, entry);
        assert(entries_view(sorted@) =~= entries_view(before).insert(at as int, view));
    }
    assert(views.take(views.len() as int) =~= views);
    sorted
}

/// A text with nothing beside it.
spec fn alone() -> spec_fn(Seq<char>) -> (Seq<char>, ()) {
    |text: Seq<char>| (text, ())
}

/// Whether texts stand in dictionary order.
pub open spec fn texts_ordered(items: Seq<Seq<char>>) -> bool {
    forall|i: int, j: int|
        0 <= i < j < items.len() ==> text_le(#[trigger] items[i], #[trigger] items[j])
}

/// Brings texts in dictionary order.
pub fn sort_texts(items: Vec<String>) -> (sorted: Vec<String>)
    ensures
        texts_ordered(texts(sorted@)),
        texts(sorted@).to_multiset() == texts(items@).to_multiset(),
        sorted@.len() == items@.len(),
{
    let ghost all = items@;
    let ghost unit = alone();
    let mut entries: Vec<(String, ())> = Vec::new();
    for item in iter: items
        invariant
            iter.seq() == all,
            unit == alone(),
            entries_view(entries@) == texts(all).take(iter.index()).map_values(unit),
    {
        let ghost n = iter.index();
        let ghost before = entries_view(entries@);
        entries.push((item, ()));
        assert(entries_view(entries@) =~= before.push((item@, ())));
        assert(texts(all).take(n + 1).map_values(unit) =~= before.push((item@, ())));
    }
    assert(texts(all).take(all.len() as int) =~= texts(all));
    let ghost given = texts(all).map_values(unit);
    proof {
        law_entries_are_ordered(given);
    }
    let ordered = sort_by_key(entries);
    let ghost placed = entries_view(ordered@);
    let ghost vec = ordered@;
    let mut sorted: Vec<String> = Vec::new();
    for entry in iter: ordered
        invariant
            iter.seq() == vec,
            placed == entries_view(vec),
            sorted@.len() == iter.index(),
            forall|i: int| 0 <= i < sorted@.len() ==> (#[trigger] sorted@[i])@ == placed[i].0,
    {
        assert(placed[iter.index()].0 == entry.0@);
        sorted.push(entry.0);
    }
    proof {
        let result = texts(sorted@);
        assert(result.map_values(unit) =~= placed);
        assert forall|i: int, j: int| 0 <= i < j < result.len() implies text_le(
            #[trigger] result[i],
            #[trigger] result[j],
        ) by {
            assert(text_le(placed[i].0, placed[j].0));
        }
        lemma_unit_multiset(result, texts(all));
    }
    sorted
}

/// Texts that are the same with nothing beside them are the same, each as often as it occurs.
proof fn lemma_unit_multiset(a: Seq<Seq<char>>, b: Seq<Seq<char>>)
    requires
        a.map_values(alone()).to_multiset() == b.map_values(alone()).to_multiset(),
    ensures
        a.to_multiset() == b.to_multiset(),
{
    let unit = alone();
    lemma_unit_counts(a);
    lemma_unit_counts(b);
    assert forall|text: Seq<char>| #[trigger] a.to_multiset().count(text)
        == b.to_multiset().count(text) by {
        assert(a.map_values(unit).to_multiset().count((text, ())) == a.to_multiset().count(text));
        assert(b.map_values(unit).to_multiset().count((text, ())) == b.to_multiset().count(text));
    }
    assert(a.to_multiset() =~= b.to_multiset());
}

proof fn lemma_unit_counts(a: Seq<Seq<char>>)
    ensures
        forall|text: Seq<char>| #[trigger]
            a.map_values(alone()).to_multiset().count((text, ()))
                == a.to_multiset().count(text),
    decreases a.len(),
{
    broadcast use vstd::seq_lib::group_to_multiset_ensures;

    let unit = alone();
    if a.len() > 0 {
        lemma_unit_counts(a.drop_last());
        assert(a =~= a.drop_last().push(a.last()));
        assert(a.map_values(unit) =~= a.drop_last().map_values(unit).push((a.last(), ())));
    }
}

/// Whether an entry has the given key.
pub open spec fn is_under<V>(key: Seq<char>) -> spec_fn((Seq<char>, V)) -> bool {
    |entry: (Seq<char>, V)| entry.0 == key
}

proof fn lemma_placed_under<V>(
    entries: Seq<(Seq<char>, V)>,
    entry: (Seq<char>, V),
    key: Seq<char>,
)
    ensures
        entry_placed(entries, entry).filter(is_under::<V>(key)) == entries.push(entry).filter(
            is_under::<V>(key),
        ),
    decreases entries.len(),
{
    reveal(Seq::filter);
    let under = is_under::<V>(key);
    if entries.len() > 0 && !text_le(entries.last().0, entry.0) {
        let (init, last) = (entries.drop_last(), entries.last());
        lemma_placed_under(init, entry, key);
        lemma_lex_total(encode_utf8(entry.0), encode_utf8(entry.0));
        assert(last.0 != entry.0);
        let before = entry_placed(init, entry);
        assert(entry_placed(entries, entry) == before.push(last));
        assert(before.push(last).drop_last() =~= before);
        assert(init.push(entry).drop_last() =~= init);
        assert(entries.push(entry).drop_last() =~= entries);
        if under(entry) {
            assert(before.push(last).filter(under) == init.filter(under).push(entry));
            assert(entries.push(entry).filter(under) == entries.filter(under).push(entry));
        } else if under(last) {
            assert(before.push(last).filter(under) == init.filter(under).push(last));
            assert(entries.push(entry).filter(under) == entries.filter(under));
        } else {
            assert(before.push(last).filter(under) == init.filter(under));
            assert(entries.push(entry).filter(under) == entries.filter(under));
            assert(entries.filter(under) == init.filter(under));
        }
    }
}

/// Entries with the same key keep their order.
pub proof fn law_entries_of_one_key_keep_order<V>(entries: Seq<(Seq<char>, V)>, key: Seq<char>)
    ensures
        by_key(entries).filter(is_under::<V>(key)) == entries.filter(is_under::<V>(key)),
    decreases entries.len(),
{
    reveal(Seq::filter);
    if entries.len() > 0 {
        let before = by_key(entries.drop_last());
        law_entries_of_one_key_keep_order(entries.drop_last(), key);
        lemma_placed_under(before, entries.last(), key);
        assert(before.push(entries.last()).drop_last() =~= before);
    }
}

} // verus!
