//! The order of byte strings.

use vstd::prelude::*;

verus! {

/// Whether a byte string comes before another in dictionary order, or is the same.
pub open spec fn lex_le(a: Seq<u8>, b: Seq<u8>) -> bool
    decreases a.len(),
{
    if a.len() == 0 {
        true
    } else if b.len() == 0 {
        false
    } else if a[0] != b[0] {
        a[0] < b[0]
    } else {
        lex_le(a.drop_first(), b.drop_first())
    }
}

/// A common prefix does not matter to the order.
proof fn lemma_common_prefix(a: Seq<u8>, b: Seq<u8>, n: int)
    requires
        0 <= n <= a.len(),
        n <= b.len(),
        forall|i: int| 0 <= i < n ==> a[i] == b[i],
    ensures
        lex_le(a, b) == lex_le(a.skip(n), b.skip(n)),
    decreases n,
{
    if n > 0 {
        lemma_common_prefix(a.drop_first(), b.drop_first(), n - 1);
        assert(a.drop_first().skip(n - 1) =~= a.skip(n));
        assert(b.drop_first().skip(n - 1) =~= b.skip(n));
    } else {
        assert(a.skip(0) =~= a);
        assert(b.skip(0) =~= b);
    }
}

/// Whether a byte string comes before another in dictionary order, or is the same.
pub fn bytes_le(a: &[u8], b: &[u8]) -> (le: bool)
    ensures
        le == lex_le(a@, b@),
{
    let n: usize = if a.len() <= b.len() {
        a.len()
    } else {
        b.len()
    };
    for i in 0..n
        invariant
            n <= a@.len(),
            n <= b@.len(),
            forall|j: int| 0 <= j < i ==> a@[j] == b@[j],
    {
        if a[i] != b[i] {
            proof {
                lemma_common_prefix(a@, b@, i as int);
                assert(a@.skip(i as int)[0] == a@[i as int]);
                assert(b@.skip(i as int)[0] == b@[i as int]);
            }
            return a[i] < b[i];
        }
    }
    proof {
        lemma_common_prefix(a@, b@, n as int);
    }
    a.len() <= b.len()
}

/// The order is total: of two byte strings, one comes before the other or is the same.
pub proof fn lemma_lex_total(a: Seq<u8>, b: Seq<u8>)
    ensures
        lex_le(a, b) || lex_le(b, a),
    decreases a.len(),
{
    if a.len() > 0 && b.len() > 0 && a[0] == b[0] {
        lemma_lex_total(a.drop_first(), b.drop_first());
    }
}

/// The order is transitive.
pub proof fn lemma_lex_transitive(a: Seq<u8>, b: Seq<u8>, c: Seq<u8>)
    requires
        lex_le(a, b),
        lex_le(b, c),
    ensures
        lex_le(a, c),
    decreases a.len(),
{
    if a.len() > 0 && b.len() > 0 && c.len() > 0 && a[0] == b[0] && b[0] == c[0] {
        lemma_lex_transitive(a.drop_first(), b.drop_first(), c.drop_first());
    }
}

/// The order is that of a dictionary: a byte string comes before those that it begins, and before
/// those that have a greater byte where the two first differ.
pub proof fn law_dictionary_order(a: Seq<u8>, b: Seq<u8>)
    ensures
        lex_le(a, b) <==> (a.len() <= b.len() && a == b.take(a.len() as int)) || exists|i: int|
            0 <= i < a.len() && i < b.len() && #[trigger] a[i] < b[i] && a.take(i) == b.take(i),
        lex_le(a, b) && lex_le(b, a) ==> a == b,
    decreases a.len(),
{
    if a.len() == 0 {
        assert(b.take(0) =~= a);
        if lex_le(b, a) {
            assert(b.len() == 0);
            assert(a =~= b);
        }
    } else if b.len() > 0 {
        let (x, y) = (a.drop_first(), b.drop_first());
        law_dictionary_order(x, y);
        if a[0] == b[0] {
            if x == y.take(x.len() as int) && x.len() <= y.len() {
                assert forall|i: int| 0 <= i < a.len() implies #[trigger] a[i]
                    == b.take(a.len() as int)[i] by {
                    if i > 0 {
                        assert(x[i - 1] == y.take(x.len() as int)[i - 1]);
                    }
                }
                assert(a =~= b.take(a.len() as int));
            }
            if a.len() <= b.len() && a == b.take(a.len() as int) {
                assert forall|i: int| 0 <= i < x.len() implies #[trigger] x[i]
                    == y.take(x.len() as int)[i] by {
                    assert(a[i + 1] == b.take(a.len() as int)[i + 1]);
                }
                assert(x =~= y.take(x.len() as int));
            }
            if exists|i: int|
                0 <= i < x.len() && i < y.len() && #[trigger] x[i] < y[i] && x.take(i) == y.take(i) {
                let i = choose|i: int|
                    0 <= i < x.len() && i < y.len() && #[trigger] x[i] < y[i] && x.take(i) == y.take(
                        i,
                    );
                assert forall|k: int| 0 <= k < i + 1 implies #[trigger] a.take(i + 1)[k]
                    == b.take(i + 1)[k] by {
                    if k > 0 {
                        assert(x.take(i)[k - 1] == y.take(i)[k - 1]);
                    }
                }
                assert(a.take(i + 1) =~= b.take(i + 1));
                assert(a[i + 1] < b[i + 1]);
            }
            if exists|i: int|
                0 <= i < a.len() && i < b.len() && #[trigger] a[i] < b[i] && a.take(i) == b.take(i) {
                let i = choose|i: int|
                    0 <= i < a.len() && i < b.len() && #[trigger] a[i] < b[i] && a.take(i) == b.take(
                        i,
                    );
                assert(i > 0);
                assert forall|k: int| 0 <= k < i - 1 implies #[trigger] x.take(i - 1)[k]
                    == y.take(i - 1)[k] by {
                    assert(a.take(i)[k + 1] == b.take(i)[k + 1]);
                }
                assert(x.take(i - 1) =~= y.take(i - 1));
                assert(x[i - 1] < y[i - 1]);
            }
            if x == y {
                assert forall|i: int| 0 <= i < a.len() implies #[trigger] a[i] == b[i] by {
                    if i > 0 {
                        assert(x[i - 1] == y[i - 1]);
                    }
                }
                assert(a.len() == x.len() + 1 && b.len() == y.len() + 1);
                assert(a =~= b);
            }
        } else {
            if a[0] < b[0] {
                assert(a.take(0) =~= b.take(0));
            }
            if a.len() <= b.len() && a == b.take(a.len() as int) {
                assert(a[0] == b.take(a.len() as int)[0]);
            }
            if exists|i: int|
                0 <= i < a.len() && i < b.len() && #[trigger] a[i] < b[i] && a.take(i) == b.take(i) {
                let i = choose|i: int|
                    0 <= i < a.len() && i < b.len() && #[trigger] a[i] < b[i] && a.take(i) == b.take(
                        i,
                    );
                if i > 0 {
                    assert(a.take(i)[0] == b.take(i)[0]);
                }
            }
        }
    }
}

} // verus!
