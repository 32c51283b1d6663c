//! The order in which texts are sorted.

use vstd::prelude::*;
use vstd::relations::*;

use crate::text;

verus! {

/// Whether `a` comes before `b` or equals it, when texts are ordered
/// character by character and a prefix comes first.
pub open spec fn text_le(a: Seq<char>, b: Seq<char>) -> bool
    decreases a.len(),
{
    if a.len() == 0 {
        true
    } else if b.len() == 0 {
        false
    } else if a[0] == b[0] {
        text_le(a.drop_first(), b.drop_first())
    } else {
        a[0] < b[0]
    }
}

/// [`text_le`] as a relation.
pub open spec fn text_order() -> spec_fn(Seq<char>, Seq<char>) -> bool {
    |a: Seq<char>, b: Seq<char>| text_le(a, b)
}

/// `list` in ascending order.
pub open spec fn ascending(list: Seq<Seq<char>>) -> Seq<Seq<char>> {
    list.sort_by(text_order())
}

proof fn lemma_text_le_total(a: Seq<char>, b: Seq<char>)
    ensures
        text_le(a, a),
        text_le(a, b) || text_le(b, a),
        text_le(a, b) && text_le(b, a) ==> a == b,
    decreases a.len(),
{
    if a.len() > 0 {
        lemma_text_le_total(a.drop_first(), a.drop_first());
        if b.len() > 0 {
            lemma_text_le_total(a.drop_first(), b.drop_first());
            if a[0] == b[0] && a.drop_first() == b.drop_first() {
                assert(a =~= seq![a[0]] + a.drop_first());
                assert(b =~= seq![b[0]] + b.drop_first());
            }
        }
    } else if b.len() == 0 {
        assert(a =~= b);
    }
}

proof fn lemma_text_le_transitive(a: Seq<char>, b: Seq<char>, c: Seq<char>)
    requires
        text_le(a, b),
        text_le(b, c),
    ensures
        text_le(a, c),
    decreases a.len(),
{
    if a.len() > 0 && a[0] == b[0] && b[0] == c[0] {
        lemma_text_le_transitive(a.drop_first(), b.drop_first(), c.drop_first());
    }
}

/// Texts are totally ordered.
pub proof fn lemma_text_order_is_total()
    ensures
        total_ordering(text_order()),
{
    let r = text_order();
    assert forall|a: Seq<char>| #[trigger] r(a, a) by {
        lemma_text_le_total(a, a);
    }
    assert forall|a: Seq<char>, b: Seq<char>| #[trigger] r(a, b) && #[trigger] r(b, a) implies a
        == b by {
        lemma_text_le_total(a, b);
    }
    assert forall|a: Seq<char>, b: Seq<char>, c: Seq<char>| #[trigger]
        r(a, b) && #[trigger] r(b, c) implies r(a, c) by {
        lemma_text_le_transitive(a, b, c);
    }
    assert forall|a: Seq<char>, b: Seq<char>| #[trigger] r(a, b) || #[trigger] r(b, a) by {
        lemma_text_le_total(a, b);
    }
    assert(reflexive(r));
    assert(antisymmetric(r));
    assert(transitive(r));
    assert(strongly_connected(r));
}

/// A sorted list with the items of `list` is `list` in ascending order.
pub proof fn lemma_ascending_is_unique(list: Seq<Seq<char>>, sorted: Seq<Seq<char>>)
    requires
        sorted_by(sorted, text_order()),
        sorted.to_multiset() == list.to_multiset(),
    ensures
        sorted == ascending(list),
{
    lemma_text_order_is_total();
    list.lemma_sort_by_ensures(text_order());
    vstd::seq_lib::lemma_sorted_unique(sorted, ascending(list), text_order());
}

/// The order in which the items of a list stand has no influence on the
/// sorted list.
pub proof fn lemma_ascending_ignores_order(a: Seq<Seq<char>>, b: Seq<Seq<char>>)
    requires
        a.to_multiset() == b.to_multiset(),
    ensures
        ascending(a) == ascending(b),
{
    lemma_text_order_is_total();
    a.lemma_sort_by_ensures(text_order());
    lemma_ascending_is_unique(b, ascending(a));
}

/// Calls `<[String]>::sort_unstable`, which puts the strings in ascending
/// order. Strings are ordered lexicographically by their characters' positions
/// in the code charts, and no string is lost, added or changed.
#[verifier::external_body]
pub(crate) fn sort_texts(list: &mut Vec<String>)
    ensures
        sorted_by(text::texts(final(list)@), text_order()),
        text::texts(final(list)@).to_multiset() == text::texts(old(list)@).to_multiset(),
{
    list.sort_unstable();
}

/// A text comes before another one or equals it if and only if it is the
/// beginning of the other, or has the smaller character at the first place
/// where they differ.
pub proof fn law_order_goes_by_first_difference(a: Seq<char>, b: Seq<char>)
    ensures
        text_le(a, b) <==> {
            ||| a.len() <= b.len() && b.take(a.len() as int) == a
            ||| exists|k: int|
                0 <= k < a.len() && k < b.len() && a.take(k) == b.take(k) && #[trigger] a[k]
                    < #[trigger] b[k]
        },
    decreases a.len(),
{
    if a.len() == 0 {
        assert(b.take(0) =~= a);
    } else if b.len() > 0 {
        let x = a.drop_first();
        let y = b.drop_first();
        if a[0] == b[0] {
            law_order_goes_by_first_difference(x, y);
            if a.len() <= b.len() && b.take(a.len() as int) == a {
                assert(y.take(x.len() as int) =~= b.take(a.len() as int).drop_first());
            }
            if x.len() <= y.len() && y.take(x.len() as int) == x {
                assert forall|i: int| 0 <= i < a.len() implies a[i] == b[i] by {
                    if i > 0 {
                        assert(x[i - 1] == y.take(x.len() as int)[i - 1]);
                    }
                }
                assert(b.take(a.len() as int) =~= a);
            }
            if exists|k: int|
                0 <= k < x.len() && k < y.len() && x.take(k) == y.take(k) && #[trigger] x[k]
                    < #[trigger] y[k] {
                let k = choose|k: int|
                    0 <= k < x.len() && k < y.len() && x.take(k) == y.take(k) && #[trigger] x[k]
                        < #[trigger] y[k];
                assert forall|i: int| 0 <= i < k + 1 implies a[i] == b[i] by {
                    if i > 0 {
                        assert(x.take(k)[i - 1] == y.take(k)[i - 1]);
                    }
                }
                assert(a.take(k + 1) =~= b.take(k + 1));
                assert(a[k + 1] < b[k + 1]);
            }
            if exists|k: int|
                0 <= k < a.len() && k < b.len() && a.take(k) == b.take(k) && #[trigger] a[k]
                    < #[trigger] b[k] {
                let k = choose|k: int|
                    0 <= k < a.len() && k < b.len() && a.take(k) == b.take(k) && #[trigger] a[k]
                        < #[trigger] b[k];
                assert(k > 0);
                assert(x.take(k - 1) =~= a.take(k).drop_first());
                assert(y.take(k - 1) =~= b.take(k).drop_first());
                assert(x[k - 1] < y[k - 1]);
            }
        } else {
            if a.len() <= b.len() && b.take(a.len() as int) == a {
                assert(b.take(a.len() as int)[0] == b[0]);
            }
            if a[0] < b[0] {
                assert(a.take(0) =~= b.take(0));
            }
            if exists|k: int|
                0 <= k < a.len() && k < b.len() && a.take(k) == b.take(k) && #[trigger] a[k]
                    < #[trigger] b[k] {
                let k = choose|k: int|
                    0 <= k < a.len() && k < b.len() && a.take(k) == b.take(k) && #[trigger] a[k]
                        < #[trigger] b[k];
                if k > 0 {
                    assert(a.take(k)[0] == b.take(k)[0]);
                }
            }
        }
    } else {
        assert(b.len() == 0);
    }
}

/// Sorting keeps all texts, however often they occur, and leaves none before a
/// smaller one.
pub proof fn law_sorting_orders_all_texts(list: Seq<Seq<char>>)
    ensures
        ascending(list).to_multiset() == list.to_multiset(),
        ascending(list).len() == list.len(),
        forall|i: int, j: int|
            0 <= i < j < ascending(list).len() ==> text_le(
                #[trigger] ascending(list)[i],
                #[trigger] ascending(list)[j],
            ),
{
    lemma_text_order_is_total();
    list.lemma_sort_by_ensures(text_order());
    vstd::seq_lib::to_multiset_len(list);
    vstd::seq_lib::to_multiset_len(ascending(list));
    let r = text_order();
    assert forall|i: int, j: int| 0 <= i < j < ascending(list).len() implies text_le(
        #[trigger] ascending(list)[i],
        #[trigger] ascending(list)[j],
    ) by {
        assert(r(ascending(list)[i], ascending(list)[j]));
    }
}

} // verus!
