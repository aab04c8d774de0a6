//! Sorting by an order on views.

use vstd::prelude::*;

use crate::text::{
    lemma_precedes_asymmetric, lemma_precedes_total, lemma_precedes_transitive, precedes,
    text_precedes,
};

verus! {

/// Values whose views have a strict total order.
pub trait Ordered: View + Sized {
    /// Whether the view `a` comes before the view `b`.
    spec fn before(a: Self::V, b: Self::V) -> bool;

    /// Decides whether `self` comes before `other`.
    fn is_before(&self, other: &Self) -> (yes: bool)
        ensures
            yes == Self::before(self@, other@),
    ;

    /// Of two different views one comes before the other, and not both.
    proof fn order_is_total(a: Self::V, b: Self::V)
        ensures
            a != b ==> Self::before(a, b) || Self::before(b, a),
            !(Self::before(a, b) && Self::before(b, a)),
    ;

    /// What comes before something comes before what follows it.
    proof fn order_is_transitive(a: Self::V, b: Self::V, c: Self::V)
        requires
            Self::before(a, b),
            Self::before(b, c),
        ensures
            Self::before(a, c),
    ;
}

impl Ordered for String {
    open spec fn before(a: Seq<char>, b: Seq<char>) -> bool {
        precedes(a, b)
    }

    fn is_before(&self, other: &String) -> (yes: bool) {
        text_precedes(self.as_str(), other.as_str())
    }

    proof fn order_is_total(a: Seq<char>, b: Seq<char>) {
        lemma_precedes_total(a, b);
        lemma_precedes_asymmetric(a, b);
    }

    proof fn order_is_transitive(a: Seq<char>, b: Seq<char>, c: Seq<char>) {
        lemma_precedes_transitive(a, b, c);
    }
}

/// The views of a sequence of values.
pub open spec fn views<T: View>(items: Seq<T>) -> Seq<T::V> {
    items.map_values(|item: T| item@)
}

/// Whether no view comes before one that stands earlier.
pub open spec fn in_order<T: Ordered>(items: Seq<T::V>) -> bool {
    forall|i: int, j: int|
        0 <= i < j < items.len() ==> !T::before(#[trigger] items[j], #[trigger] items[i])
}

/// Whether `b` is `a` in sorted order.
pub open spec fn is_sort_of<T: Ordered>(a: Seq<T::V>, b: Seq<T::V>) -> bool {
    &&& in_order::<T>(b)
    &&& a.to_multiset() == b.to_multiset()
}

/// Inserts an item before the first that does not come before it.
fn insert_sorted<T: Ordered>(items: &mut Vec<T>, item: T)
    requires
        in_order::<T>(views(old(items)@)),
    ensures
        in_order::<T>(views(final(items)@)),
        views(final(items)@).to_multiset() == views(old(items)@).to_multiset().insert(item@),
{
    let ghost before = views(items@);
    let mut i: usize = 0;
    while i < items.len() && items[i].is_before(&item)
        invariant
            i <= items@.len(),
            items@ == old(items)@,
            before == views(items@),
            forall|j: int| 0 <= j < i ==> T::before(#[trigger] before[j], item@),
        decreases items@.len() - i,
    {
        assert(before[i as int] == items@[i as int]@);
        i += 1;
    }
    let ghost added = item@;
    items.insert(i, item);
    proof {
        let after = views(items@);
        assert(after =~= before.insert(i as int, added));
        vstd::seq_lib::to_multiset_insert(before, i as int, added);
        assert forall|j: int, k: int| 0 <= j < k < after.len() implies !T::before(
            #[trigger] after[k],
            #[trigger] after[j],
        ) by {
            if k == i {
                T::order_is_total(after[j], added);
                assert(after[j] == before[j]);
            } else if j == i {
                assert(after[k] == before[k - 1]);
                assert(before[i as int] == old(items)@[i as int]@);
                assert(!T::before(before[i as int], added));
                if T::before(after[k], added) {
                    if k - 1 > i {
                        assert(!T::before(before[k - 1], before[i as int]));
                        T::order_is_total(before[k - 1], before[i as int]);
                        if before[k - 1] != before[i as int] {
                            T::order_is_transitive(before[i as int], before[k - 1], added);
                        }
                    }
                }
            } else {
                let j0 = if j < i { j } else { j - 1 };
                let k0 = if k < i { k } else { k - 1 };
                assert(after[j] == before[j0]);
                assert(after[k] == before[k0]);
            }
        }
    }
}

/// Sorts items. Items with the same view stay in their order.
pub fn sorted<T: Ordered>(items: Vec<T>) -> (result: Vec<T>)
    ensures
        is_sort_of::<T>(views(items@), views(result@)),
{
    let mut rest = items;
    let mut result: Vec<T> = Vec::new();
    proof {
        views(rest@).to_multiset_ensures();
        views(result@).to_multiset_ensures();
        assert(views(result@).to_multiset() =~= vstd::multiset::Multiset::empty());
        assert(views(items@).to_multiset() =~= views(rest@).to_multiset().add(
            views(result@).to_multiset(),
        ));
    }
    while rest.len() > 0
        invariant
            in_order::<T>(views(result@)),
            views(items@).to_multiset() == views(rest@).to_multiset().add(
                views(result@).to_multiset(),
            ),
        decreases rest@.len(),
    {
        let ghost before = rest@;
        let ghost earlier = views(result@).to_multiset();
        let item = match rest.pop() {
            Some(item) => item,
            None => {
                return result;
            },
        };
        proof {
            assert(views(before) =~= views(rest@).push(item@));
            views(rest@).to_multiset_ensures();
        }
        insert_sorted(&mut result, item);
        proof {
            assert(views(rest@).to_multiset().insert(item@).add(earlier) =~= views(
                rest@,
            ).to_multiset().add(earlier.insert(item@)));
        }
    }
    proof {
        assert(views(rest@) =~= Seq::empty());
        views(rest@).to_multiset_ensures();
        assert(views(rest@).to_multiset() =~= vstd::multiset::Multiset::empty());
        assert(views(items@).to_multiset() =~= views(result@).to_multiset());
    }
    result
}

/// A sequence has one sorted order.
pub proof fn sorting_is_unique<T: Ordered>(a: Seq<T::V>, b: Seq<T::V>, c: Seq<T::V>)
    requires
        is_sort_of::<T>(a, b),
        is_sort_of::<T>(a, c),
    ensures
        b == c,
    decreases b.len(),
{
    b.to_multiset_ensures();
    c.to_multiset_ensures();
    assert(b.len() == c.len());
    if b.len() > 0 {
        let last = b.last();
        assert(b.to_multiset().contains(last));
        assert(c.to_multiset().contains(last));
        let i = choose|i: int| 0 <= i < c.len() && c[i] == last;
        assert(c.to_multiset().contains(c.last()));
        let j = choose|j: int| 0 <= j < b.len() && b[j] == c.last();
        T::order_is_total(last, c.last());
        if i < c.len() - 1 {
            assert(!T::before(c[c.len() - 1], c[i]));
        }
        if j < b.len() - 1 {
            assert(!T::before(b[b.len() - 1], b[j]));
        }
        assert(last == c.last());
        assert(b =~= b.drop_last().push(last));
        assert(c =~= c.drop_last().push(last));
        b.drop_last().to_multiset_ensures();
        c.drop_last().to_multiset_ensures();
        assert(b.drop_last().to_multiset() =~= b.to_multiset().remove(last));
        assert(c.drop_last().to_multiset() =~= c.to_multiset().remove(last));
        sorting_is_unique::<T>(b.drop_last(), b.drop_last(), c.drop_last());
    } else {
        assert(b =~= c);
    }
}

/// Texts that are in order stand from the first to the last: of two that
/// differ, the one that comes first in the order of texts stands first.
pub proof fn sorted_texts_ascend(items: Seq<Seq<char>>)
    requires
        in_order::<String>(items),
    ensures
        forall|i: int, j: int|
            0 <= i < j < items.len() ==> #[trigger] items[i] == #[trigger] items[j] || precedes(
                items[i],
                items[j],
            ),
{
    assert forall|i: int, j: int| 0 <= i < j < items.len() implies #[trigger] items[i]
        == #[trigger] items[j] || precedes(items[i], items[j]) by {
        lemma_precedes_total(items[i], items[j]);
        assert(!String::before(items[j], items[i]));
    }
}

/// Sorting keeps every item as often as it is there, and adds none.
pub proof fn sorting_keeps_the_items<T: Ordered>(a: Seq<T::V>, b: Seq<T::V>, item: T::V)
    requires
        is_sort_of::<T>(a, b),
    ensures
        a.len() == b.len(),
        a.contains(item) <==> b.contains(item),
        a.to_multiset().count(item) == b.to_multiset().count(item),
{
    a.to_multiset_ensures();
    b.to_multiset_ensures();
    assert(a.to_multiset().count(item) > 0 <==> a.contains(item));
    assert(b.to_multiset().count(item) > 0 <==> b.contains(item));
}

} // verus!
