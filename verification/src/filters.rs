//! What filters leave of sequences.

use vstd::prelude::*;

verus! {

/// What a filter leaves, from the last item back.
pub proof fn lemma_filter_last<A>(items: Seq<A>, p: spec_fn(A) -> bool)
    ensures
        items.len() == 0 ==> items.filter(p).len() == 0,
        items.len() > 0 && p(items.last()) ==> items.filter(p) == items.drop_last().filter(p).push(
            items.last(),
        ),
        items.len() > 0 && !p(items.last()) ==> items.filter(p) == items.drop_last().filter(p),
{
    reveal(Seq::filter);
}

/// A filter that lets no item through leaves nothing.
pub proof fn lemma_filters_all<A>(items: Seq<A>, p: spec_fn(A) -> bool)
    requires
        forall|i: int| 0 <= i < items.len() ==> !p(#[trigger] items[i]),
    ensures
        items.filter(p).len() == 0,
    decreases items.len(),
{
    reveal(Seq::filter);
    if items.len() > 0 {
        let front = items.drop_last();
        assert(forall|i: int| 0 <= i < front.len() ==> front[i] == #[trigger] items[i]);
        assert(!p(items[items.len() - 1]));
        lemma_filters_all(front, p);
    }
}

/// A filter that lets every item through leaves them all.
pub proof fn lemma_filters_nothing<A>(items: Seq<A>, p: spec_fn(A) -> bool)
    requires
        forall|i: int| 0 <= i < items.len() ==> p(#[trigger] items[i]),
    ensures
        items.filter(p) == items,
    decreases items.len(),
{
    lemma_filter_last(items, p);
    if items.len() > 0 {
        let front = items.drop_last();
        assert(forall|i: int| 0 <= i < front.len() ==> front[i] == #[trigger] items[i]);
        assert(p(items[items.len() - 1]));
        lemma_filters_nothing(front, p);
        assert(front.push(items.last()) =~= items);
    } else {
        assert(items.filter(p) =~= items);
    }
}

/// What a filter leaves are items that it lets through.
pub proof fn lemma_filtered_is_item<A>(items: Seq<A>, p: spec_fn(A) -> bool, k: int) -> (i: int)
    requires
        0 <= k < items.filter(p).len(),
    ensures
        0 <= i < items.len(),
        items[i] == items.filter(p)[k],
        p(items[i]),
    decreases items.len(),
{
    reveal(Seq::filter);
    let front = items.drop_last();
    if k < front.filter(p).len() {
        let i = lemma_filtered_is_item(front, p, k);
        assert(front[i] == items[i]);
        i
    } else {
        items.len() - 1
    }
}

/// What a filter leaves of a longer sequence begins with what it leaves of the
/// beginning.
pub proof fn lemma_filter_front<A>(items: Seq<A>, p: spec_fn(A) -> bool, n: int)
    requires
        0 <= n <= items.len(),
    ensures
        items.filter(p) == items.take(n).filter(p) + items.skip(n).filter(p),
{
    Seq::filter_distributes_over_add(items.take(n), items.skip(n), p);
    assert(items.take(n) + items.skip(n) =~= items);
}

} // verus!
