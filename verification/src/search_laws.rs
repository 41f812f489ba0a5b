//! What searches find, and what they are charged for.

use crate::search::{
    total_size, PendingVectorSearch, PublicVectorSearchQueryResult, VectorEgress,
    VectorSearchResult,
};
use vstd::prelude::*;

verus! {

proof fn lemma_total_is_sum(sizes: Seq<u64>)
    ensures
        total_size(sizes) == sizes.fold_left(0, |sum: int, size: u64| sum + size),
    decreases sizes.len(),
{
    reveal(Seq::fold_left);
    if sizes.len() > 0 {
        lemma_total_is_sum(sizes.drop_last());
    }
}

/// A search is charged, under the name of its table, for the sizes of all of its results
/// together.
pub proof fn law_searches_are_charged_for_all_results(
    search: PendingVectorSearch,
    sizes: Vec<u64>,
    egress: VectorEgress,
)
    requires
        call_ensures(PendingVectorSearch::egress, (search, &sizes), egress),
    ensures
        egress.size == sizes@.fold_left(0, |sum: int, size: u64| sum + size),
        egress.table_name@ == search.table_name.name@,
        !egress.is_system,
{
    lemma_total_is_sum(sizes@);
}

/// One more result is charged for with its size.
pub proof fn law_one_more_result(sizes: Seq<u64>, size: u64)
    ensures
        total_size(sizes.push(size)) == total_size(sizes) + size,
        total_size(Seq::empty()) == 0,
{
    assert(sizes.push(size).drop_last() =~= sizes);
}

/// All that was found is told, in the same order and with the same scores, as documents of
/// the table with the number of the search.
pub proof fn law_all_that_was_found_is_told<S>(
    search: PendingVectorSearch,
    found: Vec<VectorSearchResult<S>>,
    results: Vec<PublicVectorSearchQueryResult<S>>,
    i: int,
)
    requires
        call_ensures(PendingVectorSearch::public_results, (&search, found), results),
    ensures
        results@.len() == found@.len(),
        0 <= i < found@.len() ==> {
            &&& results@[i].id.internal_id == found@[i].id
            &&& results@[i].id.table_number == search.table_number
            &&& results@[i].score == found@[i].score
        },
{
}

} // verus!
