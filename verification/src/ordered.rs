//! The keys of ordered maps, in order.

use std::collections::BTreeMap;
use vstd::laws_cmp::obeys_cmp;
use vstd::prelude::*;
use vstd::std_specs::iter::IteratorSpec;
use vstd::std_specs::btree::{increasing_seq, spec_keys_iter};
use vstd::std_specs::cmp::OrdSpec;

verus! {

/// Every item is smaller than all items behind it.
pub open spec fn increasing(keys: Seq<u128>) -> bool {
    forall|i: int, j: int| 0 <= i < j < keys.len() ==> keys[i] < keys[j]
}

/// The keys of a map, smallest first.
pub(crate) fn keys_in_order<V>(map: &BTreeMap<u128, V>) -> (keys: Vec<u128>)
    ensures
        increasing(keys@),
        forall|k: u128| #[trigger] keys@.contains(k) <==> map@.contains_key(k),
{
    let ghost all = spec_keys_iter(map).remaining();
    let mut keys: Vec<u128> = Vec::new();
    for key in it: map.keys()
        invariant
            it.seq() == all,
            keys@ == all.unref().take(it.index()),
    {
        keys.push(*key);
    }
    proof {
        assert(keys@ =~= all.unref());
        assert(obeys_cmp::<&u128>());
        assert(increasing_seq(all));
        assert forall|i: int, j: int| 0 <= i < j < keys.len() implies keys[i] < keys[j] by {
            assert(OrdSpec::cmp_spec(&all[i], &all[j]) is Less);
        }
        assert forall|k: u128| #[trigger] keys@.contains(k) <==> map@.contains_key(k) by {
            assert(keys@.to_set().contains(k) <==> map@.dom().contains(k));
        }
    }
    keys
}

} // verus!
