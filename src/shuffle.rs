use rand::seq::SliceRandom;
use vstd::prelude::*;

use crate::teams::copy_range;

verus! {

/// Relies on rand's `SliceRandom::shuffle` (with `thread_rng`): a Fisher-Yates shuffle that
/// only swaps elements, so the names afterwards are the names before, in some order.
#[verifier::external_body]
fn shuffle_in_place(v: &mut Vec<String>)
    ensures
        final(v).deep_view().to_multiset() == old(v).deep_view().to_multiset(),
{
    v.shuffle(&mut rand::thread_rng());
}

/// A uniformly random reordering of `list`; `list` itself is kept as it was.
pub fn shuffle(list: &Vec<String>) -> (r: Vec<String>)
    ensures
        r.deep_view().to_multiset() == list.deep_view().to_multiset(),
        r.len() == list.len(),
        list.len() <= 1 ==> r.deep_view() == list.deep_view(),
{
    let mut r = copy_range(list, 0, list.len());
    assert(list.deep_view().subrange(0, list.len() as int) =~= list.deep_view());
    shuffle_in_place(&mut r);
    proof {
        let s = list.deep_view();
        let t = r.deep_view();
        s.to_multiset_ensures();
        t.to_multiset_ensures();
        vstd::seq_lib::to_multiset_len(s);
        vstd::seq_lib::to_multiset_len(t);
        if s.len() == 1 {
            assert(s.contains(s[0]));
            assert(s.to_multiset().count(s[0]) > 0);
            assert(t.to_multiset().count(s[0]) > 0);
            assert(t.contains(s[0]));
            assert(t =~= s);
        } else if s.len() == 0 {
            assert(t =~= s);
        }
    }
    r
}

} // verus!
