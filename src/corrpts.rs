use vstd::prelude::*;
use crate::pointcloud::retain_flagged;
use crate::selection::{all_below, all_positions, lemma_masked, masked, positions, strictly_increasing};

verus! {

/// The positions of the correspondences that the rejector keeps, given one
/// keep flag per correspondence.
pub fn kept_indices(keep: &Vec<bool>) -> (r: Vec<usize>)
    ensures
        r@ == masked(all_positions(keep@.len()), keep@),
        strictly_increasing(r@),
        all_below(r@, keep@.len()),
{
    let all = positions(keep.len());
    let r = retain_flagged(&all, keep);
    proof {
        assert(strictly_increasing(all@));
        lemma_masked(all@, keep@);
        assert forall|i: int| 0 <= i < r@.len() implies (#[trigger] r@[i] as int) < keep@.len()
            by {
            assert(all@.contains(r@[i]));
        }
    }
    r
}

} // verus!
