use vstd::prelude::*;

verus! {

/// The identities of the workers a pool of size `num_workers` spawns: `0`
/// up to `num_workers - 1`, in spawn order. Spawning itself is the
/// caller's business.
pub fn worker_ids(num_workers: u64) -> (r: Vec<u64>)
    ensures
        r@.len() == num_workers,
        forall|i: int| 0 <= i < r@.len() ==> r@[i] == i,
{
    let mut ids: Vec<u64> = Vec::new();
    let mut w: u64 = 0;
    while w < num_workers
        invariant
            w <= num_workers,
            ids@.len() == w,
            forall|i: int| 0 <= i < w ==> ids@[i] == i,
        decreases num_workers - w,
    {
        ids.push(w);
        w = w + 1;
    }
    ids
}

} // verus!
