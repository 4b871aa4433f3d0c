use itertools::Itertools;
use vstd::prelude::*;

verus! {

/// `perm` lists each of `0..keys.len()` once, ordered by key, positions with
/// equal keys in the order they come in: the order a stable sort by key puts
/// the items in.
pub open spec fn is_stable_order(keys: Seq<u64>, perm: Seq<usize>) -> bool {
    &&& perm.len() == keys.len()
    &&& forall|i: int| 0 <= i < perm.len() ==> (#[trigger] perm[i] as int) < keys.len()
    &&& forall|i: int, j: int| 0 <= i < j < perm.len() ==> perm[i] != perm[j]
    &&& forall|i: int, j: int| 0 <= i < j < perm.len() ==> {
        ||| keys[perm[i] as int] < keys[perm[j] as int]
        ||| (keys[perm[i] as int] == keys[perm[j] as int] && perm[i] < perm[j])
    }
}

/// The positions of `keys` in the order `Itertools::sorted_by_key`, a stable
/// sort, puts them.
#[verifier::external_body]
pub(crate) fn sorted_positions_by_key(keys: &Vec<u64>) -> (r: Vec<usize>)
    ensures
        is_stable_order(keys@, r@),
{
    (0..keys.len()).sorted_by_key(|i| keys[*i]).collect()
}

/// Sorts the positions `0..keys.len()` by their keys with `slice::sort_by_key`,
/// a stable sort.
#[verifier::external_body]
pub(crate) fn sort_positions_by_key(positions: &mut Vec<usize>, keys: &Vec<u64>)
    requires
        old(positions)@ == Seq::new(keys@.len(), |i: int| i as usize),
    ensures
        is_stable_order(keys@, final(positions)@),
{
    positions.sort_by_key(|i| keys[*i]);
}

/// `s` with every repeated item left out, first occurrences kept in order.
pub open spec fn dedup(s: Seq<u32>) -> Seq<u32>
    decreases s.len(),
{
    if s.len() == 0 {
        s
    } else {
        let d = dedup(s.drop_last());
        if d.contains(s.last()) {
            d
        } else {
            d.push(s.last())
        }
    }
}

/// The distinct items of `v` in order of first occurrence (`Itertools::unique`).
#[verifier::external_body]
pub(crate) fn unique_u32(v: &Vec<u32>) -> (r: Vec<u32>)
    ensures
        r@ == dedup(v@),
{
    v.iter().copied().unique().collect()
}

} // verus!
