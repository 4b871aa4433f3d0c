use crate::indices::{packed_in_key_order, CuttleIndices};
use vstd::prelude::*;

verus! {

/// Appends the packed component indices of one entity to the buffer of all
/// entities' indices and returns the range they occupy.
pub fn extract_indices(buffer: &mut Vec<u32>, indices: &CuttleIndices) -> (r: (u32, u32))
    requires
        old(buffer)@.len() + indices.indices@.dom().len() <= u32::MAX,
    ensures
        r.0 == old(buffer)@.len(),
        r.1 == old(buffer)@.len() + indices.indices@.dom().len(),
        final(buffer)@.len() == r.1,
        final(buffer)@.take(r.0 as int) == old(buffer)@,
        exists|ks: Seq<u16>| #[trigger] packed_in_key_order(indices.indices@, final(buffer)@.skip(r.0 as int), ks),
{
    let start = buffer.len();
    let mut packed = indices.iter_as_packed_u32s();
    let ghost p = packed@;
    buffer.append(&mut packed);
    let end = buffer.len();
    assert(buffer@.take(start as int) =~= old(buffer)@);
    assert(buffer@.skip(start as int) =~= p);
    (start as u32, end as u32)
}

} // verus!
