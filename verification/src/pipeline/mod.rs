pub mod extract;
pub mod queue;

use vstd::prelude::*;

verus! {

/// The sum of the first `n` entries of `lens`.
pub open spec fn prefix_sum(lens: Seq<usize>, n: int) -> int
    decreases n,
{
    if n <= 0 {
        0
    } else {
        prefix_sum(lens, n - 1) + lens[n - 1]
    }
}

proof fn lemma_prefix_sum_monotone(lens: Seq<usize>, a: int, b: int)
    requires
        0 <= a <= b <= lens.len(),
    ensures
        prefix_sum(lens, a) <= prefix_sum(lens, b),
    decreases b - a,
{
    if a < b {
        lemma_prefix_sum_monotone(lens, a, b - 1);
    }
}

/// Where the component indices of each instance start in the buffer that
/// holds the indices of all instances one after the other, given how many
/// indices each instance has.
pub fn instance_starts(lens: &Vec<usize>) -> (r: Vec<u32>)
    requires
        prefix_sum(lens@, lens@.len() as int) <= u32::MAX,
    ensures
        r@.len() == lens@.len(),
        forall|i: int| 0 <= i < r@.len() ==> #[trigger] r@[i] == prefix_sum(lens@, i),
{
    let mut r: Vec<u32> = Vec::new();
    let mut total: u32 = 0;
    let mut i: usize = 0;
    while i < lens.len()
        invariant
            i <= lens@.len(),
            prefix_sum(lens@, lens@.len() as int) <= u32::MAX,
            total == prefix_sum(lens@, i as int),
            r@.len() == i,
            forall|k: int| 0 <= k < i ==> #[trigger] r@[k] == prefix_sum(lens@, k),
        decreases lens@.len() - i,
    {
        r.push(total);
        proof {
            lemma_prefix_sum_monotone(lens@, i + 1, lens@.len() as int);
        }
        total = total + lens[i] as u32;
        i = i + 1;
    }
    r
}

/// The bindings whose buffers hold data, in order, as bind group slots
/// (`as u32`, keeping the low 32 bits).
pub open spec fn bindings_with_data_spec(bindings: Seq<usize>, empty: Seq<bool>) -> Seq<u32>
    decreases bindings.len(),
{
    if bindings.len() == 0 {
        Seq::empty()
    } else {
        let rest = bindings_with_data_spec(bindings.drop_last(), empty);
        if empty[bindings.last() as int] {
            rest
        } else {
            rest.push(bindings.last() as u32)
        }
    }
}

/// The bindings of a pipeline whose buffers are not empty, which are the
/// ones its bind group holds.
pub fn bindings_with_data(bindings: &Vec<usize>, empty: &Vec<bool>) -> (r: Vec<u32>)
    requires
        forall|k: int| 0 <= k < bindings@.len() ==> (#[trigger] bindings@[k] as int) < empty@.len(),
    ensures
        r@ == bindings_with_data_spec(bindings@, empty@),
{
    let mut r: Vec<u32> = Vec::new();
    let mut i: usize = 0;
    while i < bindings.len()
        invariant
            i <= bindings@.len(),
            forall|k: int| 0 <= k < bindings@.len() ==> (#[trigger] bindings@[k] as int) < empty@.len(),
            r@ == bindings_with_data_spec(bindings@.take(i as int), empty@),
        decreases bindings@.len() - i,
    {
        assert(bindings@.take(i + 1).drop_last() =~= bindings@.take(i as int));
        let b = bindings[i];
        if !empty[b] {
            r.push(b as u32);
        }
        i = i + 1;
    }
    assert(bindings@.take(bindings@.len() as int) =~= bindings@);
    r
}

} // verus!
