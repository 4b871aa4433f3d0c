use vstd::prelude::*;

verus! {

/// A run of phase items drawn with one draw call: the item that carries it
/// and how many items it covers.
#[derive(Debug, Clone, Copy, PartialEq, Eq, Structural)]
pub struct CuttleBatch {
    pub first: u32,
    pub count: u32,
}

impl CuttleBatch {
    /// The range of phase items the batch covers.
    pub open spec fn range_view(self) -> (int, int) {
        (self.first as int, self.first + self.count)
    }
}

/// The batches of a sorted phase, and the key of the batch still open, if
/// any. An item without data closes the open batch and joins none; an item
/// whose key differs from the open batch's opens a new batch; any other
/// item joins the open batch.
pub open spec fn batch_state(keys: Seq<Option<u64>>) -> (Seq<(int, int)>, Option<u64>)
    decreases keys.len(),
{
    if keys.len() == 0 {
        (Seq::empty(), None)
    } else {
        let (batches, open) = batch_state(keys.drop_last());
        let i = keys.len() - 1;
        match keys.last() {
            None => (batches, None),
            Some(k) => if open == Some(k) {
                let (first, count) = batches.last();
                (batches.update(batches.len() - 1, (first, count + 1)), open)
            } else {
                (batches.push((i, 1)), Some(k))
            },
        }
    }
}

/// The batches of a sorted phase whose items have the given keys.
pub open spec fn batches_of(keys: Seq<Option<u64>>) -> Seq<(int, int)> {
    batch_state(keys).0
}

/// The number of items that have a key.
pub open spec fn present_count(keys: Seq<Option<u64>>) -> nat
    decreases keys.len(),
{
    if keys.len() == 0 {
        0
    } else {
        present_count(keys.drop_last()) + if keys.last() is Some { 1nat } else { 0nat }
    }
}

/// The sum of the counts of `batches`.
pub open spec fn total_count(batches: Seq<(int, int)>) -> int
    decreases batches.len(),
{
    if batches.len() == 0 {
        0
    } else {
        total_count(batches.drop_last()) + batches.last().1
    }
}

/// Every batch covers at least one item, lies inside the phase, comes after
/// the one before it, and all the items it covers have the key of its first
/// item; the batch still open reaches the end of the phase.
pub open spec fn batches_well_formed(keys: Seq<Option<u64>>, batches: Seq<(int, int)>, open: Option<u64>) -> bool {
    &&& forall|b: int| 0 <= b < batches.len() ==> {
        let (first, count) = #[trigger] batches[b];
        &&& 0 <= first && 1 <= count && first + count <= keys.len()
        &&& keys[first] is Some
        &&& forall|j: int| first <= j < first + count ==> keys[j] == keys[first]
    }
    &&& forall|b: int, c: int| 0 <= b < c < batches.len() ==> (#[trigger] batches[b]).0 + batches[b].1 <= (#[trigger] batches[c]).0
    &&& open is Some ==> batches.len() > 0 && batches.last().0 + batches.last().1 == keys.len()
        && keys[batches.last().0] == open
    &&& open is None ==> batches.len() == 0 || batches.last().0 + batches.last().1 < keys.len()
    &&& forall|b: int| 0 <= b < batches.len() - 1 && (#[trigger] batches[b]).0 + batches[b].1 == batches[b + 1].0
        ==> keys[batches[b].0] != keys[batches[b + 1].0]
}

proof fn lemma_batch_state(keys: Seq<Option<u64>>)
    ensures
        batches_well_formed(keys, batch_state(keys).0, batch_state(keys).1),
        total_count(batch_state(keys).0) == present_count(keys),
    decreases keys.len(),
{
    if keys.len() > 0 {
        let prev = keys.drop_last();
        lemma_batch_state(prev);
        let (batches, open) = batch_state(prev);
        let i = keys.len() - 1;
        assert forall|j: int| 0 <= j < prev.len() implies keys[j] == prev[j] by {}
        match keys.last() {
            None => {}
            Some(k) => {
                if open == Some(k) {
                    let n = batches.len() - 1;
                    let (first, count) = batches.last();
                    let nb = batches.update(n, (first, count + 1));
                    assert(nb.drop_last() =~= batches.drop_last());
                    assert forall|b: int| 0 <= b < nb.len() implies {
                        let (f, c) = #[trigger] nb[b];
                        &&& 0 <= f && 1 <= c && f + c <= keys.len()
                        &&& keys[f] is Some
                        &&& forall|j: int| f <= j < f + c ==> keys[j] == keys[f]
                    } by {
                        if b == n {
                            assert forall|j: int| first <= j < first + count + 1 implies keys[j] == keys[first] by {
                                if j < first + count {
                                    assert(batches[n] == (first, count));
                                }
                            }
                        } else {
                            assert(nb[b] == batches[b]);
                        }
                    }
                    assert forall|b: int, c: int| 0 <= b < c < nb.len() implies (#[trigger] nb[b]).0 + nb[b].1 <= (#[trigger] nb[c]).0 by {
                        assert(batches[b] == nb[b]);
                        if c < n {
                            assert(batches[c] == nb[c]);
                        }
                    }
                } else {
                    let nb = batches.push((i, 1));
                    assert(nb.drop_last() =~= batches);
                    assert forall|b: int| 0 <= b < nb.len() implies {
                        let (f, c) = #[trigger] nb[b];
                        &&& 0 <= f && 1 <= c && f + c <= keys.len()
                        &&& keys[f] is Some
                        &&& forall|j: int| f <= j < f + c ==> keys[j] == keys[f]
                    } by {
                        if b < batches.len() {
                            assert(nb[b] == batches[b]);
                        }
                    }
                    assert forall|b: int, c: int| 0 <= b < c < nb.len() implies (#[trigger] nb[b]).0 + nb[b].1 <= (#[trigger] nb[c]).0 by {
                        assert(batches[b] == nb[b]);
                        if c < batches.len() {
                            assert(batches[c] == nb[c]);
                        }
                    }
                }
            }
        }
    }
}

/// What batching a sorted phase gives: each batch is a run of consecutive
/// items with data and one key, the runs come in order and do not overlap,
/// together they cover exactly the items that have data, and they are as
/// long as they can be: two batches that touch have different keys.
pub proof fn lemma_batches_partition_items(keys: Seq<Option<u64>>)
    ensures
        forall|b: int| 0 <= b < batches_of(keys).len() ==> {
            let (first, count) = #[trigger] batches_of(keys)[b];
            &&& 0 <= first && 1 <= count && first + count <= keys.len()
            &&& keys[first] is Some
            &&& forall|j: int| first <= j < first + count ==> keys[j] == keys[first]
        },
        forall|b: int, c: int| 0 <= b < c < batches_of(keys).len()
            ==> (#[trigger] batches_of(keys)[b]).0 + batches_of(keys)[b].1 <= (#[trigger] batches_of(keys)[c]).0,
        total_count(batches_of(keys)) == present_count(keys),
        forall|b: int| 0 <= b < batches_of(keys).len() - 1
            && (#[trigger] batches_of(keys)[b]).0 + batches_of(keys)[b].1 == batches_of(keys)[b + 1].0
            ==> keys[batches_of(keys)[b].0] != keys[batches_of(keys)[b + 1].0],
{
    lemma_batch_state(keys);
}

/// The batches of a sorted phase whose items have the given keys, `None`
/// for an item that has no extracted data.
pub fn batch_items(keys: &Vec<Option<u64>>) -> (r: Vec<CuttleBatch>)
    requires
        keys@.len() <= u32::MAX,
    ensures
        r@.len() == batches_of(keys@).len(),
        forall|b: int| 0 <= b < r@.len() ==> (#[trigger] r@[b]).range_view() == (
            batches_of(keys@)[b].0, batches_of(keys@)[b].0 + batches_of(keys@)[b].1),
{
    let mut r: Vec<CuttleBatch> = Vec::new();
    let mut open: Option<u64> = None;
    let mut index: usize = 0;
    while index < keys.len()
        invariant
            index <= keys@.len() <= u32::MAX,
            batch_state(keys@.take(index as int)).1 == open,
            batches_well_formed(keys@.take(index as int), batch_state(keys@.take(index as int)).0, open),
            r@.len() == batch_state(keys@.take(index as int)).0.len(),
            forall|b: int| 0 <= b < r@.len() ==> (#[trigger] r@[b]).first == batch_state(keys@.take(index as int)).0[b].0
                && r@[b].count == batch_state(keys@.take(index as int)).0[b].1,
        decreases keys@.len() - index,
    {
        proof {
            assert(keys@.take(index + 1).drop_last() =~= keys@.take(index as int));
            lemma_batch_state(keys@.take(index + 1));
        }
        let ghost bs = batch_state(keys@.take(index as int)).0;
        match keys[index] {
            None => {
                open = None;
            },
            Some(k) => {
                let joins = match open {
                    Some(o) => o == k,
                    None => false,
                };
                if joins {
                    let n = r.len() - 1;
                    let last = r[n];
                    proof {
                        assert(bs.last().0 + bs.last().1 == index);
                    }
                    r.set(n, CuttleBatch { first: last.first, count: last.count + 1 });
                } else {
                    r.push(CuttleBatch { first: index as u32, count: 1 });
                    open = Some(k);
                }
            },
        }
        index = index + 1;
    }
    assert(keys@.take(keys@.len() as int) =~= keys@);
    r
}

} // verus!
