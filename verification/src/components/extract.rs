use crate::sorting::{is_stable_order, sorted_positions_by_key};
use std::collections::HashMap;
use vstd::prelude::*;
use vstd::std_specs::hash::group_hash_axioms;

verus! {

/// The number of times `b` occurs in `s`.
pub open spec fn occurrences(s: Seq<usize>, b: usize) -> nat
    decreases s.len(),
{
    if s.len() == 0 {
        0
    } else {
        occurrences(s.drop_last(), b) + if s.last() == b { 1nat } else { 0nat }
    }
}

/// A map from component flags to dense buffer bindings: the bindings are
/// exactly `0..n` for `n` flags, each used once.
pub struct SdfBindings {
    pub bindings: HashMap<u64, usize>,
}

/// The bindings of `m` are distinct and below its number of flags.
pub open spec fn dense_bindings(m: Map<u64, usize>) -> bool {
    &&& m.dom().finite()
    &&& forall|f: u64| #[trigger] m.contains_key(f) ==> m[f] < m.dom().len()
    &&& forall|f: u64, g: u64| m.contains_key(f) && m.contains_key(g) && f != g ==> #[trigger] m[f] != #[trigger] m[g]
}

impl SdfBindings {
    /// No flag bound.
    pub fn new() -> (r: Self)
        ensures
            r.bindings@ == Map::<u64, usize>::empty(),
    {
        SdfBindings { bindings: HashMap::new() }
    }

    /// The binding of `flag`, giving it the next free one if it has none;
    /// `true` when the binding is new.
    pub fn assign(&mut self, flag: u64) -> (r: (usize, bool))
        requires
            dense_bindings(old(self).bindings@),
            !old(self).bindings@.contains_key(flag) ==> old(self).bindings@.dom().len() < usize::MAX,
        ensures
            dense_bindings(final(self).bindings@),
            old(self).bindings@.contains_key(flag) ==> r == (old(self).bindings@[flag], false)
                && final(self).bindings@ == old(self).bindings@,
            !old(self).bindings@.contains_key(flag) ==> r == (old(self).bindings@.dom().len() as usize, true)
                && final(self).bindings@ == old(self).bindings@.insert(flag, old(self).bindings@.dom().len() as usize),
    {
        broadcast use group_hash_axioms;
        match self.bindings.get(&flag) {
            Some(b) => (*b, false),
            None => {
                let n = self.bindings.len();
                let ghost m0 = self.bindings@;
                self.bindings.insert(flag, n);
                proof {
                    let m1 = self.bindings@;
                    assert(m1.dom() =~= m0.dom().insert(flag));
                    assert(m1.dom().len() == m0.dom().len() + 1);
                    assert forall|f: u64| #[trigger] m1.contains_key(f) implies m1[f] < m1.dom().len() by {
                        if f != flag { assert(m0.contains_key(f)); }
                    }
                    assert forall|f: u64, g: u64| m1.contains_key(f) && m1.contains_key(g) && f != g implies #[trigger] m1[f] != #[trigger] m1[g] by {
                        if f != flag && g != flag {
                            assert(m0[f] != m0[g]);
                        } else if f == flag {
                            assert(m0.contains_key(g));
                        } else {
                            assert(m0.contains_key(f));
                        }
                    }
                }
                (n, true)
            },
        }
    }
}

/// What `assign_indices` computes: each item's index within its binding,
/// the new per-binding maxima, and the resizes to request.
pub struct IndexAssignment {
    pub indices: Vec<usize>,
    pub max: Vec<usize>,
    pub resizes: Vec<(usize, usize)>,
}

/// The new maximum of binding `b`, from the old maxima and the new counts.
pub open spec fn new_max_at(prev: Seq<usize>, counts: Seq<usize>, b: int) -> usize {
    if b < prev.len() && b < counts.len() {
        if counts[b] > prev[b] { counts[b] } else { prev[b] }
    } else if b < prev.len() {
        prev[b]
    } else {
        counts[b]
    }
}

/// Whether binding `b` has to grow: its count passed the old maximum, or it
/// had no maximum yet.
pub open spec fn grows_at(prev: Seq<usize>, counts: Seq<usize>, b: int) -> bool {
    (b < prev.len() && b < counts.len() && counts[b] > prev[b]) || (b >= prev.len() && b < counts.len())
}

/// The resizes for the bindings below `n`, in binding order.
pub open spec fn resizes_below(prev: Seq<usize>, counts: Seq<usize>, n: int) -> Seq<(usize, usize)>
    decreases n,
{
    if n <= 0 {
        Seq::empty()
    } else {
        resizes_below(prev, counts, n - 1) + if grows_at(prev, counts, n - 1) {
            seq![((n - 1) as usize, new_max_at(prev, counts, n - 1))]
        } else {
            Seq::empty()
        }
    }
}

/// The longer of two lengths.
pub open spec fn longer(a: nat, b: nat) -> nat {
    if a < b { b } else { a }
}

/// Gives each item the number of earlier items in its binding as index, and
/// keeps per binding the largest count seen so far, asking for a resize
/// whenever a binding's count grows past it or a binding is new.
pub fn assign_indices(max: &Vec<usize>, bindings: &Vec<usize>, total_bindings: usize) -> (r: IndexAssignment)
    requires
        forall|k: int| 0 <= k < bindings@.len() ==> (#[trigger] bindings@[k]) < total_bindings,
    ensures
        r.indices@.len() == bindings@.len(),
        forall|k: int| 0 <= k < bindings@.len() ==>
            (#[trigger] r.indices@[k]) == occurrences(bindings@.take(k), bindings@[k]),
        ({
            let counts = Seq::new(total_bindings as nat, |b: int| occurrences(bindings@, b as usize) as usize);
            &&& r.max@.len() == longer(max@.len(), total_bindings as nat)
            &&& forall|b: int| 0 <= b < r.max@.len() ==> (#[trigger] r.max@[b]) == new_max_at(max@, counts, b)
            &&& r.resizes@ == resizes_below(max@, counts, r.max@.len() as int)
        }),
{
    let mut counts: Vec<usize> = Vec::new();
    let mut b: usize = 0;
    while b < total_bindings
        invariant
            b <= total_bindings,
            counts@.len() == b,
            forall|j: int| 0 <= j < b ==> counts@[j] == 0,
        decreases total_bindings - b,
    {
        counts.push(0);
        b = b + 1;
    }
    let mut indices: Vec<usize> = Vec::new();
    let mut k: usize = 0;
    while k < bindings.len()
        invariant
            k <= bindings@.len(),
            counts@.len() == total_bindings,
            forall|m: int| 0 <= m < bindings@.len() ==> (#[trigger] bindings@[m]) < total_bindings,
            forall|c: int| 0 <= c < total_bindings ==> (#[trigger] counts@[c]) == occurrences(bindings@.take(k as int), c as usize),
            indices@.len() == k,
            forall|m: int| 0 <= m < k ==> (#[trigger] indices@[m]) == occurrences(bindings@.take(m), bindings@[m]),
        decreases bindings@.len() - k,
    {
        let bind = bindings[k];
        assert(bindings@.take(k + 1).drop_last() =~= bindings@.take(k as int));
        let current = counts[bind];
        assert(current as nat <= k) by {
            lemma_occurrences_bound(bindings@.take(k as int), bind);
        }
        indices.push(current);
        counts.set(bind, current + 1);
        k = k + 1;
    }
    assert(bindings@.take(bindings@.len() as int) =~= bindings@);
    let ghost cs = Seq::new(total_bindings as nat, |b: int| occurrences(bindings@, b as usize) as usize);
    assert(counts@ =~= cs);
    let n = if max.len() < total_bindings { total_bindings } else { max.len() };
    let mut new_max: Vec<usize> = Vec::new();
    let mut resizes: Vec<(usize, usize)> = Vec::new();
    let mut c: usize = 0;
    while c < n
        invariant
            c <= n,
            n == longer(max@.len(), total_bindings as nat),
            counts@ == cs,
            cs.len() == total_bindings,
            new_max@.len() == c,
            forall|j: int| 0 <= j < c ==> (#[trigger] new_max@[j]) == new_max_at(max@, cs, j),
            resizes@ == resizes_below(max@, cs, c as int),
        decreases n - c,
    {
        if c < max.len() && c < counts.len() {
            if counts[c] > max[c] {
                new_max.push(counts[c]);
                resizes.push((c, counts[c]));
            } else {
                new_max.push(max[c]);
            }
        } else if c < max.len() {
            new_max.push(max[c]);
        } else {
            new_max.push(counts[c]);
            resizes.push((c, counts[c]));
        }
        c = c + 1;
    }
    IndexAssignment { indices, max: new_max, resizes }
}

/// An item occurs at most as often as a sequence is long.
pub proof fn lemma_occurrences_bound(s: Seq<usize>, b: usize)
    ensures
        occurrences(s, b) <= s.len(),
    decreases s.len(),
{
    if s.len() > 0 {
        lemma_occurrences_bound(s.drop_last(), b);
    }
}

/// A new buffer binding, its stride, and the offsets of the components it holds.
pub struct NewBinding {
    pub binding: usize,
    pub stride: usize,
    pub offsets: Vec<(u8, usize)>,
}

/// `s` cut or grown to length `n`, new places holding `v` (`Vec::resize`).
pub open spec fn resized(s: Seq<usize>, n: nat, v: usize) -> Seq<usize> {
    if n <= s.len() {
        s.take(n as int)
    } else {
        s + Seq::new((n - s.len()) as nat, |i: int| v)
    }
}

/// The offsets table after recording one component offset of a new binding.
pub open spec fn offsets_step(table: Seq<Seq<usize>>, binding: usize, bit: u8, offset: usize) -> Seq<Seq<usize>> {
    table.update(bit as int, resized(table[bit as int], (binding + 1) as nat, usize::MAX).update(binding as int, offset))
}

/// The offsets table after recording the first `n` offsets of an event.
pub open spec fn offsets_after(table: Seq<Seq<usize>>, binding: usize, offsets: Seq<(u8, usize)>) -> Seq<Seq<usize>>
    decreases offsets.len(),
{
    if offsets.len() == 0 {
        table
    } else {
        offsets_step(offsets_after(table, binding, offsets.drop_last()), binding, offsets.last().0, offsets.last().1)
    }
}

/// The offsets table after all events.
pub open spec fn offsets_after_events(table: Seq<Seq<usize>>, events: Seq<NewBinding>) -> Seq<Seq<usize>>
    decreases events.len(),
{
    if events.len() == 0 {
        table
    } else {
        offsets_after(offsets_after_events(table, events.drop_last()), events.last().binding, events.last().offsets@)
    }
}

/// Records, for each new binding, the offset of each of its components in the
/// per-component table, which grows or shrinks to end at that binding
/// (places in between hold `usize::MAX`).
pub fn add_new_offsets(table: &mut Vec<Vec<usize>>, events: &Vec<NewBinding>)
    requires
        forall|e: int, k: int| 0 <= e < events@.len() && 0 <= k < events@[e].offsets@.len() ==>
            (#[trigger] events@[e].offsets@[k]).0 < old(table)@.len(),
        forall|e: int| 0 <= e < events@.len() ==> (#[trigger] events@[e]).binding < usize::MAX,
    ensures
        final(table)@.map_values(|v: Vec<usize>| v@)
            == offsets_after_events(old(table)@.map_values(|v: Vec<usize>| v@), events@),
{
    let ghost t0 = table@.map_values(|v: Vec<usize>| v@);
    let mut e: usize = 0;
    while e < events.len()
        invariant
            e <= events@.len(),
            table@.len() == old(table)@.len(),
            forall|e2: int, k: int| 0 <= e2 < events@.len() && 0 <= k < events@[e2].offsets@.len() ==>
                (#[trigger] events@[e2].offsets@[k]).0 < old(table)@.len(),
            forall|e2: int| 0 <= e2 < events@.len() ==> (#[trigger] events@[e2]).binding < usize::MAX,
            table@.map_values(|v: Vec<usize>| v@) == offsets_after_events(t0, events@.take(e as int)),
        decreases events@.len() - e,
    {
        assert(events@.take(e + 1).drop_last() =~= events@.take(e as int));
        let event = &events[e];
        let ghost te = table@.map_values(|v: Vec<usize>| v@);
        let mut k: usize = 0;
        while k < event.offsets.len()
            invariant
                k <= event.offsets@.len(),
                table@.len() == old(table)@.len(),
                forall|j: int| 0 <= j < event.offsets@.len() ==> (#[trigger] event.offsets@[j]).0 < old(table)@.len(),
                event.binding < usize::MAX,
                table@.map_values(|v: Vec<usize>| v@) == offsets_after(te, event.binding, event.offsets@.take(k as int)),
            decreases event.offsets@.len() - k,
        {
            assert(event.offsets@.take(k + 1).drop_last() =~= event.offsets@.take(k as int));
            let (bit, offset) = event.offsets[k];
            let ghost before = table@.map_values(|v: Vec<usize>| v@);
            let mut row = table[bit as usize].clone();
            let ghost old_row = row@;
            assert(old_row == before[bit as int]);
            row.resize(event.binding + 1, usize::MAX);
            assert(row@ =~= resized(old_row, (event.binding + 1) as nat, usize::MAX));
            row.set(event.binding, offset);
            table.set(bit as usize, row);
            assert(table@.map_values(|v: Vec<usize>| v@) =~= offsets_step(before, event.binding, bit, offset));
            k = k + 1;
        }
        assert(event.offsets@.take(event.offsets@.len() as int) =~= event.offsets@);
        e = e + 1;
    }
    assert(events@.take(events@.len() as int) =~= events@);
}

/// The bytes of one binding's buffer and the size of one item in it.
pub struct SdfBuffer {
    pub stride: usize,
    pub bytes: Vec<u8>,
}

/// `s` cut or grown to length `n`, new places holding zero.
pub open spec fn resized_bytes(s: Seq<u8>, n: nat) -> Seq<u8> {
    if n <= s.len() {
        s.take(n as int)
    } else {
        s + Seq::new((n - s.len()) as nat, |i: int| 0u8)
    }
}

/// The strides and byte contents of buffers.
pub open spec fn buffers_view(b: Seq<SdfBuffer>) -> Seq<(usize, Seq<u8>)> {
    b.map_values(|x: SdfBuffer| (x.stride, x.bytes@))
}

/// The buffers after each resize in turn: the buffer of the resize's
/// binding holds room for the new number of items.
pub open spec fn after_resizes(bufs: Seq<(usize, Seq<u8>)>, resizes: Seq<(usize, usize)>) -> Seq<(usize, Seq<u8>)>
    decreases resizes.len(),
{
    if resizes.len() == 0 {
        bufs
    } else {
        let prev = after_resizes(bufs, resizes.drop_last());
        let (b, n) = resizes.last();
        prev.update(b as int, (prev[b as int].0, resized_bytes(prev[b as int].1, (n * prev[b as int].0) as nat)))
    }
}

/// The buffers with an empty one appended for each new binding.
pub open spec fn with_new_buffers(bufs: Seq<(usize, Seq<u8>)>, new_bindings: Seq<NewBinding>) -> Seq<(usize, Seq<u8>)> {
    bufs + new_bindings.map_values(|n: NewBinding| (n.stride, Seq::<u8>::empty()))
}

/// Every resize names an existing buffer and its new size in bytes fits.
pub open spec fn resizes_fit(bufs: Seq<(usize, Seq<u8>)>, resizes: Seq<(usize, usize)>) -> bool {
    forall|k: int| 0 <= k < resizes.len() ==> {
        &&& (#[trigger] resizes[k]).0 < bufs.len()
        &&& resizes[k].1 * bufs[resizes[k].0 as int].0 <= usize::MAX
    }
}

/// Prepares the buffers before components are written into them: one new
/// empty buffer per new binding, then each resize applied in turn.
pub fn prepare_buffers_for_extract(buffers: &mut Vec<SdfBuffer>, new_bindings: &Vec<NewBinding>, resizes: &Vec<(usize, usize)>)
    requires
        resizes_fit(with_new_buffers(buffers_view(old(buffers)@), new_bindings@), resizes@),
    ensures
        buffers_view(final(buffers)@) == after_resizes(with_new_buffers(buffers_view(old(buffers)@), new_bindings@), resizes@),
{
    let ghost b0 = buffers_view(buffers@);
    let mut i: usize = 0;
    while i < new_bindings.len()
        invariant
            i <= new_bindings@.len(),
            buffers_view(buffers@) == with_new_buffers(b0, new_bindings@.take(i as int)),
        decreases new_bindings@.len() - i,
    {
        let ghost prev = buffers@;
        buffers.push(SdfBuffer { stride: new_bindings[i].stride, bytes: Vec::new() });
        proof {
            let f = |n: NewBinding| (n.stride, Seq::<u8>::empty());
            assert(buffers_view(buffers@) =~= buffers_view(prev).push((new_bindings@[i as int].stride, Seq::<u8>::empty())));
            assert(new_bindings@.take(i + 1).map_values(f) =~= new_bindings@.take(i as int).map_values(f).push(f(new_bindings@[i as int])));
        }
        i = i + 1;
        assert(buffers_view(buffers@) =~= with_new_buffers(b0, new_bindings@.take(i as int)));
    }
    assert(new_bindings@.take(new_bindings@.len() as int) =~= new_bindings@);
    let ghost b1 = buffers_view(buffers@);
    let mut k: usize = 0;
    while k < resizes.len()
        invariant
            k <= resizes@.len(),
            resizes_fit(b1, resizes@),
            buffers_view(buffers@) == after_resizes(b1, resizes@.take(k as int)),
            buffers_view(buffers@).len() == b1.len(),
            forall|j: int| 0 <= j < b1.len() ==> (#[trigger] buffers_view(buffers@)[j]).0 == b1[j].0,
        decreases resizes@.len() - k,
    {
        assert(resizes@.take(k + 1).drop_last() =~= resizes@.take(k as int));
        let (binding, new_size) = resizes[k];
        assert(resizes@[k as int].0 < b1.len());
        let ghost before = buffers_view(buffers@);
        assert(before[binding as int].0 == b1[binding as int].0);
        assert(new_size * b1[binding as int].0 <= usize::MAX);
        let mut buffer = buffers.remove(binding);
        assert(buffer.stride == before[binding as int].0);
        let size = new_size * buffer.stride;
        let ghost old_bytes = buffer.bytes@;
        buffer.bytes.resize(size, 0u8);
        assert(buffer.bytes@ =~= resized_bytes(old_bytes, size as nat));
        buffers.insert(binding, buffer);
        assert(buffers_view(buffers@) =~= before.update(binding as int, (before[binding as int].0, resized_bytes(before[binding as int].1, size as nat))));
        k = k + 1;
    }
    assert(resizes@.take(resizes@.len() as int) =~= resizes@);
}

/// The buffer indices of a shape: its own, then those of its operands that
/// still exist, ordered stably by the operations' order (`u32` truncation as
/// in `as u32`).
pub open spec fn gathered_indices(own: usize, ops: Seq<(usize, Option<usize>)>, perm: Seq<usize>) -> Seq<u32> {
    seq![own as u32] + present_indices(perm.map_values(|p: usize| ops[p as int].1))
}

/// The indices that are present, in order, cut to `u32`.
pub open spec fn present_indices(targets: Seq<Option<usize>>) -> Seq<u32>
    decreases targets.len(),
{
    if targets.len() == 0 {
        Seq::empty()
    } else {
        present_indices(targets.drop_last()) + match targets.last() {
            Some(i) => seq![i as u32],
            None => Seq::empty(),
        }
    }
}

/// The orders of the operations.
pub open spec fn op_orders(ops: Seq<(usize, Option<usize>)>) -> Seq<u64> {
    ops.map_values(|o: (usize, Option<usize>)| o.0 as u64)
}

/// Collects the buffer indices a shape's shader reads: its own index, then
/// the index of each operand (operation order and operand index; `None` for
/// an operand that no longer exists, which is skipped).
pub fn gather_indices(own: usize, operations: &Vec<(usize, Option<usize>)>) -> (r: Vec<u32>)
    ensures
        exists|perm: Seq<usize>| is_stable_order(op_orders(operations@), perm)
            && #[trigger] gathered_indices(own, operations@, perm) == r@,
{
    let mut keys: Vec<u64> = Vec::new();
    let mut i: usize = 0;
    while i < operations.len()
        invariant
            i <= operations@.len(),
            keys@ == op_orders(operations@).take(i as int),
        decreases operations@.len() - i,
    {
        keys.push(operations[i].0 as u64);
        i = i + 1;
        assert(keys@ =~= op_orders(operations@).take(i as int));
    }
    assert(keys@ =~= op_orders(operations@));
    let perm = sorted_positions_by_key(&keys);
    let ghost targets = perm@.map_values(|p: usize| operations@[p as int].1);
    let mut r: Vec<u32> = Vec::new();
    r.push(own as u32);
    let mut t: usize = 0;
    while t < perm.len()
        invariant
            t <= perm@.len(),
            is_stable_order(op_orders(operations@), perm@),
            targets == perm@.map_values(|p: usize| operations@[p as int].1),
            r@ == seq![own as u32] + present_indices(targets.take(t as int)),
        decreases perm@.len() - t,
    {
        let target = operations[perm[t]].1;
        assert(targets.take(t + 1).drop_last() =~= targets.take(t as int));
        assert(targets.take(t + 1).last() == target);
        match target {
            Some(index) => {
                r.push(index as u32);
            },
            None => {},
        }
        t = t + 1;
        assert(r@ =~= seq![own as u32] + present_indices(targets.take(t as int)));
    }
    assert(targets.take(perm@.len() as int) =~= targets);
    assert(gathered_indices(own, operations@, perm@) == r@);
    r
}

/// The gathered indices of a shape start with the shape's own index, so its
/// operands occupy the slots from 1 on.
pub proof fn lemma_gathered_indices_own_first(own: usize, ops: Seq<(usize, Option<usize>)>, perm: Seq<usize>)
    ensures
        gathered_indices(own, ops, perm).len() >= 1,
        gathered_indices(own, ops, perm)[0] == own as u32,
{
}

} // verus!
