use std::marker::PhantomData;
use vstd::prelude::*;

verus! {

/// The state of an arena as numbers: the next never-issued index and the
/// stack of released indices, the most recently released last.
pub struct ArenaView {
    pub position: u8,
    pub max: nat,
    pub available: Seq<u32>,
}

/// The indices an arena has handed out and not yet taken back.
pub open spec fn in_use(v: ArenaView) -> Set<nat> {
    Set::new(|i: nat| i < v.max && !v.available.contains(i as u32))
}

/// An arena whose released indices were all issued before and are distinct.
pub open spec fn arena_wf(v: ArenaView) -> bool {
    &&& v.max <= u32::MAX
    &&& v.available.no_duplicates()
    &&& forall|k: int| 0 <= k < v.available.len() ==> (#[trigger] v.available[k]) < v.max
}

/// The index `get` hands out and the state it leaves.
pub open spec fn spec_get(v: ArenaView) -> (u32, ArenaView) {
    if v.available.len() > 0 {
        (v.available.last(), ArenaView { position: v.position, max: v.max, available: v.available.drop_last() })
    } else {
        (v.max as u32, ArenaView { position: v.position, max: v.max + 1, available: v.available })
    }
}

/// The state `release(id)` leaves.
pub open spec fn spec_release(v: ArenaView, id: u32) -> ArenaView {
    ArenaView { position: v.position, max: v.max, available: v.available.push(id) }
}

/// Hands out small integer indices for the instances of one component type,
/// reusing released ones before issuing new ones.
pub struct IndexArena<C> {
    pub position: u8,
    pub max: u32,
    available: Vec<u32>,
    marker: PhantomData<C>,
}

impl<C> View for IndexArena<C> {
    type V = ArenaView;

    closed spec fn view(&self) -> ArenaView {
        ArenaView { position: self.position, max: self.max as nat, available: self.available@ }
    }
}

impl<C> IndexArena<C> {
    /// An arena for the component at `position` that has issued nothing.
    pub fn new(position: u8) -> (r: Self)
        ensures
            r@.position == position,
            r@.max == 0,
            r@.available == Seq::<u32>::empty(),
            arena_wf(r@),
    {
        Self { position, max: 0, available: Vec::new(), marker: PhantomData }
    }

    /// The stack of released indices, the most recently released last.
    pub fn available(&self) -> (r: &Vec<u32>)
        ensures
            r@ == self@.available,
    {
        &self.available
    }

    /// The most recently released index if there is one, else a fresh one.
    pub fn get(&mut self) -> (r: u32)
        requires
            old(self)@.available.len() > 0 || old(self)@.max < u32::MAX,
        ensures
            (r, final(self)@) == spec_get(old(self)@),
            arena_wf(old(self)@) ==> arena_wf(final(self)@) && !in_use(old(self)@).contains(r as nat)
                && in_use(final(self)@) == in_use(old(self)@).insert(r as nat),
    {
        proof {
            if arena_wf(self@) {
                lemma_get_fresh(self@);
            }
        }
        match self.available.pop() {
            Some(id) => id,
            None => {
                let r = self.max;
                self.max = self.max + 1;
                r
            },
        }
    }

    /// Gives `id` back for reuse.
    pub fn release(&mut self, id: u32)
        ensures
            final(self)@ == spec_release(old(self)@, id),
            arena_wf(old(self)@) && in_use(old(self)@).contains(id as nat) ==> arena_wf(final(self)@)
                && in_use(final(self)@) == in_use(old(self)@).remove(id as nat),
    {
        proof {
            if arena_wf(self@) && in_use(self@).contains(id as nat) {
                lemma_release_in_use(self@, id);
            }
        }
        self.available.push(id);
    }
}

/// An index given back is the next one handed out, and the arena is then
/// as it was before the release.
pub proof fn lemma_release_then_get(v: ArenaView, id: u32)
    ensures
        spec_get(spec_release(v, id)) == (id, v),
{
    assert(spec_release(v, id).available.drop_last() =~= v.available);
}

/// `get` on a well-formed arena hands out an index that is not in use, and
/// afterwards exactly that index has joined the ones in use.
pub proof fn lemma_get_fresh(v: ArenaView)
    requires
        arena_wf(v),
        v.available.len() > 0 || v.max < u32::MAX,
    ensures
        !in_use(v).contains(spec_get(v).0 as nat),
        in_use(spec_get(v).1) == in_use(v).insert(spec_get(v).0 as nat),
        arena_wf(spec_get(v).1),
{
    let (r, w) = spec_get(v);
    if v.available.len() > 0 {
        let n = v.available.len();
        assert(v.available[n - 1] == r);
        assert(v.available.contains(r));
        assert forall|i: nat| #[trigger] in_use(w).contains(i) == in_use(v).insert(r as nat).contains(i) by {
            if i < v.max {
                if i == r as nat {
                    assert(!w.available.contains(r)) by {
                        if w.available.contains(r) {
                            let k = choose|k: int| 0 <= k < w.available.len() && w.available[k] == r;
                            assert(v.available[k] == v.available[n - 1]);
                        }
                    }
                } else {
                    assert(v.available.contains(i as u32) == w.available.contains(i as u32)) by {
                        if v.available.contains(i as u32) {
                            let k = choose|k: int| 0 <= k < v.available.len() && v.available[k] == i as u32;
                            assert(k != n - 1);
                            assert(w.available[k] == i as u32);
                        }
                        if w.available.contains(i as u32) {
                            let k = choose|k: int| 0 <= k < w.available.len() && w.available[k] == i as u32;
                            assert(v.available[k] == i as u32);
                        }
                    }
                }
            }
        }
        assert(in_use(w) =~= in_use(v).insert(r as nat));
    } else {
        assert(!v.available.contains(r)) ;
        assert forall|i: nat| #[trigger] in_use(w).contains(i) == in_use(v).insert(r as nat).contains(i) by {
            if i < w.max {
                assert(!w.available.contains(i as u32));
            }
        }
        assert(in_use(w) =~= in_use(v).insert(r as nat));
    }
}

/// Releasing an index in use takes exactly that index out of use and keeps
/// the arena well-formed.
pub proof fn lemma_release_in_use(v: ArenaView, id: u32)
    requires
        arena_wf(v),
        in_use(v).contains(id as nat),
    ensures
        arena_wf(spec_release(v, id)),
        in_use(spec_release(v, id)) == in_use(v).remove(id as nat),
{
    let w = spec_release(v, id);
    assert(!v.available.contains(id));
    assert forall|i: int, j: int| 0 <= i < j < w.available.len() implies w.available[i] != w.available[j] by {
        if j == w.available.len() - 1 {
            assert(v.available[i] == w.available[i]);
        }
    }
    assert forall|k: int| 0 <= k < w.available.len() implies (#[trigger] w.available[k]) < w.max by {
        if k < v.available.len() {
            assert(w.available[k] == v.available[k]);
        }
    }
    assert forall|i: nat| #[trigger] in_use(w).contains(i) == in_use(v).remove(id as nat).contains(i) by {
        if i < v.max {
            if i == id as nat {
                assert(w.available[w.available.len() - 1] == id);
            } else {
                assert(v.available.contains(i as u32) == w.available.contains(i as u32)) by {
                    if v.available.contains(i as u32) {
                        let k = choose|k: int| 0 <= k < v.available.len() && v.available[k] == i as u32;
                        assert(w.available[k] == i as u32);
                    }
                    if w.available.contains(i as u32) {
                        let k = choose|k: int| 0 <= k < w.available.len() && w.available[k] == i as u32;
                        assert(k < v.available.len());
                        assert(v.available[k] == i as u32);
                    }
                }
            }
        }
    }
    assert(in_use(w) =~= in_use(v).remove(id as nat));
}

/// A fresh arena's state as numbers.
pub open spec fn fresh_arena(position: u8) -> ArenaView {
    ArenaView { position, max: 0, available: Seq::empty() }
}

/// The state after one operation: `None` stands for `get`, `Some(id)` for
/// `release(id)`.
pub open spec fn apply_op(v: ArenaView, op: Option<u32>) -> ArenaView {
    match op {
        None => spec_get(v).1,
        Some(id) => spec_release(v, id),
    }
}

/// The state after the operations `ops`, in order.
pub open spec fn arena_after(v: ArenaView, ops: Seq<Option<u32>>) -> ArenaView
    decreases ops.len(),
{
    if ops.len() == 0 {
        v
    } else {
        apply_op(arena_after(v, ops.drop_last()), ops.last())
    }
}

/// Every `get` has an index to give and every `release` gives back an index
/// that is in use at that point.
pub open spec fn ops_valid(v: ArenaView, ops: Seq<Option<u32>>) -> bool
    decreases ops.len(),
{
    if ops.len() == 0 {
        true
    } else {
        let w = arena_after(v, ops.drop_last());
        &&& ops_valid(v, ops.drop_last())
        &&& match ops.last() {
            None => w.available.len() > 0 || w.max < u32::MAX,
            Some(id) => in_use(w).contains(id as nat),
        }
    }
}

/// Every arena reached from a fresh one by `get`s and by `release`s of
/// indices in use is well formed: the indices in use are distinct and below
/// `max`, the released ones are distinct, below `max` and not in use, and so
/// each `get` hands out an index nobody holds.
pub proof fn lemma_reachable_arena_wf(position: u8, ops: Seq<Option<u32>>)
    requires
        ops_valid(fresh_arena(position), ops),
    ensures
        arena_wf(arena_after(fresh_arena(position), ops)),
    decreases ops.len(),
{
    if ops.len() == 0 {
        assert(arena_wf(fresh_arena(position)));
    } else {
        lemma_reachable_arena_wf(position, ops.drop_last());
        let w = arena_after(fresh_arena(position), ops.drop_last());
        match ops.last() {
            None => lemma_get_fresh(w),
            Some(id) => lemma_release_in_use(w, id),
        }
    }
}

} // verus!
