use crate::sorting::{is_stable_order, sort_positions_by_key};
use std::collections::HashMap;
use vstd::prelude::*;
use vstd::std_specs::hash::group_hash_axioms;

verus! {

/// Where a component registered with a group stands among the group's
/// components: its id, its sort value, and the extension it is forced on.
#[derive(Debug, Clone, Copy, PartialEq, Eq, Structural)]
pub struct ComponentOrder {
    pub id: u64,
    pub sort: u32,
    pub extension_override: Option<u8>,
}

/// The sort values of `orders`, as sort keys.
pub open spec fn sort_keys(orders: Seq<ComponentOrder>) -> Seq<u64> {
    orders.map_values(|o: ComponentOrder| o.sort as u64)
}

/// The components of a group ordered by sort value, those with equal values
/// in the order they were registered, and where each came from.
pub fn sort_and_split_component_infos(orders: &Vec<ComponentOrder>) -> (r: (Vec<ComponentOrder>, Vec<usize>))
    ensures
        is_stable_order(sort_keys(orders@), r.1@),
        r.0@.len() == orders@.len(),
        forall|i: int| 0 <= i < r.0@.len() ==> #[trigger] r.0@[i] == orders@[r.1@[i] as int],
{
    let mut keys: Vec<u64> = Vec::new();
    let mut i: usize = 0;
    while i < orders.len()
        invariant
            i <= orders@.len(),
            keys@ == sort_keys(orders@).take(i as int),
        decreases orders@.len() - i,
    {
        keys.push(orders[i].sort as u64);
        i = i + 1;
        assert(keys@ =~= sort_keys(orders@).take(i as int));
    }
    assert(keys@ =~= sort_keys(orders@));
    let mut perm: Vec<usize> = Vec::new();
    let mut p: usize = 0;
    while p < keys.len()
        invariant
            p <= keys@.len(),
            perm@ == Seq::new(p as nat, |i: int| i as usize),
        decreases keys@.len() - p,
    {
        perm.push(p);
        p = p + 1;
        assert(perm@ =~= Seq::new(p as nat, |i: int| i as usize));
    }
    sort_positions_by_key(&mut perm, &keys);
    let mut sorted: Vec<ComponentOrder> = Vec::new();
    let mut k: usize = 0;
    while k < perm.len()
        invariant
            k <= perm@.len(),
            is_stable_order(sort_keys(orders@), perm@),
            sorted@.len() == k,
            forall|j: int| 0 <= j < k ==> #[trigger] sorted@[j] == orders@[perm@[j] as int],
        decreases perm@.len() - k,
    {
        assert((perm@[k as int] as int) < sort_keys(orders@).len());
        sorted.push(orders[perm[k]]);
        k = k + 1;
    }
    (sorted, perm)
}

/// The position of each component of a group, by id: its place in the
/// sorted order, kept to its low eight bits.
pub fn component_positions(orders: &Vec<ComponentOrder>) -> (r: Vec<(u64, u8)>)
    ensures
        r@.len() == orders@.len(),
        forall|i: int| 0 <= i < r@.len() ==> #[trigger] r@[i] == (orders@[i].id, i as u8),
{
    let mut r: Vec<(u64, u8)> = Vec::new();
    let mut i: usize = 0;
    while i < orders.len()
        invariant
            i <= orders@.len(),
            r@.len() == i,
            forall|j: int| 0 <= j < i ==> #[trigger] r@[j] == (orders@[j].id, j as u8),
        decreases orders@.len() - i,
    {
        r.push((orders[i].id, i as u8));
        i = i + 1;
    }
    r
}

/// What all groups share: how many there are, the buffer binding of each
/// component with render data, and each group's component positions.
pub struct GlobalGroupInfos {
    pub group_count: usize,
    pub component_bindings: HashMap<u64, u32>,
    pub component_positions: Vec<HashMap<u64, u8>>,
}

/// The bindings of `m` are distinct and below its number of components.
pub open spec fn dense_bindings(m: Map<u64, u32>) -> bool {
    &&& m.dom().finite()
    &&& forall|f: u64| #[trigger] m.contains_key(f) ==> m[f] < m.dom().len()
    &&& forall|f: u64, g: u64| m.contains_key(f) && m.contains_key(g) && f != g ==> #[trigger] m[f] != #[trigger] m[g]
}

/// The component positions of each group, as maps.
pub open spec fn positions_view(v: Seq<HashMap<u64, u8>>) -> Seq<Map<u64, u8>> {
    v.map_values(|m: HashMap<u64, u8>| m@)
}

/// `m` with each of `entries` inserted in turn.
pub open spec fn inserted_all(m: Map<u64, u8>, entries: Seq<(u64, u8)>) -> Map<u64, u8>
    decreases entries.len(),
{
    if entries.len() == 0 {
        m
    } else {
        inserted_all(m, entries.drop_last()).insert(entries.last().0, entries.last().1)
    }
}

impl GlobalGroupInfos {
    /// No group and no component.
    pub fn new() -> (r: Self)
        ensures
            r.group_count == 0,
            r.component_bindings@ == Map::<u64, u32>::empty(),
            r.component_positions@.len() == 0,
    {
        GlobalGroupInfos { group_count: 0, component_bindings: HashMap::new(), component_positions: Vec::new() }
    }

    /// Adds a group with no component positions yet and returns its id.
    pub fn new_group(&mut self) -> (id: usize)
        requires
            old(self).group_count < usize::MAX,
        ensures
            id == old(self).group_count,
            final(self).group_count == old(self).group_count + 1,
            positions_view(final(self).component_positions@) == positions_view(old(self).component_positions@).push(Map::empty()),
            final(self).component_bindings@ == old(self).component_bindings@,
    {
        broadcast use group_hash_axioms;
        let id = self.group_count;
        self.group_count = self.group_count + 1;
        let ghost before = self.component_positions@;
        self.component_positions.push(HashMap::new());
        assert(positions_view(self.component_positions@) =~= positions_view(before).push(Map::empty()));
        id
    }

    /// Records the position of each component of group `group_id`.
    pub fn register_component_positions(&mut self, group_id: usize, positions: Vec<(u64, u8)>)
        requires
            group_id < old(self).component_positions@.len(),
        ensures
            final(self).group_count == old(self).group_count,
            final(self).component_bindings@ == old(self).component_bindings@,
            positions_view(final(self).component_positions@) == positions_view(old(self).component_positions@).update(
                group_id as int,
                inserted_all(old(self).component_positions@[group_id as int]@, positions@),
            ),
    {
        broadcast use group_hash_axioms;
        let mut map = self.component_positions.remove(group_id);
        let ghost start = map@;
        assert(start == old(self).component_positions@[group_id as int]@);
        let mut i: usize = 0;
        while i < positions.len()
            invariant
                i <= positions@.len(),
                map@ == inserted_all(start, positions@.take(i as int)),
            decreases positions@.len() - i,
        {
            let (id, pos) = positions[i];
            map.insert(id, pos);
            assert(positions@.take(i + 1).drop_last() =~= positions@.take(i as int));
            i = i + 1;
        }
        assert(positions@.take(positions@.len() as int) =~= positions@);
        self.component_positions.insert(group_id, map);
        assert(positions_view(self.component_positions@) =~= positions_view(old(self).component_positions@).update(
            group_id as int,
            inserted_all(start, positions@),
        ));
    }

    /// The buffer binding of component `id`, giving it the next free one if
    /// it has none; `true` when the binding is new and the component's
    /// buffer has to be set up.
    pub fn component_binding(&mut self, id: u64) -> (r: (u32, bool))
        requires
            dense_bindings(old(self).component_bindings@),
            !old(self).component_bindings@.contains_key(id) ==> old(self).component_bindings@.dom().len() < u32::MAX,
        ensures
            dense_bindings(final(self).component_bindings@),
            final(self).group_count == old(self).group_count,
            final(self).component_positions@ == old(self).component_positions@,
            old(self).component_bindings@.contains_key(id) ==> r == (old(self).component_bindings@[id], false)
                && final(self).component_bindings@ == old(self).component_bindings@,
            !old(self).component_bindings@.contains_key(id) ==> r == (old(self).component_bindings@.dom().len() as u32, true)
                && final(self).component_bindings@ == old(self).component_bindings@.insert(id, old(self).component_bindings@.dom().len() as u32),
    {
        broadcast use group_hash_axioms;
        match self.component_bindings.get(&id) {
            Some(b) => (*b, false),
            None => {
                let n = self.component_bindings.len() as u32;
                let ghost m0 = self.component_bindings@;
                self.component_bindings.insert(id, n);
                proof {
                    let m1 = self.component_bindings@;
                    assert(m1.dom() =~= m0.dom().insert(id));
                    assert(m1.dom().len() == m0.dom().len() + 1);
                    assert forall|f: u64| #[trigger] m1.contains_key(f) implies m1[f] < m1.dom().len() by {
                        if f != id { assert(m0.contains_key(f)); }
                    }
                    assert forall|f: u64, g: u64| m1.contains_key(f) && m1.contains_key(g) && f != g implies #[trigger] m1[f] != #[trigger] m1[g] by {
                        if f != id && g != id {
                            assert(m0[f] != m0[g]);
                        } else if f == id {
                            assert(m0.contains_key(g));
                        } else {
                            assert(m0.contains_key(f));
                        }
                    }
                }
                (n, true)
            },
        }
    }
}

} // verus!
