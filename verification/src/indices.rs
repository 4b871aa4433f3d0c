use std::collections::BTreeMap;
use vstd::prelude::*;
use vstd::std_specs::btree::group_btree_axioms;
use vstd::laws_cmp::group_laws_cmp;
use vstd::std_specs::iter::IteratorSpec;
use vstd::std_specs::btree::increasing_seq;
use vstd::std_specs::cmp::OrdSpec;

verus! {

/// Where a component's index is kept in an entity's index map: the extension
/// the component lives on and the component's position in its group.
#[derive(Debug, Copy, Clone, PartialEq, Eq)]
pub struct CuttleIndex {
    pub extension_index: u8,
    pub component_id: u8,
}

/// The map key of a position: ordered by extension first, then by component,
/// as the derived ordering of the position orders them.
pub open spec fn key_of(extension_index: u8, component_id: u8) -> u16 {
    (extension_index as int * 256 + component_id as int) as u16
}

/// The extension and component a key stands for.
pub open spec fn position_of(key: u16) -> (u8, u8) {
    ((key / 256) as u8, (key % 256) as u8)
}

impl CuttleIndex {
    /// The map key of this position.
    pub fn key(&self) -> (k: u16)
        ensures
            k == key_of(self.extension_index, self.component_id),
            position_of(k) == (self.extension_index, self.component_id),
    {
        self.extension_index as u16 * 256 + self.component_id as u16
    }
}

/// A component index and component position packed into one `u32`: the
/// position in the low eight bits, the index (cut to 24 bits) above them.
pub open spec fn packed(component_id: u8, index: u32) -> u32 {
    ((index as int % 0x100_0000) * 256 + component_id as int) as u32
}

/// `r` holds the packed entries of `m` for the keys `ks`, which rise strictly.
pub open spec fn packed_in_key_order(m: Map<u16, u32>, r: Seq<u32>, ks: Seq<u16>) -> bool {
    &&& ks.len() == r.len()
    &&& forall|i: int, j: int| 0 <= i < j < ks.len() ==> ks[i] < ks[j]
    &&& forall|i: int| 0 <= i < ks.len() ==> {
        &&& m.contains_key(#[trigger] ks[i])
        &&& r[i] == packed(position_of(ks[i]).1, m[ks[i]])
    }
}

/// The per-entity map from component positions to component indices, and the
/// group the entity belongs to.
pub struct CuttleIndices {
    pub indices: BTreeMap<u16, u32>,
    pub group_id: usize,
}

impl CuttleIndices {
    /// An empty map in group 0.
    pub fn new() -> (r: Self)
        ensures
            r.indices@ == Map::<u16, u32>::empty(),
            r.group_id == 0,
    {
        Self { indices: BTreeMap::new(), group_id: 0 }
    }

    /// Packs a position and an index into one `u32`: `(index << 8) | component_id`.
    pub fn id_and_index_to_u32(pair: (&CuttleIndex, &u32)) -> (r: u32)
        ensures
            r == packed(pair.0.component_id, *pair.1),
            r & 255 == pair.0.component_id,
            r >> 8 == *pair.1 % 0x100_0000,
    {
        let (pos, index) = pair;
        let c = pos.component_id;
        let i = *index;
        let r = (i << 8u32) | (c as u32);
        proof {
            assert(c < 256);
            let cc = c as u32;
            assert(cc < 256 ==> (i << 8u32) | cc == ((i % 0x100_0000) * 256 + cc) as u32
                && ((i << 8u32) | cc) & 255 == cc && ((i << 8u32) | cc) >> 8 == i % 0x100_0000) by (bit_vector);
        }
        r
    }

    /// The group of the entity.
    pub fn group_id(&self) -> (r: usize)
        ensures
            r == self.group_id,
    {
        self.group_id
    }

    /// The packed positions and indices of all components, in key order.
    pub fn iter_as_packed_u32s(&self) -> (r: Vec<u32>)
        ensures
            r@.len() == self.indices@.dom().len(),
            exists|ks: Seq<u16>| #[trigger] packed_in_key_order(self.indices@, r@, ks),
    {
        broadcast use group_btree_axioms, group_laws_cmp;
        let mut r: Vec<u32> = Vec::new();
        let ghost entries = self.indices.iter().remaining();
        for (k, v) in it: self.indices.iter()
            invariant
                it.seq() == entries,
                r@.len() == it.index(),
                forall|i: int| 0 <= i < it.index() ==> r@[i] == packed(position_of(*(#[trigger] entries[i]).0).1, *entries[i].1),
        {
            let pos = position_from_key(*k);
            let p = Self::id_and_index_to_u32((&pos, v));
            r.push(p);
        }
        let ghost ks = entries.map_values(|kv: (&u16, &u32)| *kv.0);
        assert(ks.len() == r@.len());
        assert(increasing_seq(ks));
        assert forall|i: int, j: int| 0 <= i < j < ks.len() implies ks[i] < ks[j] by {
            assert(ks[i].cmp_spec(&ks[j]) is Less);
        }
        assert forall|i: int| 0 <= i < ks.len() implies {
            &&& self.indices@.contains_key(#[trigger] ks[i])
            &&& r@[i] == packed(position_of(ks[i]).1, self.indices@[ks[i]])
        } by {
            assert(self.indices@.contains_key(*entries[i].0));
        }
        assert(packed_in_key_order(self.indices@, r@, ks));
        r
    }

    /// Records `index` for the component at `pos`.
    pub fn set_index(&mut self, pos: CuttleIndex, index: u32)
        ensures
            final(self).indices@ == old(self).indices@.insert(pos.key_view(), index),
            final(self).group_id == old(self).group_id,
    {
        broadcast use group_btree_axioms, group_laws_cmp;
        let k = pos.key();
        self.indices.insert(k, index);
    }

    /// Forgets the index of the component at `pos`; `false` if there was none.
    pub fn remove_index(&mut self, pos: CuttleIndex) -> (found: bool)
        ensures
            final(self).indices@ == old(self).indices@.remove(pos.key_view()),
            found == old(self).indices@.contains_key(pos.key_view()),
            final(self).group_id == old(self).group_id,
    {
        broadcast use group_btree_axioms, group_laws_cmp;
        let k = pos.key();
        self.indices.remove(&k).is_some()
    }
}

/// The position a map key stands for.
pub fn position_from_key(k: u16) -> (r: CuttleIndex)
    ensures
        (r.extension_index, r.component_id) == position_of(k),
{
    CuttleIndex { extension_index: (k / 256) as u8, component_id: (k % 256) as u8 }
}

impl CuttleIndex {
    /// The map key of this position, as a value.
    pub open spec fn key_view(self) -> u16 {
        key_of(self.extension_index, self.component_id)
    }
}

/// The position of a component in the group `group_id` on extension
/// `extension_index`: `None` if the group is unknown or the component does
/// not take part in it.
pub fn index_position(positions: &[Option<u8>], group_id: usize, extension_index: u8) -> (r: Option<CuttleIndex>)
    ensures
        r == (if group_id < positions@.len() && positions@[group_id as int] is Some {
            Some(CuttleIndex { component_id: positions@[group_id as int]->0, extension_index })
        } else {
            None
        }),
{
    if group_id < positions.len() {
        match positions[group_id] {
            Some(pos) => Some(CuttleIndex { component_id: pos, extension_index }),
            None => None,
        }
    } else {
        None
    }
}

} // verus!
