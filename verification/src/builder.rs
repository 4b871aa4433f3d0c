use crate::flag::Flag;
use std::collections::HashMap;
use vstd::prelude::*;
use vstd::std_specs::hash::group_hash_axioms;

verus! {

/// An operation applied to a shape: where it stands among the shape's
/// operations and the flag of the operation kind.
#[derive(Debug, Clone, Copy)]
pub struct OperationEntry {
    pub order: usize,
    pub flag: Flag,
}

impl OperationEntry {
    /// The entry at `order` for the operation kind `flag`.
    pub fn new(order: usize, flag: Flag) -> (r: Self)
        ensures
            r.order == order,
            r.flag == flag,
    {
        OperationEntry { order, flag }
    }
}

/// The operations applied to a shape, by the entity bits of each operand.
pub struct Operations {
    pub entries: HashMap<u64, OperationEntry>,
}

impl Operations {
    /// No operation.
    pub fn new() -> (r: Self)
        ensures
            r.entries@ == Map::<u64, OperationEntry>::empty(),
    {
        Operations { entries: HashMap::new() }
    }
}

/// Adds operands to a shape, each after the ones added before it.
pub struct SdfOperationSpawner {
    pub origin: u64,
    pub order: usize,
}

/// Why an operand could not be added.
#[derive(Debug, Clone, Copy, PartialEq, Eq, Structural)]
pub enum OperationError {
    /// The operation kind was never registered.
    NotRegistered,
}

impl SdfOperationSpawner {
    /// A spawner for the shape `origin`; its first operand gets order ten.
    pub fn new(origin: u64) -> (r: Self)
        ensures
            r.origin == origin,
            r.order == 10,
    {
        SdfOperationSpawner { origin, order: 10 }
    }

    /// Records the operand `op_entity` in the shape's operations under the
    /// current order and the operation kind's flag, if the kind is
    /// registered; the next operand's order is ten more either way.
    pub fn operation(&mut self, operations: &mut Operations, op_entity: u64, flag: Option<Flag>) -> (r: Result<(), OperationError>)
        requires
            old(self).order + 10 <= usize::MAX,
        ensures
            final(self).order == old(self).order + 10,
            final(self).origin == old(self).origin,
            flag is None ==> r == Err::<(), OperationError>(OperationError::NotRegistered)
                && final(operations).entries@ == old(operations).entries@,
            flag matches Some(f) ==> r is Ok && final(operations).entries@ == old(operations).entries@.insert(
                op_entity,
                OperationEntry { order: old(self).order, flag: f },
            ),
    {
        broadcast use group_hash_axioms;
        let r = match flag {
            None => Err(OperationError::NotRegistered),
            Some(f) => {
                operations.entries.insert(op_entity, OperationEntry::new(self.order, f));
                Ok(())
            },
        };
        self.order = self.order + 10;
        r
    }
}

} // verus!
