use vstd::prelude::*;

verus! {

/// The entities that extend a shape, in the order they were attached, each
/// by its entity bits.
pub struct Extensions(pub Vec<u64>);

impl Extensions {
    /// No extension.
    pub fn new() -> (r: Self)
        ensures
            r.0@ == Seq::<u64>::empty(),
    {
        Extensions(Vec::new())
    }

    /// Attaches `entity` and returns the index it is known by: the number of
    /// extensions after attaching it, kept to its low eight bits.
    pub fn push_extension(&mut self, entity: u64) -> (index: u8)
        requires
            old(self).0@.len() < usize::MAX,
        ensures
            final(self).0@ == old(self).0@.push(entity),
            index == (old(self).0@.len() + 1) as u8,
    {
        self.0.push(entity);
        let len = self.0.len();
        len as u8
    }
}

} // verus!
