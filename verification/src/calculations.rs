use vstd::prelude::*;

verus! {

/// A private shader variable of a group: its name and WGSL type.
pub struct Calculation {
    pub name: String,
    pub wgsl_type: String,
}

impl Calculation {
    /// The variable `name` of type `wgsl_type`.
    pub fn new(name: String, wgsl_type: String) -> (r: Self)
        ensures
            r.name == name,
            r.wgsl_type == wgsl_type,
    {
        Self { name, wgsl_type }
    }
}

/// The private variables of a group, in the order they were added.
pub struct Calculations(pub Vec<Calculation>);

} // verus!
