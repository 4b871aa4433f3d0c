use crate::flag::Flag;
use crate::text::{decimal, push_decimal, push_str};
use vstd::prelude::*;

verus! {

broadcast use vstd::string::group_string_axioms;

/// The name of the index variable of an operation and the flag it combines.
pub open spec fn index_name(op: Flag, comp: Flag) -> Seq<char> {
    "i_"@ + decimal(op.0 as nat) + "_"@ + decimal(comp.0 as nat)
}

/// `i_{op}_{comp}` for an operation flag and a component flag.
pub fn flags_to_index_name(flags: &(Flag, Flag)) -> (r: String)
    ensures
        r@ == index_name(flags.0, flags.1),
{
    let (op, comp) = *flags;
    let mut r = String::from_str("i_");
    push_decimal(&mut r, op.0 as u64);
    push_str(&mut r, "_");
    push_decimal(&mut r, comp.0 as u64);
    r
}

} // verus!
