use vstd::prelude::*;

verus! {

/// The group of the built-in shapes drawn in the world.
#[derive(Debug, Default, Clone, Copy)]
pub struct Sdf;

/// The group of the built-in shapes drawn in the user interface.
#[derive(Debug, Default, Clone, Copy)]
pub struct UiSdf;

/// Where the steps of the built-in components stand in a shape's distance
/// function, earliest first.
#[derive(Debug, Clone, Copy, PartialEq, Eq, Structural)]
pub enum SdfOrder {
    Prepare,
    Translation,
    Base,
    Distance,
    Color,
    Alpha,
    Operations,
    Last,
    Result,
}

/// The sort value of each stage.
pub open spec fn order_value(order: SdfOrder) -> u32 {
    match order {
        SdfOrder::Prepare => 1000,
        SdfOrder::Translation => 2000,
        SdfOrder::Base => 3000,
        SdfOrder::Distance => 4000,
        SdfOrder::Color => 5000,
        SdfOrder::Alpha => 6000,
        SdfOrder::Operations => 7000,
        SdfOrder::Last => 8000,
        SdfOrder::Result => 9999,
    }
}

impl From<SdfOrder> for u32 {
    fn from(value: SdfOrder) -> (r: u32) {
        match value {
            SdfOrder::Prepare => 1000,
            SdfOrder::Translation => 2000,
            SdfOrder::Base => 3000,
            SdfOrder::Distance => 4000,
            SdfOrder::Color => 5000,
            SdfOrder::Alpha => 6000,
            SdfOrder::Operations => 7000,
            SdfOrder::Last => 8000,
            SdfOrder::Result => 9999,
        }
    }
}

impl vstd::std_specs::convert::FromSpecImpl<SdfOrder> for u32 {
    open spec fn obeys_from_spec() -> bool {
        true
    }

    open spec fn from_spec(v: SdfOrder) -> u32 {
        order_value(v)
    }
}

/// Marks a shape whose base distance is prepared before its components run.
#[derive(Debug, Default, Clone, Copy)]
pub struct PrepareBase;

/// Makes a shape's alpha follow a force-field pattern.
#[derive(Debug, Default, Clone, Copy)]
pub struct ForceFieldAlpha;

/// Marks an operand whose result is prepared for an operation.
#[derive(Debug, Default, Clone, Copy)]
pub struct PrepareOperation;

/// Joins an operand to its shape.
#[derive(Debug, Default, Clone, Copy)]
pub struct Unioni;

/// Cuts an operand out of its shape.
#[derive(Debug, Default, Clone, Copy)]
pub struct Subtract;

/// Keeps what an operand and its shape share.
#[derive(Debug, Default, Clone, Copy)]
pub struct Intersect;

/// Keeps what either an operand or its shape covers, but not both.
#[derive(Debug, Default, Clone, Copy)]
pub struct Xor;

/// The stages run in the order they are declared: each stage's sort value
/// is below the next one's.
pub proof fn lemma_sdf_order_increasing()
    ensures
        order_value(SdfOrder::Prepare) < order_value(SdfOrder::Translation),
        order_value(SdfOrder::Translation) < order_value(SdfOrder::Base),
        order_value(SdfOrder::Base) < order_value(SdfOrder::Distance),
        order_value(SdfOrder::Distance) < order_value(SdfOrder::Color),
        order_value(SdfOrder::Color) < order_value(SdfOrder::Alpha),
        order_value(SdfOrder::Alpha) < order_value(SdfOrder::Operations),
        order_value(SdfOrder::Operations) < order_value(SdfOrder::Last),
        order_value(SdfOrder::Last) < order_value(SdfOrder::Result),
{
}

} // verus!
