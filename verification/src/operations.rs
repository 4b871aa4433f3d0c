use crate::render::shader::variants::{steps, Calculation, SdfCalculationBuilder};
use crate::shader::lines::{linefy, Lines};
use crate::text::{decimal, push_decimal, push_str};
use vstd::prelude::*;

verus! {

broadcast use vstd::string::group_string_axioms;

/// How a shape combines with another one; `This` marks the shape itself.
#[derive(Debug, Copy, Clone, PartialEq, Eq, Structural)]
pub enum OperationsFlag {
    This,
    Base,
    Union,
    Intersect,
    Subtract,
    XOR,
    SmoothUnion,
    SmoothIntersect,
    SmoothSubtract,
    SmoothXOR,
    Merge,
}

/// The name of an operation's WGSL function, without its `sdf_` prefix.
pub open spec fn func_name(flag: OperationsFlag) -> &'static str {
    match flag {
        OperationsFlag::This => "",
        OperationsFlag::Base => "base",
        OperationsFlag::Union => "union",
        OperationsFlag::Intersect => "intersect",
        OperationsFlag::Subtract => "subtract",
        OperationsFlag::XOR => "xor",
        OperationsFlag::SmoothUnion => "smooth_union",
        OperationsFlag::SmoothIntersect => "smooth_intersect",
        OperationsFlag::SmoothSubtract => "smooth_subtract",
        OperationsFlag::SmoothXOR => "smooth_xor",
        OperationsFlag::Merge => "merge",
    }
}

impl OperationsFlag {
    /// The name of the operation's WGSL function, without its `sdf_` prefix
    /// (the shape itself has none).
    pub fn func_name(&self) -> (r: &'static str)
        requires
            *self != OperationsFlag::This,
        ensures
            r == func_name(*self),
    {
        match self {
            OperationsFlag::This => "",
            OperationsFlag::Base => "base",
            OperationsFlag::Union => "union",
            OperationsFlag::Intersect => "intersect",
            OperationsFlag::Subtract => "subtract",
            OperationsFlag::XOR => "xor",
            OperationsFlag::SmoothUnion => "smooth_union",
            OperationsFlag::SmoothIntersect => "smooth_intersect",
            OperationsFlag::SmoothSubtract => "smooth_subtract",
            OperationsFlag::SmoothXOR => "smooth_xor",
            OperationsFlag::Merge => "merge",
        }
    }
}

/// The name of the input field holding the index of an operand.
pub open spec fn operand_input(name: Seq<char>, bind: u32, n: usize) -> Seq<char> {
    name + "_"@ + decimal(bind as nat) + "_"@ + decimal(n as nat)
}

/// Adds an operand of a plain operation to a shape: an input field with the
/// operand's index, and a step combining the result with the operand's distance.
pub fn basic_operation_shader(flag: OperationsFlag, shader: &mut SdfCalculationBuilder, bind: u32)
    requires
        flag != OperationsFlag::This,
    ensures
        ({
            let input_name = operand_input(func_name(flag)@, bind, old(shader).input@.len() as usize);
            &&& final(shader).input@.len() == old(shader).input@.len() + 1
            &&& final(shader).input@.last().0@ == input_name
            &&& final(shader).input@.last().1@ == "u32"@
            &&& steps(*final(shader), Calculation::Operations) == steps(*old(shader), Calculation::Operations).push(
                "sdf_"@ + func_name(flag)@ + "(result, calc_sdf"@ + decimal(bind as nat) + "(input."@ + input_name + ", position))"@)
        }),
        forall|k: Calculation| k != Calculation::Operations ==> steps(*final(shader), k) == steps(*old(shader), k),
        final(shader).binding == old(shader).binding,
{
    let name = flag.func_name();
    let mut input_name = String::from_str(name);
    push_str(&mut input_name, "_");
    push_decimal(&mut input_name, bind as u64);
    push_str(&mut input_name, "_");
    push_decimal(&mut input_name, shader.input_len() as u64);
    let mut calc = String::from_str("sdf_");
    push_str(&mut calc, name);
    push_str(&mut calc, "(result, calc_sdf");
    push_decimal(&mut calc, bind as u64);
    push_str(&mut calc, "(input.");
    push_str(&mut calc, input_name.as_str());
    push_str(&mut calc, ", position))");
    shader.input(input_name, String::from_str("u32"));
    shader.calc(Calculation::Operations, calc);
}

/// Adds an operand of an operation with a value (a smoothness or a mix
/// factor): input fields for the operand's index and the value, and a step
/// combining the result with the operand's distance by that value.
pub fn valued_operation_shader(flag: OperationsFlag, shader: &mut SdfCalculationBuilder, bind: u32)
    requires
        flag != OperationsFlag::This,
    ensures
        ({
            let index_name = operand_input(func_name(flag)@, bind, old(shader).input@.len() as usize);
            let value_name = index_name + "_value"@;
            &&& final(shader).input@.len() == old(shader).input@.len() + 2
            &&& final(shader).input@[old(shader).input@.len() as int].0@ == index_name
            &&& final(shader).input@[old(shader).input@.len() as int].1@ == "u32"@
            &&& final(shader).input@.last().0@ == value_name
            &&& final(shader).input@.last().1@ == "f32"@
            &&& steps(*final(shader), Calculation::Operations) == steps(*old(shader), Calculation::Operations).push(
                "sdf_"@ + func_name(flag)@ + "(result, calc_sdf"@ + decimal(bind as nat) + "(input."@ + index_name
                    + ", position), input."@ + value_name + ")"@)
        }),
        forall|k: Calculation| k != Calculation::Operations ==> steps(*final(shader), k) == steps(*old(shader), k),
        final(shader).binding == old(shader).binding,
{
    let name = flag.func_name();
    let mut index_name = String::from_str(name);
    push_str(&mut index_name, "_");
    push_decimal(&mut index_name, bind as u64);
    push_str(&mut index_name, "_");
    push_decimal(&mut index_name, shader.input_len() as u64);
    let mut value_name = index_name.clone();
    push_str(&mut value_name, "_value");
    let mut calc = String::from_str("sdf_");
    push_str(&mut calc, name);
    push_str(&mut calc, "(result, calc_sdf");
    push_decimal(&mut calc, bind as u64);
    push_str(&mut calc, "(input.");
    push_str(&mut calc, index_name.as_str());
    push_str(&mut calc, ", position), input.");
    push_str(&mut calc, value_name.as_str());
    push_str(&mut calc, ")");
    shader.input(index_name, String::from_str("u32"));
    shader.input(value_name, String::from_str("f32"));
    shader.calc(Calculation::Operations, calc);
}

/// Adds the base shape of a combination: an input field with its index and
/// the step that evaluates it.
pub fn base_operation_shader(shader: &mut SdfCalculationBuilder, bind: u32)
    ensures
        final(shader).input@.len() == old(shader).input@.len() + 1,
        final(shader).input@.last().0@ == "base_"@ + decimal(bind as nat),
        final(shader).input@.last().1@ == "u32"@,
        steps(*final(shader), Calculation::Operations) == steps(*old(shader), Calculation::Operations).push(
            "calc_sdf"@ + decimal(bind as nat) + "(input.base_"@ + decimal(bind as nat) + ", position)"@),
        forall|k: Calculation| k != Calculation::Operations ==> steps(*final(shader), k) == steps(*old(shader), k),
        final(shader).binding == old(shader).binding,
{
    let mut input_name = String::from_str("base_");
    push_decimal(&mut input_name, bind as u64);
    let mut calc = String::from_str("calc_sdf");
    push_decimal(&mut calc, bind as u64);
    push_str(&mut calc, "(input.base_");
    push_decimal(&mut calc, bind as u64);
    push_str(&mut calc, ", position)");
    shader.input(input_name, String::from_str("u32"));
    shader.calc(Calculation::Operations, calc);
}

/// The operations whose helper functions an operation's shader needs.
pub open spec fn required_snippets(flag: OperationsFlag) -> Seq<OperationsFlag> {
    match flag {
        OperationsFlag::XOR => seq![OperationsFlag::XOR, OperationsFlag::Union, OperationsFlag::Intersect, OperationsFlag::Subtract],
        OperationsFlag::SmoothXOR => seq![OperationsFlag::SmoothXOR, OperationsFlag::Union, OperationsFlag::Intersect, OperationsFlag::SmoothSubtract],
        _ => seq![flag],
    }
}

/// The operations whose helper functions an operation's shader needs: its
/// own, and for the exclusive-or ones those they are built from.
pub fn require_snippets(flag: OperationsFlag) -> (r: Vec<OperationsFlag>)
    ensures
        r@ == required_snippets(flag),
{
    let r = match flag {
        OperationsFlag::XOR => vec![OperationsFlag::XOR, OperationsFlag::Union, OperationsFlag::Intersect, OperationsFlag::Subtract],
        OperationsFlag::SmoothXOR => vec![OperationsFlag::SmoothXOR, OperationsFlag::Union, OperationsFlag::Intersect, OperationsFlag::SmoothSubtract],
        _ => vec![flag],
    };
    assert(r@ =~= required_snippets(flag));
    r
}

/// The WGSL source of an operation's helper function (none for the shape
/// itself and the base shape).
pub open spec fn snippet_source(flag: OperationsFlag) -> Seq<char> {
    match flag {
        OperationsFlag::Union => "fn sdf_union(r1: SdfResult, r2: SdfResult) -> SdfResult { if r1.distance < r2.distance { return r1; } else { return r2; } }"@,
        OperationsFlag::SmoothUnion => "fn sdf_smooth_union(r1: SdfResult, r2: SdfResult, smoothness: f32) -> SdfResult { let mix = clamp( 0.5 + 0.5 * (r2.distance - r1.distance) / smoothness, 0.0, 1.0); let distance_correction = smoothness * mix * (1.0 - mix); return SdfResult( mix( r2.distance, r1.distance, mix ) - distance_correction, mix( r2.color, r1.color, mix ), ); }"@,
        OperationsFlag::Intersect => "fn sdf_intersect(r1: SdfResult, r2: SdfResult) -> SdfResult { if r1.distance > r2.distance { return r1; } else { return r2; } }"@,
        OperationsFlag::SmoothIntersect => "fn sdf_smooth_intersect(r1: SdfResult, r2: SdfResult, smoothness: f32) -> SdfResult { let mix = clamp( 0.5 - 0.5 * (r2.distance - r1.distance) / smoothness, 0.0, 1.0); let distance_correction = smoothness * mix * (1.0 - mix); return SdfResult( mix( r2.distance, r1.distance, mix ) - distance_correction, mix( r2.color, r1.color, mix ), ); }"@,
        OperationsFlag::Subtract => "fn sdf_subtract(r1: SdfResult, r2: SdfResult) -> SdfResult { if r1.distance > -r2.distance { return r1; } else { return SdfResult(-r2.distance, r1.color); } }"@,
        OperationsFlag::SmoothSubtract => "fn sdf_smooth_subtract(r1: SdfResult, r2: SdfResult, smoothness: f32) -> SdfResult { let mix = clamp( 0.5 - 0.5 * ( r1.distance + r2.distance ) / smoothness, 0.0, 1.0 ); let distance_correction = smoothness * mix * (1.0 - mix); return SdfResult( mix( r1.distance, -r2.distance, mix ) + distance_correction, r1.color, ); }"@,
        OperationsFlag::XOR => "fn sdf_xor(r1: SdfResult, r2: SdfResult) -> SdfResult { return sdf_subtract(sdf_union(r1, r2), sdf_intersect(r1, r2)); }"@,
        OperationsFlag::SmoothXOR => "fn sdf_smooth_xor(r1: SdfResult, r2: SdfResult, smoothness: f32) -> SdfResult { return sdf_smooth_subtract(sdf_union(r1, r2), sdf_intersect(r1, r2), smoothness); }"@,
        OperationsFlag::Merge => "fn sdf_merge(r1: SdfResult, r2: SdfResult, value: f32) -> SdfResult { return SdfResult(mix(r1.distance, r2.distance, value), mix(r1.color, r2.color, value)); }"@,
        _ => Seq::empty(),
    }
}

/// The helper function of an operation, as lines.
pub fn snippet(flag: OperationsFlag) -> (r: Lines)
    ensures
        flag == OperationsFlag::This || flag == OperationsFlag::Base ==> r@ == Seq::<Seq<char>>::empty(),
        flag != OperationsFlag::This && flag != OperationsFlag::Base ==> r@ == linefy(snippet_source(flag)),
{
    match flag {
        OperationsFlag::Union => Lines::from_linefy(String::from_str("fn sdf_union(r1: SdfResult, r2: SdfResult) -> SdfResult { if r1.distance < r2.distance { return r1; } else { return r2; } }")),
        OperationsFlag::SmoothUnion => Lines::from_linefy(String::from_str("fn sdf_smooth_union(r1: SdfResult, r2: SdfResult, smoothness: f32) -> SdfResult { let mix = clamp( 0.5 + 0.5 * (r2.distance - r1.distance) / smoothness, 0.0, 1.0); let distance_correction = smoothness * mix * (1.0 - mix); return SdfResult( mix( r2.distance, r1.distance, mix ) - distance_correction, mix( r2.color, r1.color, mix ), ); }")),
        OperationsFlag::Intersect => Lines::from_linefy(String::from_str("fn sdf_intersect(r1: SdfResult, r2: SdfResult) -> SdfResult { if r1.distance > r2.distance { return r1; } else { return r2; } }")),
        OperationsFlag::SmoothIntersect => Lines::from_linefy(String::from_str("fn sdf_smooth_intersect(r1: SdfResult, r2: SdfResult, smoothness: f32) -> SdfResult { let mix = clamp( 0.5 - 0.5 * (r2.distance - r1.distance) / smoothness, 0.0, 1.0); let distance_correction = smoothness * mix * (1.0 - mix); return SdfResult( mix( r2.distance, r1.distance, mix ) - distance_correction, mix( r2.color, r1.color, mix ), ); }")),
        OperationsFlag::Subtract => Lines::from_linefy(String::from_str("fn sdf_subtract(r1: SdfResult, r2: SdfResult) -> SdfResult { if r1.distance > -r2.distance { return r1; } else { return SdfResult(-r2.distance, r1.color); } }")),
        OperationsFlag::SmoothSubtract => Lines::from_linefy(String::from_str("fn sdf_smooth_subtract(r1: SdfResult, r2: SdfResult, smoothness: f32) -> SdfResult { let mix = clamp( 0.5 - 0.5 * ( r1.distance + r2.distance ) / smoothness, 0.0, 1.0 ); let distance_correction = smoothness * mix * (1.0 - mix); return SdfResult( mix( r1.distance, -r2.distance, mix ) + distance_correction, r1.color, ); }")),
        OperationsFlag::XOR => Lines::from_linefy(String::from_str("fn sdf_xor(r1: SdfResult, r2: SdfResult) -> SdfResult { return sdf_subtract(sdf_union(r1, r2), sdf_intersect(r1, r2)); }")),
        OperationsFlag::SmoothXOR => Lines::from_linefy(String::from_str("fn sdf_smooth_xor(r1: SdfResult, r2: SdfResult, smoothness: f32) -> SdfResult { return sdf_smooth_subtract(sdf_union(r1, r2), sdf_intersect(r1, r2), smoothness); }")),
        OperationsFlag::Merge => Lines::from_linefy(String::from_str("fn sdf_merge(r1: SdfResult, r2: SdfResult, value: f32) -> SdfResult { return SdfResult(mix(r1.distance, r2.distance, value), mix(r1.color, r2.color, value)); }")),
        _ => Lines::new(),
    }
}

} // verus!
