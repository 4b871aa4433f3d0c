use crate::shader::building::{Operation, OperationInfo};
use crate::shader::lines::{linefy, Lines};
use vstd::prelude::*;

verus! {

broadcast use vstd::string::group_string_axioms;

/// The WGSL source of the union helper.
pub open spec fn union_source() -> Seq<char> {
    "fn sdf_union(r1: SdfResult, r2: SdfResult) -> SdfResult { if r1.distance < r2.distance { return r1; } else { return r2; } }"@
}

/// The WGSL source of the smooth union helper.
pub open spec fn smooth_union_source() -> Seq<char> {
    "fn sdf_smooth_union(r1: SdfResult, r2: SdfResult, smoothness: f32) -> SdfResult { let mix = clamp(0.5 + 0.5 * (r2.distance - r1.distance) / smoothness, 0.0, 1.0); let distance_correction = smoothness * mix * (1.0 - mix); return SdfResult(mix(r2.distance, r1.distance, mix) - distance_correction, mix(r2.color, r1.color, mix),); }"@
}

/// The WGSL source of the subtraction helper.
pub open spec fn subtract_source() -> Seq<char> {
    "fn sdf_subtract(r1: SdfResult, r2: SdfResult) -> SdfResult { if r1.distance > -r2.distance { return r1; } else { return SdfResult(-r2.distance, r1.color); } }"@
}

/// The operand's result replaces the shape's.
pub struct Base;

impl Operation for Base {
    open spec fn spec_snippets() -> Seq<Seq<char>> { Seq::empty() }

    open spec fn spec_operation() -> Seq<char> { "op"@ }

    fn operation_info() -> (r: OperationInfo) {
        OperationInfo { snippets: Lines::new(), operation: String::from_str("op") }
    }
}

/// The nearer of the two shapes.
pub struct Union;

impl Operation for Union {
    open spec fn spec_snippets() -> Seq<Seq<char>> { linefy(union_source()) }

    open spec fn spec_operation() -> Seq<char> { "sdf_union(result, op)"@ }

    fn operation_info() -> (r: OperationInfo) {
        OperationInfo {
            snippets: Lines::from_linefy(String::from_str("fn sdf_union(r1: SdfResult, r2: SdfResult) -> SdfResult { if r1.distance < r2.distance { return r1; } else { return r2; } }")),
            operation: String::from_str("sdf_union(result, op)"),
        }
    }
}

/// The union of the two shapes with a rounded seam.
pub struct SmoothUnion;

impl Operation for SmoothUnion {
    open spec fn spec_snippets() -> Seq<Seq<char>> { linefy(smooth_union_source()) }

    open spec fn spec_operation() -> Seq<char> { "sdf_smooth_union(result, op)"@ }

    fn operation_info() -> (r: OperationInfo) {
        OperationInfo {
            snippets: Lines::from_linefy(String::from_str("fn sdf_smooth_union(r1: SdfResult, r2: SdfResult, smoothness: f32) -> SdfResult { let mix = clamp(0.5 + 0.5 * (r2.distance - r1.distance) / smoothness, 0.0, 1.0); let distance_correction = smoothness * mix * (1.0 - mix); return SdfResult(mix(r2.distance, r1.distance, mix) - distance_correction, mix(r2.color, r1.color, mix),); }")),
            operation: String::from_str("sdf_smooth_union(result, op)"),
        }
    }
}

/// The shape with the operand cut out of it.
pub struct Subtract;

impl Operation for Subtract {
    open spec fn spec_snippets() -> Seq<Seq<char>> { linefy(subtract_source()) }

    open spec fn spec_operation() -> Seq<char> { "sdf_subtract(result, op)"@ }

    fn operation_info() -> (r: OperationInfo) {
        OperationInfo {
            snippets: Lines::from_linefy(String::from_str("fn sdf_subtract(r1: SdfResult, r2: SdfResult) -> SdfResult { if r1.distance > -r2.distance { return r1; } else { return SdfResult(-r2.distance, r1.color); } }")),
            operation: String::from_str("sdf_subtract(result, op)"),
        }
    }
}

} // verus!
