use crate::shader::calculations::{CalcInit, SdfCalculation};
use vstd::prelude::*;

verus! {

/// The point a pixel is evaluated at, transformed step by step.
pub struct Position;

impl SdfCalculation for Position {
    open spec fn spec_id() -> u64 { 0 }
    open spec fn spec_order() -> usize { 1000 }
    open spec fn spec_name() -> &'static str { "position" }
    open spec fn spec_wgsl_type() -> &'static str { "vec2<f32>" }
    open spec fn spec_initialization() -> CalcInit { CalcInit::Const("world_position") }

    fn id() -> (r: u64) { 0 }
    fn order() -> (r: usize) { 1000 }
    fn name() -> (r: &'static str) { "position" }
    fn wgsl_type() -> (r: &'static str) { "vec2<f32>" }
    fn initialization() -> (r: CalcInit) { CalcInit::Const("world_position") }
}

/// The signed distance of the pixel to the shape.
pub struct Distance;

impl SdfCalculation for Distance {
    open spec fn spec_id() -> u64 { 1 }
    open spec fn spec_order() -> usize { 2000 }
    open spec fn spec_name() -> &'static str { "result.distance" }
    open spec fn spec_wgsl_type() -> &'static str { "f32" }
    open spec fn spec_initialization() -> CalcInit { CalcInit::NoInit }

    fn id() -> (r: u64) { 1 }
    fn order() -> (r: usize) { Position::order() + 1000 }
    fn name() -> (r: &'static str) { "result.distance" }
    fn wgsl_type() -> (r: &'static str) { "f32" }
    fn initialization() -> (r: CalcInit) { CalcInit::NoInit }
}

/// The colour of the pixel.
pub struct PixelColor;

impl SdfCalculation for PixelColor {
    open spec fn spec_id() -> u64 { 2 }
    open spec fn spec_order() -> usize { 3000 }
    open spec fn spec_name() -> &'static str { "result.color" }
    open spec fn spec_wgsl_type() -> &'static str { "vec3<f32>" }
    open spec fn spec_initialization() -> CalcInit { CalcInit::NoInit }

    fn id() -> (r: u64) { 2 }
    fn order() -> (r: usize) { Distance::order() + 1000 }
    fn name() -> (r: &'static str) { "result.color" }
    fn wgsl_type() -> (r: &'static str) { "vec3<f32>" }
    fn initialization() -> (r: CalcInit) { CalcInit::NoInit }
}

} // verus!
