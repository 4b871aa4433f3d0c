use crate::implementations::calculations::{Distance, PixelColor, Position};
use crate::render::shader::buffers::{type_wgsl_name, StorageBufferType};
use crate::shader::building::{CompShaderInfo, ShaderInput};
use crate::shader::calculations::{CalculationInfo, SdfCalculation};
use crate::shader::lines::{linefy, Lines};
use crate::text::push_str;
use vstd::prelude::*;

verus! {

broadcast use vstd::string::group_string_axioms;

/// The name and WGSL type of each input field.
pub open spec fn inputs_view(inputs: Seq<ShaderInput>) -> Seq<(Seq<char>, Seq<char>)> {
    inputs.map_values(|i: ShaderInput| (i.name@, i.wgsl_type@))
}

/// The calculation, place and expression of each step.
pub open spec fn calcs_view(calcs: Seq<CalculationInfo>) -> Seq<(u64, usize, Seq<char>)> {
    calcs.map_values(|c: CalculationInfo| (c.id, c.order, c.calculation@))
}

/// `info` has exactly the given inputs, steps and helper lines.
pub open spec fn info_is(
    info: CompShaderInfo,
    inputs: Seq<(Seq<char>, Seq<char>)>,
    calcs: Seq<(u64, usize, Seq<char>)>,
    snippets: Seq<Seq<char>>,
) -> bool {
    &&& inputs_view(info.inputs@) == inputs
    &&& calcs_view(info.calculations@) == calcs
    &&& info.snippets@ == snippets
}

/// An input field named `name` of type `t`.
pub fn shader_input(t: StorageBufferType, name: &str) -> (r: ShaderInput)
    ensures
        r.name@ == name@,
        r.wgsl_type@ == type_wgsl_name(t)@,
{
    let mut n = String::new();
    push_str(&mut n, name);
    let mut w = String::new();
    push_str(&mut w, t.wgsl_type_name());
    ShaderInput { name: n, wgsl_type: w }
}

fn info(inputs: Vec<ShaderInput>, calc: CalculationInfo, snippets: Lines) -> (r: CompShaderInfo)
    ensures
        inputs_view(r.inputs@) == inputs_view(inputs@),
        calcs_view(r.calculations@) == seq![(calc.id, calc.order, calc.calculation@)],
        r.snippets@ == snippets@,
{
    let mut calculations = Vec::new();
    calculations.push(calc);
    let r = CompShaderInfo { inputs, calculations, snippets };
    assert(calcs_view(r.calculations@) =~= seq![(calc.id, calc.order, calc.calculation@)]);
    r
}

/// A point: the distance is the length of the position.
pub fn point_shader_info() -> (r: CompShaderInfo)
    ensures
        info_is(r, seq![], seq![(1u64, 1000usize, "length(position)"@)], seq![]),
{
    let r = info(Vec::new(), Distance::calc(1000, String::from_str("length(position)")), Lines::new());
    assert(inputs_view(r.inputs@) =~= seq![]);
    r
}

/// The WGSL source of the line distance helper.
pub open spec fn line_source() -> Seq<char> {
    "fn dist_to_line(point: vec2<f32>, length: f32) -> f32 { let x = abs(point.x) - length; return length(vec2(max(x, 0.0), point.y)); }"@
}

/// A line of a given length along the x axis.
pub fn line_shader_info() -> (r: CompShaderInfo)
    ensures
        info_is(r, seq![("line_length"@, "f32"@)], seq![(1u64, 1000usize, "dist_to_line(position, input.line_length)"@)],
            linefy(line_source())),
{
    let mut inputs = Vec::new();
    inputs.push(shader_input(StorageBufferType::F32, "line_length"));
    let snippets = Lines::from_linefy(String::from_str("fn dist_to_line(point: vec2<f32>, length: f32) -> f32 { let x = abs(point.x) - length; return length(vec2(max(x, 0.0), point.y)); }"));
    let r = info(inputs, Distance::calc(1000, String::from_str("dist_to_line(position, input.line_length)")), snippets);
    assert(inputs_view(r.inputs@) =~= seq![("line_length"@, "f32"@)]);
    r
}

/// The WGSL source of the box distance helper.
pub open spec fn rectangle_source() -> Seq<char> {
    "fn dist_to_box(point: vec2<f32>, size: vec2<f32>) -> f32 { let d = abs(point) - size; return length(max(d, vec2(0.0))) + min(max(d.x, d.y), 0.0); }"@
}

/// A rectangle of a given half size.
pub fn rectangle_shader_info() -> (r: CompShaderInfo)
    ensures
        info_is(r, seq![("rectangle_size"@, "vec2<f32>"@)], seq![(1u64, 1000usize, "dist_to_box(position, input.rectangle_size)"@)],
            linefy(rectangle_source())),
{
    let mut inputs = Vec::new();
    inputs.push(shader_input(StorageBufferType::Vec2, "rectangle_size"));
    let snippets = Lines::from_linefy(String::from_str("fn dist_to_box(point: vec2<f32>, size: vec2<f32>) -> f32 { let d = abs(point) - size; return length(max(d, vec2(0.0))) + min(max(d.x, d.y), 0.0); }"));
    let r = info(inputs, Distance::calc(1000, String::from_str("dist_to_box(position, input.rectangle_size)")), snippets);
    assert(inputs_view(r.inputs@) =~= seq![("rectangle_size"@, "vec2<f32>"@)]);
    r
}

/// A rotation of the position.
pub fn rotated_shader_info() -> (r: CompShaderInfo)
    ensures
        info_is(r, seq![("rotation"@, "mat2x2<f32>"@)], seq![(0u64, 2000usize, "input.rotation * position"@)], seq![]),
{
    let mut inputs = Vec::new();
    inputs.push(shader_input(StorageBufferType::Mat2, "rotation"));
    let r = info(inputs, Position::calc(2000, String::from_str("input.rotation * position")), Lines::new());
    assert(inputs_view(r.inputs@) =~= seq![("rotation"@, "mat2x2<f32>"@)]);
    r
}

/// A translation of the position.
pub fn translated_shader_info() -> (r: CompShaderInfo)
    ensures
        info_is(r, seq![("translation"@, "vec2<f32>"@)], seq![(0u64, 4000usize, "input.translation - position"@)], seq![]),
{
    let mut inputs = Vec::new();
    inputs.push(shader_input(StorageBufferType::Vec2, "translation"));
    let r = info(inputs, Position::calc(4000, String::from_str("input.translation - position")), Lines::new());
    assert(inputs_view(r.inputs@) =~= seq![("translation"@, "vec2<f32>"@)]);
    r
}

/// The entity's transform applied to the position.
pub fn global_transform_shader_info() -> (r: CompShaderInfo)
    ensures
        info_is(r, seq![("transform"@, "mat4x4<f32>"@)],
            seq![(0u64, 3000usize, "(input.transform * vec4(position.x, position.y, 0.0, 1.0)).xy"@)], seq![]),
{
    let mut inputs = Vec::new();
    inputs.push(shader_input(StorageBufferType::Mat4, "transform"));
    let r = info(inputs, Position::calc(3000, String::from_str("(input.transform * vec4(position.x, position.y, 0.0, 1.0)).xy")), Lines::new());
    assert(inputs_view(r.inputs@) =~= seq![("transform"@, "mat4x4<f32>"@)]);
    r
}

/// A distance grown by a constant.
pub fn added_shader_info() -> (r: CompShaderInfo)
    ensures
        info_is(r, seq![("added"@, "f32"@)], seq![(1u64, 2000usize, "result.distance - input.added"@)], seq![]),
{
    let mut inputs = Vec::new();
    inputs.push(shader_input(StorageBufferType::F32, "added"));
    let r = info(inputs, Distance::calc(2000, String::from_str("result.distance - input.added")), Lines::new());
    assert(inputs_view(r.inputs@) =~= seq![("added"@, "f32"@)]);
    r
}

/// A ring of a given thickness around the shape's outline.
pub fn annular_shader_info() -> (r: CompShaderInfo)
    ensures
        info_is(r, seq![("annular"@, "f32"@)], seq![(1u64, 3000usize, "abs(result.distance) - input.annular"@)], seq![]),
{
    let mut inputs = Vec::new();
    inputs.push(shader_input(StorageBufferType::F32, "annular"));
    let r = info(inputs, Distance::calc(3000, String::from_str("abs(result.distance) - input.annular")), Lines::new());
    assert(inputs_view(r.inputs@) =~= seq![("annular"@, "f32"@)]);
    r
}

/// The WGSL source of the bend helper.
pub open spec fn bend_source() -> Seq<char> {
    "fn bend_point(point: vec2<f32>, bend: f32) -> vec2<f32> { let c = cos(bend * point.x); let s = sin(bend * point.x); let m = mat2x2(c, -s, s, c); return m * point.xy; }"@
}

/// The position bent around the origin.
pub fn bend_shader_info() -> (r: CompShaderInfo)
    ensures
        info_is(r, seq![("bend"@, "f32"@)], seq![(0u64, 6000usize, "bend_point(position, input.bend)"@)], linefy(bend_source())),
{
    let mut inputs = Vec::new();
    inputs.push(shader_input(StorageBufferType::F32, "bend"));
    let snippets = Lines::from_linefy(String::from_str("fn bend_point(point: vec2<f32>, bend: f32) -> vec2<f32> { let c = cos(bend * point.x); let s = sin(bend * point.x); let m = mat2x2(c, -s, s, c); return m * point.xy; }"));
    let r = info(inputs, Position::calc(6000, String::from_str("bend_point(position, input.bend)")), snippets);
    assert(inputs_view(r.inputs@) =~= seq![("bend"@, "f32"@)]);
    r
}

/// The WGSL source of the elongation helper.
pub open spec fn elongated_source() -> Seq<char> {
    "fn elongate_point(point: vec2<f32>, elongate: vec2<f32>) -> vec2<f32> { let q = abs(point) - elongate; return max(q, vec2(0.0)) + min(max(q.x, q.y), 0.0); }"@
}

/// The position stretched along both axes.
pub fn elongated_shader_info() -> (r: CompShaderInfo)
    ensures
        info_is(r, seq![("elongated"@, "vec2<f32>"@)], seq![(0u64, 7000usize, "elongate_point(position, input.elongated"@)],
            linefy(elongated_source())),
{
    let mut inputs = Vec::new();
    inputs.push(shader_input(StorageBufferType::Vec2, "elongated"));
    let snippets = Lines::from_linefy(String::from_str("fn elongate_point(point: vec2<f32>, elongate: vec2<f32>) -> vec2<f32> { let q = abs(point) - elongate; return max(q, vec2(0.0)) + min(max(q.x, q.y), 0.0); }"));
    let r = info(inputs, Position::calc(7000, String::from_str("elongate_point(position, input.elongated")), snippets);
    assert(inputs_view(r.inputs@) =~= seq![("elongated"@, "vec2<f32>"@)]);
    r
}

/// A uniform colour.
pub fn fill_shader_info() -> (r: CompShaderInfo)
    ensures
        info_is(r, seq![("fill"@, "vec3<f32>"@)], seq![(2u64, 2000usize, "input.fill"@)], seq![]),
{
    let mut inputs = Vec::new();
    inputs.push(shader_input(StorageBufferType::Vec3, "fill"));
    let r = info(inputs, PixelColor::calc(2000, String::from_str("input.fill")), Lines::new());
    assert(inputs_view(r.inputs@) =~= seq![("fill"@, "vec3<f32>"@)]);
    r
}

/// Bands of a colour following the distance.
pub fn gradient_shader_info() -> (r: CompShaderInfo)
    ensures
        info_is(r, seq![("gradient_color"@, "vec3<f32>"@), ("gradient_intervall"@, "f32"@)],
            seq![(2u64, 3000usize, "mix(result.color, input.gradient_color, cos(result.distance * input.gradient_intervall))"@)], seq![]),
{
    let mut inputs = Vec::new();
    inputs.push(shader_input(StorageBufferType::Vec3, "gradient_color"));
    inputs.push(shader_input(StorageBufferType::F32, "gradient_intervall"));
    let r = info(inputs, PixelColor::calc(3000, String::from_str("mix(result.color, input.gradient_color, cos(result.distance * input.gradient_intervall))")), Lines::new());
    assert(inputs_view(r.inputs@) =~= seq![("gradient_color"@, "vec3<f32>"@), ("gradient_intervall"@, "f32"@)]);
    r
}

/// The WGSL source of the border helper.
pub open spec fn border_source() -> Seq<char> {
    "fn add_border(distance: f32, color: vec3<f32>, border_color: vec3<f32>, border_thickness: f32) -> vec3<f32> { if distance + border_thickness > 0.0 { return border_color; } else { return color; } }"@
}

/// A border of a colour and thickness inside the outline.
pub fn border_shader_info() -> (r: CompShaderInfo)
    ensures
        info_is(r, seq![("border_color"@, "vec3<f32>"@), ("border_thickness"@, "f32"@)],
            seq![(2u64, 4000usize, "add_border(result.distance, result.color, input.border_color, input.border_thickness)"@)],
            linefy(border_source())),
{
    let mut inputs = Vec::new();
    inputs.push(shader_input(StorageBufferType::Vec3, "border_color"));
    inputs.push(shader_input(StorageBufferType::F32, "border_thickness"));
    let snippets = Lines::from_linefy(String::from_str("fn add_border(distance: f32, color: vec3<f32>, border_color: vec3<f32>, border_thickness: f32) -> vec3<f32> { if distance + border_thickness > 0.0 { return border_color; } else { return color; } }"));
    let r = info(inputs, PixelColor::calc(4000, String::from_str("add_border(result.distance, result.color, input.border_color, input.border_thickness)")), snippets);
    assert(inputs_view(r.inputs@) =~= seq![("border_color"@, "vec3<f32>"@), ("border_thickness"@, "f32"@)]);
    r
}

} // verus!
