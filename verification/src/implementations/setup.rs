use crate::render::shader::variants::{extra_updated, steps, Calculation, SdfCalculationBuilder};
use crate::shader::lines::{linefy, Lines};
use crate::text::push_str;
use vstd::prelude::*;

verus! {

broadcast use vstd::string::group_string_axioms;

/// The components a shape kind can be made of, each by its flag bit.
#[derive(Debug, Clone, Copy, PartialEq, Eq, Structural)]
pub enum RenderableSdf {
    Point,
    Line,
    Rectangle,
    Rotated,
    Translated,
    Transform,
    Added,
    Annular,
    Bend,
    Stretched,
    Fill,
    Gradient,
    Border,
}

/// The flag bit of a component.
pub open spec fn renderable_bit(r: RenderableSdf) -> u32 {
    match r {
        RenderableSdf::Point => 1,
        RenderableSdf::Line => 2,
        RenderableSdf::Rectangle => 4,
        RenderableSdf::Rotated => 8,
        RenderableSdf::Translated => 16,
        RenderableSdf::Transform => 32,
        RenderableSdf::Added => 64,
        RenderableSdf::Annular => 128,
        RenderableSdf::Bend => 256,
        RenderableSdf::Stretched => 512,
        RenderableSdf::Fill => 1024,
        RenderableSdf::Gradient => 2048,
        RenderableSdf::Border => 4096,
    }
}

impl RenderableSdf {
    /// The flag bit of the component.
    pub fn bit(&self) -> (r: u32)
        ensures
            r == renderable_bit(*self),
    {
        match self {
            RenderableSdf::Point => 1,
            RenderableSdf::Line => 2,
            RenderableSdf::Rectangle => 4,
            RenderableSdf::Rotated => 8,
            RenderableSdf::Translated => 16,
            RenderableSdf::Transform => 32,
            RenderableSdf::Added => 64,
            RenderableSdf::Annular => 128,
            RenderableSdf::Bend => 256,
            RenderableSdf::Stretched => 512,
            RenderableSdf::Fill => 1024,
            RenderableSdf::Gradient => 2048,
            RenderableSdf::Border => 4096,
        }
    }
}

/// `new` is `old` with the fields `added` appended.
pub open spec fn inputs_pushed(old: Seq<(String, String)>, new: Seq<(String, String)>, added: Seq<(Seq<char>, Seq<char>)>) -> bool {
    &&& new.len() == old.len() + added.len()
    &&& new.take(old.len() as int) == old
    &&& forall|i: int| 0 <= i < added.len() ==> (new[old.len() + i].0@, new[old.len() + i].1@) == #[trigger] added[i]
}

/// What a component's setup does to the calculation builder of its shape
/// kind: appends its input fields, records its helper lines under its flag
/// if it has any, and adds one step to one calculation.
pub open spec fn setup_applied(
    old: SdfCalculationBuilder,
    new: SdfCalculationBuilder,
    inputs: Seq<(Seq<char>, Seq<char>)>,
    extra: Option<(u32, Seq<Seq<char>>)>,
    kind: Calculation,
    step: Seq<char>,
) -> bool {
    &&& inputs_pushed(old.input@, new.input@, inputs)
    &&& match extra {
        None => new.extra == old.extra,
        Some((flag, lines)) => extra_updated(old.extra@, new.extra@, flag, lines),
    }
    &&& steps(new, kind) == steps(old, kind).push(step)
    &&& forall|k: Calculation| k != kind ==> steps(new, k) == steps(old, k)
    &&& new.binding == old.binding
}

fn add_input(shader: &mut SdfCalculationBuilder, name: &str, wgsl_type: &str)
    ensures
        final(shader).input@ == old(shader).input@.push(final(shader).input@.last()),
        final(shader).input@.last().0@ == name@,
        final(shader).input@.last().1@ == wgsl_type@,
        final(shader).extra == old(shader).extra,
        final(shader).binding == old(shader).binding,
        forall|c: Calculation| steps(*final(shader), c) == steps(*old(shader), c),
{
    let mut n = String::new();
    push_str(&mut n, name);
    let mut t = String::new();
    push_str(&mut t, wgsl_type);
    shader.input(n, t);
}

/// A point: the distance is the length of the position.
pub fn point_setup(shader: &mut SdfCalculationBuilder)
    ensures
        setup_applied(*old(shader), *final(shader), seq![], None, Calculation::Distance, "length(position)"@),
{
    shader.calc(Calculation::Distance, String::from_str("length(position)"));
    assert(shader.input@.take(old(shader).input@.len() as int) =~= old(shader).input@);
}

/// The WGSL source of the line distance helper.
pub open spec fn line_source() -> Seq<char> {
    "fn dist_to_line(point: vec2<f32>, length: f32) -> f32 { let x = abs(point.x) - length; return length(vec2(max(x, 0.0), point.y)); }"@
}

/// A line along the x axis.
pub fn line_setup(shader: &mut SdfCalculationBuilder)
    ensures
        setup_applied(*old(shader), *final(shader), seq![("line_length"@, "f32"@)],
            Some((2u32, linefy(line_source()))), Calculation::Distance, "dist_to_line(position, input.line_length)"@),
{
    add_input(shader, "line_length", "f32");
    shader.extra(RenderableSdf::Line.bit(), Lines::from_linefy(String::from_str("fn dist_to_line(point: vec2<f32>, length: f32) -> f32 { let x = abs(point.x) - length; return length(vec2(max(x, 0.0), point.y)); }")));
    shader.calc(Calculation::Distance, String::from_str("dist_to_line(position, input.line_length)"));
    assert(shader.input@.take(old(shader).input@.len() as int) =~= old(shader).input@);
}

/// The WGSL source of the box distance helper.
pub open spec fn rectangle_source() -> Seq<char> {
    "fn dist_to_box(point: vec2<f32>, size: vec2<f32>) -> f32 { let d = abs(point) - size; return length(max(d, vec2(0.0))) + min(max(d.x, d.y), 0.0); }"@
}

/// A rectangle of a given half size.
pub fn rectangle_setup(shader: &mut SdfCalculationBuilder)
    ensures
        setup_applied(*old(shader), *final(shader), seq![("rectangle_size"@, "vec2<f32>"@)],
            Some((4u32, linefy(rectangle_source()))), Calculation::Distance, "dist_to_box(position, input.rectangle_size)"@),
{
    add_input(shader, "rectangle_size", "vec2<f32>");
    shader.extra(RenderableSdf::Rectangle.bit(), Lines::from_linefy(String::from_str("fn dist_to_box(point: vec2<f32>, size: vec2<f32>) -> f32 { let d = abs(point) - size; return length(max(d, vec2(0.0))) + min(max(d.x, d.y), 0.0); }")));
    shader.calc(Calculation::Distance, String::from_str("dist_to_box(position, input.rectangle_size)"));
    assert(shader.input@.take(old(shader).input@.len() as int) =~= old(shader).input@);
}

/// A rotation of the position.
pub fn rotated_setup(shader: &mut SdfCalculationBuilder)
    ensures
        setup_applied(*old(shader), *final(shader), seq![("rotation"@, "mat2x2<f32>"@)], None,
            Calculation::Position, "input.rotation * position"@),
{
    add_input(shader, "rotation", "mat2x2<f32>");
    shader.calc(Calculation::Position, String::from_str("input.rotation * position"));
    assert(shader.input@.take(old(shader).input@.len() as int) =~= old(shader).input@);
}

/// A translation of the position.
pub fn translated_setup(shader: &mut SdfCalculationBuilder)
    ensures
        setup_applied(*old(shader), *final(shader), seq![("translation"@, "vec2<f32>"@)], None,
            Calculation::Position, "input.translation - position"@),
{
    add_input(shader, "translation", "vec2<f32>");
    shader.calc(Calculation::Position, String::from_str("input.translation - position"));
    assert(shader.input@.take(old(shader).input@.len() as int) =~= old(shader).input@);
}

/// The entity's transform applied to the position.
pub fn global_transform_setup(shader: &mut SdfCalculationBuilder)
    ensures
        setup_applied(*old(shader), *final(shader), seq![("transform"@, "mat4x4<f32>"@)], None,
            Calculation::Position, "(input.transform * vec4(position.x, position.y, 0.0, 1.0)).xy"@),
{
    add_input(shader, "transform", "mat4x4<f32>");
    shader.calc(Calculation::Position, String::from_str("(input.transform * vec4(position.x, position.y, 0.0, 1.0)).xy"));
    assert(shader.input@.take(old(shader).input@.len() as int) =~= old(shader).input@);
}

/// A distance grown by a constant.
pub fn added_setup(shader: &mut SdfCalculationBuilder)
    ensures
        setup_applied(*old(shader), *final(shader), seq![("added"@, "f32"@)], None,
            Calculation::Distance, "result.distance - input.added"@),
{
    add_input(shader, "added", "f32");
    shader.calc(Calculation::Distance, String::from_str("result.distance - input.added"));
    assert(shader.input@.take(old(shader).input@.len() as int) =~= old(shader).input@);
}

/// A ring around the shape's outline.
pub fn annular_setup(shader: &mut SdfCalculationBuilder)
    ensures
        setup_applied(*old(shader), *final(shader), seq![("annular_radius"@, "f32"@)], None,
            Calculation::Distance, "abs(result.distance) - input.annular_radius"@),
{
    add_input(shader, "annular_radius", "f32");
    shader.calc(Calculation::Distance, String::from_str("abs(result.distance) - input.annular_radius"));
    assert(shader.input@.take(old(shader).input@.len() as int) =~= old(shader).input@);
}

/// The WGSL source of the bend helper.
pub open spec fn bend_source() -> Seq<char> {
    "fn bend_point(point: vec2<f32>, bend: f32) -> vec2<f32> { let c = cos(bend * point.x); let s = sin(bend * point.x); let m = mat2x2(c, -s, s, c); return m * point.xy; }"@
}

/// The position bent around the origin.
pub fn bend_setup(shader: &mut SdfCalculationBuilder)
    ensures
        setup_applied(*old(shader), *final(shader), seq![("bend"@, "f32"@)],
            Some((256u32, linefy(bend_source()))), Calculation::Position, "bend_point(position, input.bend)"@),
{
    add_input(shader, "bend", "f32");
    shader.extra(RenderableSdf::Bend.bit(), Lines::from_linefy(String::from_str("fn bend_point(point: vec2<f32>, bend: f32) -> vec2<f32> { let c = cos(bend * point.x); let s = sin(bend * point.x); let m = mat2x2(c, -s, s, c); return m * point.xy; }")));
    shader.calc(Calculation::Position, String::from_str("bend_point(position, input.bend)"));
    assert(shader.input@.take(old(shader).input@.len() as int) =~= old(shader).input@);
}

/// The WGSL source of the elongation helper.
pub open spec fn elongated_source() -> Seq<char> {
    "fn elongate_point(point: vec2<f32>, elongate: vec2<f32>) -> vec2<f32> { let q = abs(point) - elongate; return max(q, vec2(0.0)) + min(max(q.x, q.y), 0.0); }"@
}

/// The position stretched along both axes.
pub fn elongated_setup(shader: &mut SdfCalculationBuilder)
    ensures
        setup_applied(*old(shader), *final(shader), seq![("elongated"@, "vec2<f32>"@)],
            Some((512u32, linefy(elongated_source()))), Calculation::Position, "elongate_point(position, input.elongated)"@),
{
    add_input(shader, "elongated", "vec2<f32>");
    shader.extra(RenderableSdf::Stretched.bit(), Lines::from_linefy(String::from_str("fn elongate_point(point: vec2<f32>, elongate: vec2<f32>) -> vec2<f32> { let q = abs(point) - elongate; return max(q, vec2(0.0)) + min(max(q.x, q.y), 0.0); }")));
    shader.calc(Calculation::Position, String::from_str("elongate_point(position, input.elongated)"));
    assert(shader.input@.take(old(shader).input@.len() as int) =~= old(shader).input@);
}

/// A uniform colour.
pub fn fill_setup(shader: &mut SdfCalculationBuilder)
    ensures
        setup_applied(*old(shader), *final(shader), seq![("fill_color"@, "vec3<f32>"@)], None,
            Calculation::PixelColor, "input.fill_color"@),
{
    add_input(shader, "fill_color", "vec3<f32>");
    shader.calc(Calculation::PixelColor, String::from_str("input.fill_color"));
    assert(shader.input@.take(old(shader).input@.len() as int) =~= old(shader).input@);
}

/// Bands of a colour following the distance.
pub fn gradient_setup(shader: &mut SdfCalculationBuilder)
    ensures
        setup_applied(*old(shader), *final(shader), seq![("gradient_color"@, "vec3<f32>"@), ("gradient_intervall"@, "f32"@)], None,
            Calculation::PixelColor, "mix(result.color, input.gradient_color, cos(result.distance * input.gradient_intervall))"@),
{
    add_input(shader, "gradient_color", "vec3<f32>");
    add_input(shader, "gradient_intervall", "f32");
    shader.calc(Calculation::PixelColor, String::from_str("mix(result.color, input.gradient_color, cos(result.distance * input.gradient_intervall))"));
    assert(shader.input@.take(old(shader).input@.len() as int) =~= old(shader).input@);
}

/// The WGSL source of the border helper.
pub open spec fn border_source() -> Seq<char> {
    "fn add_border(distance: f32, color: vec3<f32>, border_color: vec3<f32>, border_thickness: f32,) -> vec3<f32> { if distance + border_thickness > 0.0 { return border_color; } else { return color; } }"@
}

/// A border inside the outline.
pub fn border_setup(shader: &mut SdfCalculationBuilder)
    ensures
        setup_applied(*old(shader), *final(shader), seq![("border_color"@, "vec3<f32>"@), ("border_thickness"@, "f32"@)],
            Some((4096u32, linefy(border_source()))), Calculation::PixelColor,
            "add_border(result.distance, result.color, input.border_color, input.border_thickness,)"@),
{
    add_input(shader, "border_color", "vec3<f32>");
    add_input(shader, "border_thickness", "f32");
    shader.extra(RenderableSdf::Border.bit(), Lines::from_linefy(String::from_str("fn add_border(distance: f32, color: vec3<f32>, border_color: vec3<f32>, border_thickness: f32,) -> vec3<f32> { if distance + border_thickness > 0.0 { return border_color; } else { return color; } }")));
    shader.calc(Calculation::PixelColor, String::from_str("add_border(result.distance, result.color, input.border_color, input.border_thickness,)"));
    assert(shader.input@.take(old(shader).input@.len() as int) =~= old(shader).input@);
}

} // verus!
