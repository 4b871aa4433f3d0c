use cuttle::shader::building::OperationInfos;
use cuttle::builtins::sdf::SdfOrder;
use cuttle::implementations::components::{border_shader_info, elongated_shader_info, fill_shader_info, point_shader_info, shader_input};
use cuttle::implementations::operations::{Base, Subtract, Union};
use cuttle::implementations::setup::{border_setup, line_setup, point_setup, RenderableSdf};
use cuttle::operations::{basic_operation_shader, require_snippets, snippet, valued_operation_shader, OperationsFlag};
use cuttle::render::shader::buffers::StorageBufferType;
use cuttle::render::shader::variants::{Calculation, SdfCalculationBuilder};
use cuttle::shader::building::Operation;

#[test]
fn sdf_order_values() {
    assert_eq!(u32::from(SdfOrder::Prepare), 1000);
    assert_eq!(u32::from(SdfOrder::Translation), 2000);
    assert_eq!(u32::from(SdfOrder::Base), 3000);
    assert_eq!(u32::from(SdfOrder::Operations), 7000);
    assert_eq!(u32::from(SdfOrder::Result), 9999);
    assert!(u32::from(SdfOrder::Last) < u32::from(SdfOrder::Result));
}

#[test]
fn operation_infos() {
    let base = Base::operation_info();
    assert!(base.snippets.lines.is_empty());
    assert_eq!(base.operation, "op");
    let union = Union::operation_info();
    assert_eq!(union.operation, "sdf_union(result, op)");
    assert_eq!(union.snippets.lines[0], "fn sdf_union(r1: SdfResult, r2: SdfResult) -> SdfResult {");
    let subtract = Subtract::operation_info();
    assert_eq!(subtract.operation, "sdf_subtract(result, op)");
    assert_eq!(subtract.snippets.lines.last().unwrap(), "}");
}

#[test]
fn component_shader_infos() {
    let point = point_shader_info();
    assert!(point.inputs.is_empty());
    assert_eq!(point.calculations.len(), 1);
    assert_eq!(point.calculations[0].id, 1);
    assert_eq!(point.calculations[0].order, 1000);
    assert_eq!(point.calculations[0].calculation, "length(position)");
    let fill = fill_shader_info();
    assert_eq!(fill.inputs[0].name, "fill");
    assert_eq!(fill.inputs[0].wgsl_type, "vec3<f32>");
    assert_eq!(fill.calculations[0].id, 2);
    let border = border_shader_info();
    assert_eq!(border.inputs.len(), 2);
    assert_eq!(border.inputs[1].wgsl_type, "f32");
    assert_eq!(border.calculations[0].order, 4000);
    assert_eq!(border.snippets.lines[0], "fn add_border(distance: f32, color: vec3<f32>, border_color: vec3<f32>, border_thickness: f32) -> vec3<f32> {");
    assert_eq!(elongated_shader_info().calculations[0].calculation, "elongate_point(position, input.elongated");
}

#[test]
fn storage_types() {
    assert_eq!(StorageBufferType::Vec3.align(), 16);
    assert_eq!(StorageBufferType::Vec3.size(), 12);
    assert_eq!(StorageBufferType::Mat2.size(), 16);
    assert_eq!(StorageBufferType::Mat4.wgsl_type_name(), "mat4x4<f32>");
    let input = shader_input(StorageBufferType::Vec2, "size");
    assert_eq!(input.name, "size");
    assert_eq!(input.wgsl_type, "vec2<f32>");
}

#[test]
fn setups_fill_the_calculation_builder() {
    let mut b = SdfCalculationBuilder::new(3);
    point_setup(&mut b);
    line_setup(&mut b);
    border_setup(&mut b);
    assert_eq!(b.distance, vec!["length(position)".to_string(), "dist_to_line(position, input.line_length)".to_string()]);
    assert_eq!(b.input.len(), 3);
    assert_eq!(b.input[0], ("line_length".to_string(), "f32".to_string()));
    assert_eq!(b.extra.len(), 2);
    assert_eq!(b.extra[0].0, RenderableSdf::Line.bit());
    assert_eq!(b.extra[1].0, 4096);
    line_setup(&mut b);
    assert_eq!(b.extra.len(), 2);
    assert_eq!(b.pixel_color.len(), 1);
    let lines = b.calculation(Calculation::Distance).lines;
    assert_eq!(lines[0], "result.distance = length(position);");
    let lines = b.calculation(Calculation::Position).lines;
    assert_eq!(lines, vec!["var position = world_position;".to_string()]);
}

#[test]
fn operation_shaders_and_snippets() {
    assert_eq!(OperationsFlag::SmoothUnion.func_name(), "smooth_union");
    assert_eq!(require_snippets(OperationsFlag::XOR), vec![OperationsFlag::XOR, OperationsFlag::Union, OperationsFlag::Intersect, OperationsFlag::Subtract]);
    assert_eq!(require_snippets(OperationsFlag::Union), vec![OperationsFlag::Union]);
    assert!(snippet(OperationsFlag::Base).lines.is_empty());
    assert_eq!(snippet(OperationsFlag::Union).lines[0], "fn sdf_union(r1: SdfResult, r2: SdfResult) -> SdfResult {");
    let mut b = SdfCalculationBuilder::new(0);
    basic_operation_shader(OperationsFlag::Union, &mut b, 4);
    assert_eq!(b.input[0], ("union_4_0".to_string(), "u32".to_string()));
    assert_eq!(b.operations[0], "sdf_union(result, calc_sdf4(input.union_4_0, position))");
    valued_operation_shader(OperationsFlag::SmoothUnion, &mut b, 2);
    assert_eq!(b.input[1], ("smooth_union_2_1".to_string(), "u32".to_string()));
    assert_eq!(b.input[2], ("smooth_union_2_1_value".to_string(), "f32".to_string()));
    assert_eq!(b.operations[1], "sdf_smooth_union(result, calc_sdf2(input.smooth_union_2_1, position), input.smooth_union_2_1_value)");
}

#[test]
fn operation_infos_register_in_order() {
    let mut infos = OperationInfos::new();
    assert_eq!(infos.infos.len(), 32);
    assert_eq!(infos.infos[3].operation, "UNINITIALIZED3");
    assert_eq!(infos.register(Union::operation_info()), 0);
    assert_eq!(infos.register(Subtract::operation_info()), 1);
    assert_eq!(infos.infos[0].operation, "sdf_union(result, op)");
    assert_eq!(infos.infos[1].operation, "sdf_subtract(result, op)");
    assert_eq!(infos.count, 2);
}
