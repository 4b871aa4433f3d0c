use cuttle::flag::Flag;
use cuttle::implementations::calculations::{Distance, PixelColor, Position};
use cuttle::render::shader::building::{gen_struct, SdfShaderBuilder};
use cuttle::shader::building::{gen_sdf_function, gen_shader_input, ShaderInput};
use cuttle::shader::calculations::{gen_calculations, CalcInit, CalculationInfo, CalculationStructures, SdfCalculation};
use cuttle::shader::lines::Lines;

fn strings(v: &[&str]) -> Vec<String> {
    v.iter().map(|s| s.to_string()).collect()
}

fn structures() -> CalculationStructures {
    let mut s = CalculationStructures::new();
    s.register(Position::id(), Position::calculation_structure());
    s.register(Distance::id(), Distance::calculation_structure());
    s.register(PixelColor::id(), PixelColor::calculation_structure());
    s
}

#[test]
fn builtin_calculations_are_registered_in_order() {
    let p = Position::calculation_structure();
    assert_eq!(p.order, 1000);
    assert_eq!(p.name, "position");
    assert_eq!(p.wgsl_type, "vec2<f32>");
    assert!(matches!(p.initialization, CalcInit::Const("world_position")));
    assert_eq!(Distance::order(), 2000);
    assert_eq!(PixelColor::order(), 3000);
    assert!(matches!(PixelColor::initialization(), CalcInit::NoInit));
}

#[test]
fn calculations_are_grouped_and_sorted() {
    let calcs = vec![
        Distance::calc(1000, "length(position)".to_string()),
        Position::calc(2000, "input.t - position".to_string()),
        Position::calc(1000, "a".to_string()),
    ];
    let lines = gen_calculations(&calcs, &structures(), true);
    assert_eq!(
        lines.lines,
        strings(&[
            "var position: vec2<f32> = world_position;",
            "position = a;",
            "position = input.t - position;",
            "",
            "result.distance = length(position);",
            "",
        ])
    );
    let lines = gen_calculations(&calcs, &structures(), false);
    assert_eq!(lines.lines[0], "");
}

#[test]
fn calculation_info_new_keeps_its_parts() {
    let c = CalculationInfo::new(7, 12, "x".to_string());
    assert_eq!(c.id, 7);
    assert_eq!(c.order, 12);
    assert_eq!(c.calculation, "x");
}

#[test]
fn shader_input_declares_buffer_and_struct() {
    let inputs = vec![
        ShaderInput { name: "radius".to_string(), wgsl_type: "f32".to_string() },
        ShaderInput { name: "size".to_string(), wgsl_type: "vec2<f32>".to_string() },
    ];
    let lines = gen_shader_input(&Flag(5), 2, &inputs);
    assert_eq!(
        lines.lines,
        strings(&[
            "@group(1) @binding(2) var<storage, read> data5: array<SdfInput5>;",
            "struct SdfInput5 {",
            "radius:f32,",
            "size:vec2<f32>,",
            "}",
        ])
    );
}

#[test]
fn sdf_function_wraps_calculations() {
    let calcs = vec![Distance::calc(1000, "length(position)".to_string())];
    let lines = gen_sdf_function(&Flag(3), &calcs, &structures());
    assert_eq!(
        lines.lines,
        strings(&[
            "fn sdf3(index: u32, position: vec2<f32>) -> SdfResult",
            "{",
            "let input = data3[index];",
            "var result: SdfResult;",
            "var position: vec2<f32> = world_position;",
            "",
            "result.distance = length(position);",
            "",
            "return result;",
            "}",
        ])
    );
}

#[test]
fn gen_struct_names_fields_by_position() {
    let vars = vec![("radius".to_string(), "f32".to_string()), ("size".to_string(), "vec2<f32>".to_string())];
    let defaults = Lines::new().add("id: u32,".to_string());
    let lines = gen_struct(&vars, "Input".to_string(), defaults, |i: u8| format!("v{}_", i));
    assert_eq!(
        lines.lines,
        strings(&["struct Input", "{", "id: u32,", "v0_radius: f32,", "v1_size: vec2<f32>,", "}"])
    );
}

#[test]
fn fragment_stage_calls_the_bound_distance_function() {
    let builder = SdfShaderBuilder::new(7);
    assert_eq!(
        builder.gen_fragment_shader().lines,
        strings(&[
            "@fragment fn fragment(input: VertexOut) -> @location(0) vec4<f32>",
            "{",
            "let result = calc_sdf7(input.sdf_index, input.world_position);",
            "let alpha = smoothstep(0.0, 1.0, -result.distance);",
            "return vec4(result.color, alpha);",
            "}",
        ])
    );
    assert_eq!(builder.gen_vertex_shader().lines[0], "@vertex fn vertex(input: VertexIn) -> VertexOut {");
    assert_eq!(builder.gen_structs().lines[1], "struct SdfResult {");
}
