use cuttle::calculations::Calculation;
use cuttle::flag::Flag;
use cuttle::shader::bindgroups::flags_to_index_name;
use cuttle::shader::gen::{comp_selector, gen_calculations, gen_shader, structs_and_bindings};
use cuttle::shader::wgsl_struct::{FieldInfo, WgslTypeInfos};
use cuttle::shader::{join_snippets, snippet_sources, AddSnippet, ComponentShaderInfo, RenderDataWgsl, ShaderInfo};

fn infos() -> Vec<ComponentShaderInfo> {
    vec![
        ComponentShaderInfo {
            function_name: "DistanceGradient".to_string(),
            render_data: Some(ShaderInfo {
                binding: 3,
                wgsl: RenderDataWgsl {
                    definition: "struct Dg {}\n".to_string(),
                    name: "Dg".to_string(),
                },
            }),
        },
        ComponentShaderInfo {
            function_name: "Fill".to_string(),
            render_data: None,
        },
    ]
}

#[test]
fn index_name_of_flags() {
    assert_eq!(flags_to_index_name(&(Flag(1), Flag(2))), "i_1_2");
    assert_eq!(flags_to_index_name(&(Flag(40), Flag(0))), "i_40_0");
}

#[test]
fn selector_dispatches_by_component_in_snake_case() {
    assert_eq!(
        comp_selector(&infos()),
        "fn component(comp_id: u32, index: u32){\n  switch comp_id {\n    case u32(0): {\n      let info = comps0[index];\n      distance_gradient(info);\n    }\n    case u32(1): {\n      fill();\n    }\n    case default: {}\n  }\n}\n"
    );
}

#[test]
fn bindings_only_for_components_with_render_data() {
    assert_eq!(
        structs_and_bindings(&infos()),
        "@group(2) @binding(3) var<storage, read> comps0: array<Dg>;\n\nstruct Dg {}\n"
    );
}

#[test]
fn private_variables_one_per_line() {
    let calcs = vec![
        Calculation::new("distance".to_string(), "f32".to_string()),
        Calculation::new("color".to_string(), "vec4<f32>".to_string()),
    ];
    assert_eq!(gen_calculations(&calcs), "var<private> distance: f32;\nvar<private> color: vec4<f32>;\n");
}

#[test]
fn group_shader_is_assembled_in_order() {
    let calcs = vec![Calculation::new("size".to_string(), "f32".to_string())];
    let shader = gen_shader(&[], &calcs, "// s".to_string());
    assert_eq!(
        shader,
        "// s\n\nvar<private> size: f32;\n\nfn component(comp_id: u32, index: u32){\n  switch comp_id {\n    case default: {}\n  }\n}\n"
    );
}

#[test]
fn wgsl_types_register_and_describe_structs() {
    let mut types = WgslTypeInfos::new();
    types.register(1, "f32");
    types.register(2, "vec2<f32>");
    types.register(1, "u32");
    assert_eq!(types.get(1), Some("u32"));
    assert_eq!(types.get(2), Some("vec2<f32>"));
    assert_eq!(types.get(3), None);
    let fields = vec![
        FieldInfo { name: "radius".to_string(), type_id: 1 },
        FieldInfo { name: "offset".to_string(), type_id: 2 },
    ];
    assert_eq!(
        types.structure_to_wgsl(&fields, "Ring"),
        "struct Ring {\n    radius: u32,\n    offset: vec2<f32>,\n}\n"
    );
}

#[test]
fn snippets_start_with_the_fragment_stage() {
    let own = vec![AddSnippet::Inline("fn a() {}".to_string()), AddSnippet::File("b.wgsl".to_string())];
    let all = snippet_sources(&own);
    assert_eq!(all.len(), 3);
    assert!(matches!(&all[0], AddSnippet::File(p) if p == "embedded://cuttle/shader/fragment.wgsl"));
    assert!(matches!(&all[1], AddSnippet::Inline(c) if c == "fn a() {}"));
    assert!(matches!(&all[2], AddSnippet::File(p) if p == "b.wgsl"));
    assert_eq!(join_snippets(&vec!["a".to_string(), "".to_string(), "bc".to_string()]), "abc");
}
