use cuttle::builder::{OperationError, Operations, SdfOperationSpawner};
use cuttle::extensions::Extensions;
use cuttle::flag::Flag;
use cuttle::groups::{component_positions, sort_and_split_component_infos, ComponentOrder, GlobalGroupInfos};
use cuttle::render::shader::loading::{bindgroup_bindings, BindGroupError, KeyRegistration, SdfShaderRegister};
use cuttle::render::shader::variants::SdfCalculationBuilder;
use cuttle::render::shader_loading::{shader_bindings_for_new_key, start_calculation_build_if_not_registered};

#[test]
fn keys_get_dense_bindings_and_pipelines_once() {
    let mut reg = SdfShaderRegister::new();
    assert_eq!(reg.register_key(10, true), KeyRegistration { binding: 0, new_pipeline: true, new_renderable: true });
    assert_eq!(reg.register_key(20, false), KeyRegistration { binding: 1, new_pipeline: false, new_renderable: true });
    assert_eq!(reg.register_key(10, true), KeyRegistration { binding: 0, new_pipeline: false, new_renderable: false });
    assert_eq!(reg.register_key(20, true), KeyRegistration { binding: 1, new_pipeline: true, new_renderable: false });
}

#[test]
fn shader_bindings_need_every_calculation() {
    let mut reg = SdfShaderRegister::new();
    reg.load_calculation(0, SdfCalculationBuilder::new(0));
    reg.load_calculation(2, SdfCalculationBuilder::new(2));
    assert_eq!(reg.shader_bindings(&vec![2, 0, 2]), Some(vec![2, 0]));
    assert_eq!(reg.shader_bindings(&vec![0, 1]), None);
}

#[test]
fn new_key_shader_bindings_once() {
    let mut reg = SdfShaderRegister::new();
    reg.load_calculation(0, SdfCalculationBuilder::new(0));
    reg.load_calculation(1, SdfCalculationBuilder::new(1));
    assert_eq!(shader_bindings_for_new_key(&mut reg, 5, &vec![1, 3], 0), None);
    assert_eq!(shader_bindings_for_new_key(&mut reg, 5, &vec![1], 0), Some(vec![1, 0]));
    assert_eq!(shader_bindings_for_new_key(&mut reg, 5, &vec![1], 0), None);
}

#[test]
fn calculation_build_starts_for_new_flags_only() {
    let mut reg = SdfShaderRegister::new();
    assert_eq!(start_calculation_build_if_not_registered(&mut reg, 9), Some(0));
    assert_eq!(start_calculation_build_if_not_registered(&mut reg, 9), None);
    assert_eq!(start_calculation_build_if_not_registered(&mut reg, 4), Some(1));
}

#[test]
fn bindgroup_errors_in_order() {
    let written = vec![true, false, true];
    assert_eq!(bindgroup_bindings(None, &written, true), Err(BindGroupError::EntityGone));
    assert_eq!(bindgroup_bindings(Some(&vec![2, 0, 2]), &written, true), Ok(vec![2, 0]));
    assert_eq!(bindgroup_bindings(Some(&vec![2, 1, 5]), &written, true), Err(BindGroupError::BufferNotWritten));
    assert_eq!(bindgroup_bindings(Some(&vec![5, 1]), &written, true), Err(BindGroupError::BindingOutOfBounds));
    assert_eq!(bindgroup_bindings(Some(&vec![0]), &written, false), Err(BindGroupError::NoSpecialization));
}

#[test]
fn components_sort_stably_and_get_positions() {
    let orders = vec![
        ComponentOrder { id: 1, sort: 3000, extension_override: None },
        ComponentOrder { id: 2, sort: 1000, extension_override: Some(1) },
        ComponentOrder { id: 3, sort: 3000, extension_override: None },
        ComponentOrder { id: 4, sort: 2000, extension_override: None },
    ];
    let (sorted, perm) = sort_and_split_component_infos(&orders);
    assert_eq!(perm, vec![1, 3, 0, 2]);
    assert_eq!(sorted.iter().map(|o| o.id).collect::<Vec<_>>(), vec![2, 4, 1, 3]);
    assert_eq!(component_positions(&sorted), vec![(2, 0), (4, 1), (1, 2), (3, 3)]);
}

#[test]
fn groups_and_component_bindings() {
    let mut global = GlobalGroupInfos::new();
    assert_eq!(global.new_group(), 0);
    assert_eq!(global.new_group(), 1);
    assert_eq!(global.group_count, 2);
    global.register_component_positions(1, vec![(7, 0), (8, 1), (7, 2)]);
    assert_eq!(global.component_positions[1].get(&7), Some(&2));
    assert_eq!(global.component_positions[1].get(&8), Some(&1));
    assert!(global.component_positions[0].is_empty());
    assert_eq!(global.component_binding(50), (0, true));
    assert_eq!(global.component_binding(60), (1, true));
    assert_eq!(global.component_binding(50), (0, false));
}

#[test]
fn extensions_are_numbered_from_one() {
    let mut ext = Extensions::new();
    assert_eq!(ext.push_extension(100), 1);
    assert_eq!(ext.push_extension(200), 2);
    assert_eq!(ext.0, vec![100, 200]);
}

#[test]
fn operations_get_increasing_orders() {
    let mut spawner = SdfOperationSpawner::new(1);
    let mut ops = Operations::new();
    assert!(spawner.operation(&mut ops, 11, Some(Flag(2))).is_ok());
    assert_eq!(spawner.operation(&mut ops, 12, None), Err(OperationError::NotRegistered));
    assert!(spawner.operation(&mut ops, 13, Some(Flag(4))).is_ok());
    assert_eq!(spawner.order, 40);
    assert_eq!(ops.entries.len(), 2);
    assert_eq!(ops.entries[&11].order, 10);
    assert_eq!(ops.entries[&13].order, 30);
    assert_eq!(ops.entries[&13].flag.0, 4);
    assert!(!ops.entries.contains_key(&12));
}

#[test]
fn component_positions_keep_low_eight_bits() {
    let orders: Vec<ComponentOrder> = (0..300u64)
        .map(|id| ComponentOrder { id, sort: 0, extension_override: None })
        .collect();
    let positions = component_positions(&orders);
    assert_eq!(positions.len(), 300);
    assert_eq!(positions[255], (255, 255));
    assert_eq!(positions[256], (256, 0));
    assert_eq!(positions[299], (299, 43));
}
