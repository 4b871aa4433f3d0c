use cuttle::pipeline::bindings_with_data;
use cuttle::bounding::{check_visibility, VisibilityInputs};
use cuttle::indices::{CuttleIndex, CuttleIndices};
use cuttle::pipeline::extract::extract_indices;
use cuttle::pipeline::instance_starts;
use cuttle::pipeline::queue::{batch_items, CuttleBatch};

#[test]
fn batches_are_runs_of_equal_keys() {
    let keys = vec![Some(1), Some(1), Some(2), None, Some(2), Some(2), Some(1)];
    assert_eq!(
        batch_items(&keys),
        vec![
            CuttleBatch { first: 0, count: 2 },
            CuttleBatch { first: 2, count: 1 },
            CuttleBatch { first: 4, count: 2 },
            CuttleBatch { first: 6, count: 1 },
        ]
    );
}

#[test]
fn batches_cover_exactly_the_items_with_data() {
    let keys = vec![None, Some(3), None, None, Some(3), Some(4)];
    let batches = batch_items(&keys);
    let covered: u32 = batches.iter().map(|b| b.count).sum();
    assert_eq!(covered, 3);
    assert_eq!(batches[0], CuttleBatch { first: 1, count: 1 });
    assert!(batch_items(&vec![]).is_empty());
    assert!(batch_items(&vec![None, None]).is_empty());
}

#[test]
fn instance_starts_are_running_sums() {
    assert_eq!(instance_starts(&vec![3, 0, 2, 5]), vec![0, 3, 3, 5]);
    assert!(instance_starts(&vec![]).is_empty());
}

#[test]
fn extracted_indices_are_appended_with_their_range() {
    let mut buffer = vec![42u32];
    let mut indices = CuttleIndices::new();
    indices.set_index(CuttleIndex { extension_index: 0, component_id: 2 }, 1);
    indices.set_index(CuttleIndex { extension_index: 0, component_id: 1 }, 0);
    let range = extract_indices(&mut buffer, &indices);
    assert_eq!(range, (1, 3));
    assert_eq!(buffer, vec![42, 1, (1 << 8) | 2]);
}

#[test]
fn visibility_needs_every_condition() {
    let all = VisibilityInputs {
        camera_active: true,
        inherited_visible: true,
        layers_intersect: true,
        no_frustum_culling: false,
        no_cpu_culling: false,
        in_frustum: true,
    };
    assert!(check_visibility(all));
    assert!(!check_visibility(VisibilityInputs { camera_active: false, ..all }));
    assert!(!check_visibility(VisibilityInputs { inherited_visible: false, ..all }));
    assert!(!check_visibility(VisibilityInputs { layers_intersect: false, ..all }));
    assert!(!check_visibility(VisibilityInputs { in_frustum: false, ..all }));
    assert!(check_visibility(VisibilityInputs { in_frustum: false, no_frustum_culling: true, ..all }));
    assert!(check_visibility(VisibilityInputs { in_frustum: false, no_cpu_culling: true, ..all }));
}

#[test]
fn only_bindings_with_data_enter_the_bind_group() {
    let empty = vec![false, true, false];
    assert_eq!(bindings_with_data(&vec![2, 1, 0, 2], &empty), vec![2, 0, 2]);
    assert!(bindings_with_data(&vec![1], &empty).is_empty());
}
