use cuttle::components::extract::{
    add_new_offsets, assign_indices, gather_indices, prepare_buffers_for_extract, NewBinding, SdfBindings, SdfBuffer,
};
use cuttle::render::shader::buffers::{assign_variant_indices, SdfStorageBuffer, StorageBufferType};
use cuttle::render::shader_loading::SdfRenderBuffer;

#[test]
fn storage_buffer_aligns_each_value() {
    let mut buffer = SdfStorageBuffer::new();
    buffer.push_u32(7);
    assert_eq!(buffer.bytes, 7u32.to_ne_bytes().to_vec());
    buffer.push_typed(StorageBufferType::Vec3, &[9u8; 12]);
    assert_eq!(buffer.bytes.len(), 28);
    assert_eq!(&buffer.bytes[4..16], &[0u8, 1, 2, 3, 4, 5, 6, 7, 8, 9, 10, 11]);
    assert_eq!(&buffer.bytes[16..28], &[9u8; 12]);
    assert_eq!(buffer.max_align, 16);
    let all = buffer.bytes();
    assert_eq!(all.len(), 32);
    assert_eq!(&all[28..], &[0u8, 1, 2, 3]);
}

#[test]
fn render_buffer_aligns_by_size() {
    let mut buffer = SdfRenderBuffer::new();
    buffer.push(&[1u8; 4]);
    buffer.push(&[2u8; 12]);
    assert_eq!(buffer.bytes.len(), 28);
    assert_eq!(buffer.align, 16);
    assert_eq!(buffer.bytes().len(), 32);
    buffer.clear();
    assert!(buffer.bytes.is_empty());
    assert_eq!(buffer.align, 16);
}

#[test]
fn variant_indices_count_per_binding() {
    assert_eq!(assign_variant_indices(&vec![0, 1, 0, 0, 1, 2], 3), vec![0, 0, 1, 2, 1, 0]);
}

#[test]
fn indices_and_resizes() {
    let r = assign_indices(&vec![2, 0], &vec![0, 1, 1, 2, 0, 0], 3);
    assert_eq!(r.indices, vec![0, 0, 1, 0, 1, 2]);
    assert_eq!(r.max, vec![3, 2, 1]);
    assert_eq!(r.resizes, vec![(0, 3), (1, 2), (2, 1)]);
    let r = assign_indices(&vec![5, 5], &vec![0], 2);
    assert_eq!(r.max, vec![5, 5]);
    assert!(r.resizes.is_empty());
}

#[test]
fn gathered_indices_follow_operation_order() {
    let ops = vec![(20, Some(7)), (10, Some(3)), (15, None), (10, Some(4))];
    assert_eq!(gather_indices(5, &ops), vec![5, 3, 4, 7]);
}

#[test]
fn offsets_table_grows_to_each_new_binding() {
    let mut table = vec![vec![], vec![1]];
    let events = vec![NewBinding { binding: 2, stride: 8, offsets: vec![(0, 4), (1, 0)] }];
    add_new_offsets(&mut table, &events);
    assert_eq!(table, vec![vec![usize::MAX, usize::MAX, 4], vec![1, usize::MAX, 0]]);
}

#[test]
fn buffers_are_created_then_resized() {
    let mut buffers = vec![SdfBuffer { stride: 4, bytes: vec![1, 2, 3, 4] }];
    let new = vec![NewBinding { binding: 1, stride: 2, offsets: vec![] }];
    prepare_buffers_for_extract(&mut buffers, &new, &vec![(1, 3), (0, 2), (0, 0)]);
    assert_eq!(buffers.len(), 2);
    assert!(buffers[0].bytes.is_empty());
    assert_eq!(buffers[1].bytes, vec![0u8; 6]);
    assert_eq!(buffers[1].stride, 2);
}

#[test]
fn flags_get_dense_bindings() {
    let mut bindings = SdfBindings::new();
    assert_eq!(bindings.assign(12), (0, true));
    assert_eq!(bindings.assign(7), (1, true));
    assert_eq!(bindings.assign(12), (0, false));
}
