use gpu_tensor::device::{is_usage_accepted, USAGE_ALL};
use gpu_tensor::tensor::{Tensor, TensorError};

#[test]
fn zeros_keeps_shape_and_is_zero() {
    let a = Tensor::zeros(&[3, 1, 2]).unwrap();
    assert_eq!(a.shape(), vec![3, 1, 2]);
    assert_eq!(a.to_array(), vec![0; 6]);
    assert_eq!(a.buffer_size(), 24);
}

#[test]
fn zeros_with_empty_axis() {
    let a = Tensor::zeros(&[4, 0]).unwrap();
    assert_eq!(a.shape(), vec![4, 0]);
    assert_eq!(a.to_array(), Vec::<u32>::new());
    assert_eq!(a.buffer_size(), 0);
}

#[test]
fn zeros_of_unaddressable_shape_overflows() {
    let r = Tensor::zeros(&[usize::MAX, 2]);
    assert_eq!(r.err(), Some(TensorError::ShapeOverflow));
    let r = Tensor::zeros(&[1usize << 62, 1]);
    assert_eq!(r.err(), Some(TensorError::ShapeOverflow));
}

#[test]
fn from_data_round_trips() {
    let a = Tensor::from_data(vec![1, 2, 3, 4, 5, 6], &[2, 3]).unwrap();
    assert_eq!(a.to_array(), vec![1, 2, 3, 4, 5, 6]);
    assert_eq!(a.buffer_size(), 24);
}

#[test]
fn from_data_with_wrong_length_is_shape_mismatch() {
    let r = Tensor::from_data(vec![1, 2, 3, 4, 5], &[2, 3]);
    assert_eq!(r.err(), Some(TensorError::ShapeMismatch));
    let r = Tensor::from_data(vec![1, 2, 3, 4, 5, 6, 7], &[2, 3]);
    assert_eq!(r.err(), Some(TensorError::ShapeMismatch));
}

#[test]
fn from_data_of_unaddressable_shape_overflows() {
    let r = Tensor::from_data(vec![], &[usize::MAX, usize::MAX, 0]);
    assert_eq!(r.err(), Some(TensorError::ShapeOverflow));
}

#[test]
fn concatenate_middle_axis_interleaves_blocks() {
    let mut a = Tensor::from_data(vec![1, 2, 3, 4], &[2, 1, 2]).unwrap();
    let b = Tensor::from_data(vec![5, 6, 7, 8, 9, 10, 11, 12], &[2, 2, 2]).unwrap();
    a.concatenate(&b, 1).unwrap();
    assert_eq!(a.shape(), vec![2, 3, 2]);
    assert_eq!(a.to_array(), vec![1, 2, 5, 6, 7, 8, 3, 4, 9, 10, 11, 12]);
    assert_eq!(a.buffer_size(), 48);
}

#[test]
fn concatenate_leaves_other_unchanged() {
    let mut a = Tensor::from_data(vec![1, 2], &[1, 2]).unwrap();
    let b = Tensor::from_data(vec![3, 4], &[1, 2]).unwrap();
    a.concatenate(&b, 0).unwrap();
    assert_eq!(a.to_array(), vec![1, 2, 3, 4]);
    assert_eq!(b.to_array(), vec![3, 4]);
    assert_eq!(b.shape(), vec![1, 2]);
}

#[test]
fn concatenate_with_other_axis_differing_is_dimension_mismatch() {
    let mut a = Tensor::zeros(&[2, 3]).unwrap();
    let b = Tensor::zeros(&[2, 4]).unwrap();
    assert_eq!(a.concatenate(&b, 0), Err(TensorError::DimensionMismatch));
    assert_eq!(a.shape(), vec![2, 3]);
    assert_eq!(a.concatenate(&b, 1), Ok(()));
    assert_eq!(a.shape(), vec![2, 7]);
}

#[test]
fn concatenate_with_other_rank_or_axis_is_dimension_mismatch() {
    let mut a = Tensor::zeros(&[2, 3]).unwrap();
    let b = Tensor::zeros(&[2, 3, 1]).unwrap();
    assert_eq!(a.concatenate(&b, 0), Err(TensorError::DimensionMismatch));
    let c = Tensor::zeros(&[2, 3]).unwrap();
    assert_eq!(a.concatenate(&c, 2), Err(TensorError::DimensionMismatch));
    assert_eq!(a.to_array(), vec![0; 6]);
}

#[test]
fn concatenate_past_addressable_size_overflows() {
    let big = 1usize << 60;
    let mut a = Tensor::zeros(&[big, 0]).unwrap();
    let b = Tensor::zeros(&[big, 0]).unwrap();
    assert_eq!(a.concatenate(&b, 0), Err(TensorError::ShapeOverflow));
    assert_eq!(a.shape(), vec![big, 0]);
}

#[test]
fn enlarge_row_of_zero_matrix() {
    let mut a = Tensor::zeros(&[2, 3]).unwrap();
    a.enlarge_dimension(0, 1).unwrap();
    assert_eq!(a.shape(), vec![3, 3]);
    for j in 0..3 {
        assert_eq!(a.index(&[2, j]), 1);
        assert_eq!(a.index(&[0, j]), 0);
        assert_eq!(a.index(&[1, j]), 0);
    }
    assert_eq!(a.buffer_size(), 36);
}

#[test]
fn enlarge_inner_axis_appends_column() {
    let mut a = Tensor::from_data(vec![1, 2, 3, 4], &[2, 2]).unwrap();
    a.enlarge_dimension(1, 9).unwrap();
    assert_eq!(a.shape(), vec![2, 3]);
    assert_eq!(a.to_array(), vec![1, 2, 9, 3, 4, 9]);
}

#[test]
fn enlarge_missing_axis_is_dimension_mismatch() {
    let mut a = Tensor::zeros(&[2, 3]).unwrap();
    assert_eq!(a.enlarge_dimension(2, 1), Err(TensorError::DimensionMismatch));
    assert_eq!(a.shape(), vec![2, 3]);
}

#[test]
fn duplicate_first_column() {
    let mut a = Tensor::zeros(&[2, 3]).unwrap();
    a.set(&[0, 0], 1);
    a.copy_dimension(1).unwrap();
    assert_eq!(a.shape(), vec![2, 4]);
    assert_eq!(a.index(&[0, 3]), 1);
    assert_eq!(a.index(&[1, 3]), 0);
    assert_eq!(a.index(&[0, 0]), 1);
}

#[test]
fn duplicate_is_a_copy_not_a_link() {
    let mut a = Tensor::from_data(vec![1, 2, 3, 4], &[2, 2]).unwrap();
    a.copy_dimension(0).unwrap();
    a.set(&[0, 0], 7);
    assert_eq!(a.to_array(), vec![7, 2, 3, 4, 1, 2]);
}

#[test]
fn duplicate_empty_or_missing_axis_is_dimension_mismatch() {
    let mut a = Tensor::zeros(&[0, 3]).unwrap();
    assert_eq!(a.copy_dimension(0), Err(TensorError::DimensionMismatch));
    assert_eq!(a.copy_dimension(2), Err(TensorError::DimensionMismatch));
    assert_eq!(a.shape(), vec![0, 3]);
}

#[test]
fn concatenate_vector_with_wrong_length_is_shape_mismatch() {
    let mut a = Tensor::zeros(&[2, 3]).unwrap();
    assert_eq!(a.concatenate_vector(&vec![1, 2], 0), Err(TensorError::ShapeMismatch));
    assert_eq!(a.concatenate_vector(&vec![1, 2, 3], 3), Err(TensorError::DimensionMismatch));
    assert_eq!(a.concatenate_vector(&vec![5, 6], 1), Ok(()));
    assert_eq!(a.to_array(), vec![0, 0, 0, 5, 0, 0, 0, 6]);
}

#[test]
fn buffer_is_not_materialized_before_upload() {
    let a = Tensor::zeros(&[2, 3]).unwrap();
    assert!(matches!(a.buffer(), Err(TensorError::BufferNotMaterialized)));
    assert!(matches!(a.binding_resource(), Err(TensorError::BufferNotMaterialized)));
    let b = a.clone();
    assert!(matches!(b.buffer(), Err(TensorError::BufferNotMaterialized)));
}

#[test]
fn set_keeps_shape_and_writes_one_element() {
    let mut a = Tensor::zeros(&[2, 2, 2]).unwrap();
    a.set(&[1, 0, 1], 5);
    assert_eq!(a.shape(), vec![2, 2, 2]);
    assert_eq!(a.to_array(), vec![0, 0, 0, 0, 0, 5, 0, 0]);
    assert_eq!(a.index(&[1, 0, 1]), 5);
}

#[test]
fn from_data_column_major_reads_first_axis_fastest() {
    let a = Tensor::from_data_column_major(vec![1, 2, 3, 4, 5, 6], &[2, 3]).unwrap();
    assert_eq!(a.shape(), vec![2, 3]);
    assert_eq!(a.to_array(), vec![1, 3, 5, 2, 4, 6]);
    assert_eq!(a.index(&[1, 0]), 2);
    assert_eq!(a.index(&[0, 1]), 3);
    assert_eq!(a.buffer_size(), 24);
}

#[test]
fn from_data_column_major_with_wrong_length_is_shape_mismatch() {
    let r = Tensor::from_data_column_major(vec![1, 2, 3, 4, 5], &[2, 3]);
    assert_eq!(r.err(), Some(TensorError::ShapeMismatch));
}

#[test]
fn usage_rules_follow_wgpu() {
    let storage = wgpu::BufferUsages::STORAGE.bits();
    let copy_dst = wgpu::BufferUsages::COPY_DST.bits();
    let copy_src = wgpu::BufferUsages::COPY_SRC.bits();
    let map_read = wgpu::BufferUsages::MAP_READ.bits();
    let map_write = wgpu::BufferUsages::MAP_WRITE.bits();
    let index = wgpu::BufferUsages::INDEX.bits();
    let vertex = wgpu::BufferUsages::VERTEX.bits();
    assert_eq!(wgpu::BufferUsages::all().bits(), USAGE_ALL);
    assert!(is_usage_accepted(storage));
    assert!(is_usage_accepted(storage | copy_dst | copy_src));
    assert!(is_usage_accepted(map_read | copy_dst));
    assert!(is_usage_accepted(map_write | copy_src));
    assert!(is_usage_accepted(index | copy_dst));
    assert!(!is_usage_accepted(0));
    assert!(!is_usage_accepted(1 << 10));
    assert!(!is_usage_accepted(map_read | storage));
    assert!(!is_usage_accepted(map_write | copy_dst));
    assert!(!is_usage_accepted(index | vertex));
}
