use gpu_tensor::tensor::Tensor;

struct TestStruct(Tensor);

#[test]
fn zeros_creation() {
    let a = Tensor::zeros(&[2, 3]).unwrap();
    assert_eq!(a.shape(), vec![2, 3]);
    assert_eq!(a.to_array(), vec![0, 0, 0, 0, 0, 0]);
}

#[test]
fn from_data_creation() {
    let a = Tensor::from_data(vec![1, 2, 3, 4, 5, 6], &[2, 3]).unwrap();
    assert_eq!(a.shape(), vec![2, 3]);
    assert_eq!(a.to_array(), vec![1, 2, 3, 4, 5, 6]);
    assert_eq!(a.index(&[0, 2]), 3);
    assert_eq!(a.index(&[1, 0]), 4);
}

#[test]
fn concatenation() {
    let mut a = Tensor::zeros(&[2, 3]).unwrap();
    let b = Tensor::zeros(&[2, 3]).unwrap();
    a.concatenate(&b, 0).unwrap();
    assert_eq!(a.shape(), vec![4, 3]);
    assert_eq!(a.to_array(), vec![0; 12]);

    let mut a = Tensor::zeros(&[2, 3]).unwrap();
    let b = Tensor::zeros(&[2, 3]).unwrap();
    a.concatenate(&b, 1).unwrap();
    assert_eq!(a.shape(), vec![2, 6]);
    assert_eq!(a.to_array(), vec![0; 12]);
}

#[test]
fn to_array() {
    let a = Tensor::zeros(&[2, 3]).unwrap();
    assert_eq!(a.to_array(), vec![0, 0, 0, 0, 0, 0]);
    let a = Tensor::from_data(vec![1, 2, 3, 4, 5, 6], &[2, 3]).unwrap();
    assert_eq!(a.to_array(), vec![1, 2, 3, 4, 5, 6]);
    let values: Vec<u32> = (1..=24).collect();
    let a = Tensor::from_data(values.clone(), &[2, 3, 4]).unwrap();
    assert_eq!(a.to_array(), values);
}

#[test]
fn slicing() {
    let mut a = Tensor::zeros(&[2, 3]).unwrap();
    a.set(&[0, 0], 1);
    assert_eq!(a.index(&[0, 0]), 1);
}

#[test]
fn alias_tensor2() {
    let a = Tensor::zeros(&[2, 3]).unwrap();
    let b = Tensor::zeros(&[2, 3]).unwrap();
    assert_eq!(a.shape(), b.shape());
}

#[test]
fn struct_creation() {
    let val = TestStruct(Tensor::zeros(&[2, 3]).unwrap());
    assert_eq!(val.0.shape(), vec![2, 3]);
}

#[test]
fn clone() {
    let a = Tensor::zeros(&[2, 3]).unwrap();
    let b = a.clone();
    assert_eq!(a.shape(), b.shape());
    assert_eq!(a.to_array(), b.to_array());
    assert_eq!(a.buffer_size(), b.buffer_size());
}

#[test]
fn enlarge_dimension() {
    let mut a = Tensor::zeros(&[2, 3]).unwrap();
    a.enlarge_dimension(0, 1).unwrap();
    assert_eq!(a.shape(), vec![3, 3]);
    assert_eq!(a.to_array(), vec![0, 0, 0, 0, 0, 0, 1, 1, 1]);
}

#[test]
fn copy_dimension() {
    let mut a = Tensor::zeros(&[2, 3]).unwrap();
    a.set(&[0, 0], 1);
    a.copy_dimension(0).unwrap();
    assert_eq!(a.shape(), vec![3, 3]);
    assert_eq!(a.to_array(), vec![1, 0, 0, 0, 0, 0, 1, 0, 0]);

    let mut a = Tensor::zeros(&[2, 3]).unwrap();
    a.set(&[0, 0], 1);
    a.copy_dimension(1).unwrap();
    assert_eq!(a.shape(), vec![2, 4]);
    assert_eq!(a.to_array(), vec![1, 0, 0, 1, 0, 0, 0, 0]);
}

#[test]
fn concatenate_vector() {
    let mut a = Tensor::zeros(&[2, 3]).unwrap();
    a.set(&[0, 0], 1);
    let b = vec![2, 2, 0];
    a.concatenate_vector(&b, 0).unwrap();
    assert_eq!(a.shape(), vec![3, 3]);
    assert_eq!(a.to_array(), vec![1, 0, 0, 0, 0, 0, 2, 2, 0]);
}
