use tensor_optim::shape::checked_product;
use tensor_optim::tensor::{Tensor, TensorError};

#[test]
fn test_tensor() {
    let mut t: Tensor<f32> = Tensor::from_shape(vec![2, 3]);
    assert_eq!(t.size(), 6);
    assert_eq!(t.rank(), 2);
    assert_eq!(t.shape(), &vec![2, 3]);
    assert_eq!(t.reshape(vec![3, 2]), Ok(()));
    assert_eq!(t.size(), 6);
    assert_eq!(t.rank(), 2);
    assert_eq!(t.shape(), &vec![3, 2]);
}

#[test]
fn test_add() {
    let t1 = Tensor::new(vec![1.0, 2.0, 3.0, 4.0], vec![2, 2]);
    let t2 = Tensor::new(vec![5.0, 6.0, 7.0, 8.0], vec![2, 2]);
    let t3 = t1.add(t2).unwrap();
    assert_eq!(t3.data(), &vec![6.0, 8.0, 10.0, 12.0]);
    assert_eq!(t3.shape(), &vec![2, 2]);
}

#[test]
fn test_mul() {
    let t1 = Tensor::new(vec![1.0, 2.0, 3.0, 4.0], vec![2, 2]);
    let t2 = Tensor::new(vec![5.0, 6.0, 7.0, 8.0], vec![2, 2]);
    let t3 = t1.mul(t2).unwrap();
    assert_eq!(t3.data(), &vec![5.0, 12.0, 21.0, 32.0]);
    assert_eq!(t3.shape(), &vec![2, 2]);
}

#[test]
fn from_shape_fills_with_zeros() {
    let t: Tensor<f32> = Tensor::from_shape(vec![2, 3]);
    assert_eq!(t.data(), &vec![0.0f32; 6]);
    let u: Tensor<f64> = Tensor::from_shape(vec![4]);
    assert_eq!(u.data(), &vec![0.0f64; 4]);
}

#[test]
fn from_shape_size_is_the_product_of_the_shape() {
    let shapes: Vec<Vec<usize>> = vec![vec![], vec![1], vec![7], vec![2, 3], vec![2, 3, 4], vec![5, 0, 2], vec![0]];
    let sizes: Vec<usize> = vec![1, 1, 7, 6, 24, 0, 0];
    for (shape, size) in shapes.into_iter().zip(sizes) {
        let t: Tensor<f32> = Tensor::from_shape(shape.clone());
        assert_eq!(t.size(), size);
        assert_eq!(checked_product(t.shape()), Some(t.size()));
        assert_eq!(t.rank(), shape.len());
    }
}

#[test]
fn reshape_keeps_size_equal_to_the_product() {
    let mut t: Tensor<f32> = Tensor::from_shape(vec![2, 3, 4]);
    for shape in [vec![24], vec![4, 6], vec![1, 24, 1], vec![2, 2, 2, 3]] {
        assert_eq!(t.reshape(shape.clone()), Ok(()));
        assert_eq!(t.shape(), &shape);
        assert_eq!(checked_product(t.shape()), Some(t.size()));
    }
}

#[test]
fn reshape_to_another_size_fails_and_changes_nothing() {
    let mut t = Tensor::new(vec![1.0f32, 2.0, 3.0, 4.0, 5.0, 6.0], vec![2, 3]);
    assert_eq!(t.reshape(vec![4, 2]), Err(TensorError::ShapeMismatch));
    assert_eq!(t.shape(), &vec![2, 3]);
    assert_eq!(t.data(), &vec![1.0, 2.0, 3.0, 4.0, 5.0, 6.0]);
    assert_eq!(t.reshape(vec![]), Err(TensorError::ShapeMismatch));
    assert_eq!(t.reshape(vec![6, 0]), Err(TensorError::ShapeMismatch));
    assert_eq!(t.shape(), &vec![2, 3]);
    assert_eq!(t.size(), 6);
}

#[test]
fn reshape_to_a_shape_too_large_for_the_machine_fails() {
    let mut t: Tensor<f32> = Tensor::from_shape(vec![2, 2]);
    assert_eq!(t.reshape(vec![usize::MAX, 2]), Err(TensorError::ShapeMismatch));
    assert_eq!(t.shape(), &vec![2, 2]);
}

#[test]
fn reshape_leaves_the_data_alone() {
    let mut t = Tensor::new(vec![1.0f32, 2.0, 3.0, 4.0], vec![2, 2]);
    assert_eq!(t.reshape(vec![4]), Ok(()));
    assert_eq!(t.data(), &vec![1.0, 2.0, 3.0, 4.0]);
    assert_eq!(t.reshape(vec![1, 4]), Ok(()));
    assert_eq!(t.data(), &vec![1.0, 2.0, 3.0, 4.0]);
}

#[test]
fn reshape_compares_shapes_not_the_buffer() {
    let mut t = Tensor::new(vec![1.0f32, 2.0, 3.0], vec![2, 2]);
    assert_eq!(t.reshape(vec![4]), Ok(()));
    assert_eq!(t.shape(), &vec![4]);
    assert_eq!(t.size(), 3);
    assert_eq!(t.reshape(vec![3]), Err(TensorError::ShapeMismatch));
}

#[test]
fn new_does_not_validate_and_size_follows_the_data() {
    let t = Tensor::new(vec![1.0f32, 2.0, 3.0], vec![2, 2]);
    assert_eq!(t.size(), 3);
    assert_eq!(t.rank(), 2);
    assert_eq!(t.shape(), &vec![2, 2]);
    let u = Tensor::new(vec![9.0f32; 5], vec![2, 2]);
    let sum = t.add(u);
    assert_eq!(sum.err(), Some(TensorError::SizeMismatch));
    let a = Tensor::new(vec![1.0f32, 2.0, 3.0], vec![2, 2]);
    let b = Tensor::new(vec![1.0f32, 1.0, 1.0], vec![7]);
    let c = a.add(b).unwrap();
    assert_eq!(c.size(), 3);
    assert_eq!(c.data(), &vec![2.0, 3.0, 4.0]);
    assert_eq!(c.shape(), &vec![2, 2]);
}

#[test]
fn add_and_mul_commute() {
    let a = vec![1.5f32, -2.0, 0.25, 1.0e10, 3.0e-5, 0.0];
    let b = vec![4.0f32, 0.5, -8.0, 7.0, 2.0e3, -1.0];
    let ab = Tensor::new(a.clone(), vec![2, 3]).add(Tensor::new(b.clone(), vec![2, 3])).unwrap();
    let ba = Tensor::new(b.clone(), vec![2, 3]).add(Tensor::new(a.clone(), vec![2, 3])).unwrap();
    assert_eq!(ab.data(), ba.data());
    assert_eq!(ab.data(), &vec![5.5, -1.5, -7.75, 1.0e10 + 7.0, 3.0e-5 + 2.0e3, -1.0]);
    let ab = Tensor::new(a.clone(), vec![2, 3]).mul(Tensor::new(b.clone(), vec![2, 3])).unwrap();
    let ba = Tensor::new(b, vec![2, 3]).mul(Tensor::new(a, vec![2, 3])).unwrap();
    assert_eq!(ab.data(), ba.data());
    assert_eq!(ab.data(), &vec![6.0, -1.0, -2.0, 7.0e10, 3.0e-5 * 2.0e3, -0.0]);
}

#[test]
fn add_and_mul_of_unequal_sizes_fail() {
    let a = Tensor::new(vec![1.0f32, 2.0, 3.0], vec![3]);
    let b = Tensor::new(vec![1.0f32, 2.0], vec![2]);
    assert_eq!(a.clone().add(b.clone()).err(), Some(TensorError::SizeMismatch));
    assert_eq!(b.clone().add(a.clone()).err(), Some(TensorError::SizeMismatch));
    assert_eq!(a.clone().mul(b.clone()).err(), Some(TensorError::SizeMismatch));
    assert_eq!(b.mul(a).err(), Some(TensorError::SizeMismatch));
}

#[test]
fn add_checks_sizes_only_and_keeps_the_left_shape() {
    let a = Tensor::new(vec![1.0f32, 2.0, 3.0, 4.0, 5.0, 6.0], vec![2, 3]);
    let b = Tensor::new(vec![10.0f32, 20.0, 30.0, 40.0, 50.0, 60.0], vec![3, 2]);
    let c = a.clone().add(b.clone()).unwrap();
    assert_eq!(c.shape(), &vec![2, 3]);
    assert_eq!(c.data(), &vec![11.0, 22.0, 33.0, 44.0, 55.0, 66.0]);
    let d = b.mul(a).unwrap();
    assert_eq!(d.shape(), &vec![3, 2]);
    assert_eq!(d.data(), &vec![10.0, 40.0, 90.0, 160.0, 250.0, 360.0]);
}

#[test]
fn add_and_mul_of_empty_tensors() {
    let a: Tensor<f32> = Tensor::from_shape(vec![0, 3]);
    let b: Tensor<f32> = Tensor::from_shape(vec![0]);
    let c = a.add(b).unwrap();
    assert_eq!(c.size(), 0);
    assert_eq!(c.shape(), &vec![0, 3]);
}

#[test]
fn tensors_of_integers() {
    let a = Tensor::new(vec![1i64, 2, 3], vec![3]);
    let b = Tensor::new(vec![10i64, 20, 30], vec![3]);
    assert_eq!(a.clone().add(b.clone()).unwrap().data(), &vec![11, 22, 33]);
    assert_eq!(a.mul(b).unwrap().data(), &vec![10, 40, 90]);
    let z: Tensor<u8> = Tensor::from_shape(vec![3]);
    assert_eq!(z.data(), &vec![0u8, 0, 0]);
}
