use popcorn::shape::{compatible, natural_strides, target_shape, try_natural_strides, BroadcastDimension};

#[test]
fn compatible_reflexive_for_equal_shapes() {
    assert!(compatible(&[], &[]));
    assert!(compatible(&[4], &[4]));
    assert!(compatible(&[2, 3, 4], &[2, 3, 4]));
    assert!(compatible(&[1, 1], &[1, 1]));
}

#[test]
fn compatible_broadcast_axis() {
    assert!(compatible(&[4], &[1]));
    assert!(compatible(&[1], &[4]));
}

#[test]
fn compatible_mismatched_axes() {
    assert!(!compatible(&[3], &[4]));
    assert!(!compatible(&[2, 3], &[2, 4]));
}

#[test]
fn compatible_right_aligned_with_padding() {
    assert!(compatible(&[4], &[3, 4]));
    assert!(compatible(&[7, 3, 4], &[3, 4]));
    assert!(!compatible(&[3, 4], &[4, 4]));
}

#[test]
fn target_shape_pads_shorter_left() {
    assert_eq!(target_shape(&[1, 4], &[3, 4]), vec![3, 4]);
    assert_eq!(target_shape(&[4], &[3, 4]), vec![3, 4]);
    assert_eq!(target_shape(&[3, 4], &[4]), vec![3, 4]);
    assert_eq!(target_shape(&[2, 1, 4], &[3, 1]), vec![2, 3, 4]);
}

#[test]
fn natural_strides_row_major() {
    assert_eq!(natural_strides(&[2, 3, 4]), vec![12, 4, 1]);
    assert_eq!(natural_strides(&[5]), vec![1]);
    assert_eq!(natural_strides(&[]), Vec::<usize>::new());
}

#[test]
fn natural_strides_overflow_refused() {
    assert!(try_natural_strides(&[1, usize::MAX, 2]).is_none());
    assert!(try_natural_strides(&[2, 3]).is_some());
}

#[test]
fn shape_from_iters_marks_broadcast_axes() {
    let shape: Vec<usize> = vec![1, 4];
    let bshape: Vec<usize> = vec![3, 4];
    let strides: Vec<usize> = vec![4, 1];
    let dims = BroadcastDimension::shape_from_iters(&shape, &bshape, &strides);
    assert_eq!(dims.len(), 2);
    // axis of source length 1: broadcast, stride 0, iterated 3 times
    assert_eq!(dims[0], BroadcastDimension { size: 4, stride: 0, target: 3 });
    // ordinary axis: natural stride, iterated 4 times
    assert_eq!(dims[1], BroadcastDimension { size: 1, stride: 1, target: 4 });
}

#[test]
fn shape_from_iters_pads_missing_axes() {
    let shape: Vec<usize> = vec![4];
    let bshape: Vec<usize> = vec![3, 4];
    let strides: Vec<usize> = vec![1];
    let dims = BroadcastDimension::shape_from_iters(&shape, &bshape, &strides);
    assert_eq!(dims.len(), 2);
    assert_eq!(dims[0], BroadcastDimension { size: 1, stride: 0, target: 3 });
    assert_eq!(dims[1], BroadcastDimension { size: 1, stride: 1, target: 4 });
}
