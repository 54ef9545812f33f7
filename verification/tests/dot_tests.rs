use popcorn::buffer::{Buffer, BufferDevice, Error};
use popcorn::broadcast::try_new_broadcast;
use popcorn::dot::Dot;
use popcorn::native;
use popcorn::operation::DotOperation;

fn device0() -> BufferDevice {
    BufferDevice::Native(native::Device::new(0))
}

#[test]
fn dot_kernel_u64() {
    assert_eq!(u64::dot(&[1, 2, 3, 4], &[2, 2, 2, 2]), 20);
    assert_eq!(u64::dot(&[], &[]), 0);
    assert_eq!(u64::dot(&[3], &[5]), 15);
}

#[test]
fn dot_kernel_wraps() {
    assert_eq!(u64::dot(&[u64::MAX, 1], &[2, 3]), u64::MAX.wrapping_mul(2).wrapping_add(3));
}

#[test]
fn bcast_dot_reduces_chopped_axis() {
    let backend = native::Backend::default();
    let dev = device0();

    let shape_vec: Vec<usize> = vec![1, 4];
    let mut shape_a: Buffer<usize> = Buffer::new(dev, 2).unwrap();
    shape_a.sync_from_vec(shape_vec.clone(), &dev).unwrap();
    let mut a: Buffer<u64> = Buffer::new(dev, 4).unwrap();
    a.sync_from_vec(vec![1, 2, 3, 4], &dev).unwrap();
    let mut shape_b: Buffer<usize> = Buffer::new(dev, 2).unwrap();
    shape_b.sync_from_vec(shape_vec.clone(), &dev).unwrap();
    let mut b: Buffer<u64> = Buffer::new(dev, 4).unwrap();
    b.sync_from_vec(vec![2, 2, 2, 2], &dev).unwrap();
    let mut shape_c: Buffer<usize> = Buffer::new(dev, 2).unwrap();
    let mut c: Buffer<u64> = Buffer::new(dev, 1).unwrap();

    backend.bcast_dot(&shape_a, &a, &shape_b, &b, &mut shape_c, &mut c).unwrap();

    assert_eq!(shape_c.sync_to_vec(&dev).unwrap(), vec![1, 1]);
    assert_eq!(c.sync_to_vec(&dev).unwrap(), vec![20]);
    // operands are untouched
    assert_eq!(a.sync_to_vec(&dev).unwrap(), vec![1, 2, 3, 4]);
    assert_eq!(b.sync_to_vec(&dev).unwrap(), vec![2, 2, 2, 2]);
}

#[test]
fn bcast_dot_broadcasts_rows() {
    // a is 3x4, b is 1x4: b's row is reused against every row of a.
    let backend = native::Backend::default();
    let dev = device0();

    let mut shape_a: Buffer<usize> = Buffer::new(dev, 2).unwrap();
    shape_a.sync_from_vec(vec![3, 4], &dev).unwrap();
    let mut a: Buffer<u64> = Buffer::new(dev, 12).unwrap();
    a.sync_from_vec((1..=12).collect(), &dev).unwrap();
    let mut shape_b: Buffer<usize> = Buffer::new(dev, 2).unwrap();
    shape_b.sync_from_vec(vec![1, 4], &dev).unwrap();
    let mut b: Buffer<u64> = Buffer::new(dev, 4).unwrap();
    b.sync_from_vec(vec![1, 1, 1, 1], &dev).unwrap();
    let mut shape_c: Buffer<usize> = Buffer::new(dev, 2).unwrap();
    let mut c: Buffer<u64> = Buffer::new(dev, 3).unwrap();

    backend.bcast_dot(&shape_a, &a, &shape_b, &b, &mut shape_c, &mut c).unwrap();

    assert_eq!(shape_c.sync_to_vec(&dev).unwrap(), vec![3, 1]);
    assert_eq!(c.sync_to_vec(&dev).unwrap(), vec![10, 26, 42]);
}

#[test]
fn bcast_dot_incompatible_shapes() {
    let backend = native::Backend::default();
    let dev = device0();

    let mut shape_a: Buffer<usize> = Buffer::new(dev, 1).unwrap();
    shape_a.sync_from_vec(vec![3], &dev).unwrap();
    let mut a: Buffer<u64> = Buffer::new(dev, 3).unwrap();
    a.sync_from_vec(vec![1, 2, 3], &dev).unwrap();
    let mut shape_b: Buffer<usize> = Buffer::new(dev, 1).unwrap();
    shape_b.sync_from_vec(vec![4], &dev).unwrap();
    let mut b: Buffer<u64> = Buffer::new(dev, 4).unwrap();
    b.sync_from_vec(vec![1, 2, 3, 4], &dev).unwrap();
    let mut shape_c: Buffer<usize> = Buffer::new(dev, 1).unwrap();
    let mut c: Buffer<u64> = Buffer::new(dev, 1).unwrap();

    let r = backend.bcast_dot(&shape_a, &a, &shape_b, &b, &mut shape_c, &mut c);
    assert_eq!(r, Err(Error::InvalidBroadcast));
    // no partial write-back into the outputs
    assert_eq!(shape_c.sync_to_vec(&dev).unwrap(), vec![0]);
    assert_eq!(c.sync_to_vec(&dev).unwrap(), vec![0]);
}

#[test]
fn bcast_dot_output_size_mismatch() {
    let backend = native::Backend::default();
    let dev = device0();

    let mut shape_a: Buffer<usize> = Buffer::new(dev, 1).unwrap();
    shape_a.sync_from_vec(vec![4], &dev).unwrap();
    let mut a: Buffer<u64> = Buffer::new(dev, 4).unwrap();
    a.sync_from_vec(vec![1, 2, 3, 4], &dev).unwrap();
    let mut shape_b: Buffer<usize> = Buffer::new(dev, 1).unwrap();
    shape_b.sync_from_vec(vec![4], &dev).unwrap();
    let mut b: Buffer<u64> = Buffer::new(dev, 4).unwrap();
    b.sync_from_vec(vec![2, 2, 2, 2], &dev).unwrap();
    // output shape buffer too small for the result shape [1]: needs 1 slot,
    // give 3 so the size check must refuse it
    let mut shape_c: Buffer<usize> = Buffer::new(dev, 3).unwrap();
    let mut c: Buffer<u64> = Buffer::new(dev, 1).unwrap();

    let r = backend.bcast_dot(&shape_a, &a, &shape_b, &b, &mut shape_c, &mut c);
    assert_eq!(r, Err(Error::Native(native::Error::OutOfMemory)));
    assert_eq!(shape_c.sync_to_vec(&dev).unwrap(), vec![0, 0, 0]);
    assert_eq!(c.sync_to_vec(&dev).unwrap(), vec![0]);
}

#[test]
fn bcast_dot_missing_device_copy() {
    let backend = native::Backend::default();
    let dev = device0();
    let other = BufferDevice::Native(native::Device::new(1));

    let mut shape_a: Buffer<usize> = Buffer::new(other, 1).unwrap();
    shape_a.sync_from_vec(vec![1], &other).unwrap();
    let a: Buffer<u64> = Buffer::new(dev, 1).unwrap();
    let mut shape_b: Buffer<usize> = Buffer::new(dev, 1).unwrap();
    shape_b.sync_from_vec(vec![1], &dev).unwrap();
    let b: Buffer<u64> = Buffer::new(dev, 1).unwrap();
    let mut shape_c: Buffer<usize> = Buffer::new(dev, 1).unwrap();
    let mut c: Buffer<u64> = Buffer::new(dev, 1).unwrap();

    let r = backend.bcast_dot(&shape_a, &a, &shape_b, &b, &mut shape_c, &mut c);
    assert_eq!(r, Err(Error::InvalidDevice));
}

#[test]
fn broadcast_iter_repeats_broadcast_axis() {
    // source shape [1, 4] against [3, 4], chop 1: the single row is yielded
    // on all 3 iterations of the broadcast axis, never reading past it.
    let data: Vec<u64> = vec![10, 20, 30, 40];
    let other: Vec<u64> = (0..12).collect();
    let (bshape, mut ib, mut ia) =
        try_new_broadcast(&[1, 4], &data, &[3, 4], &other, 1).unwrap();
    assert_eq!(bshape, vec![3]);
    for _ in 0..3 {
        assert_eq!(ib.next().unwrap(), &[10, 20, 30, 40]);
    }
    assert!(ib.next().is_none());
    // the non-broadcast operand advances a row per step
    assert_eq!(ia.next().unwrap(), &[0, 1, 2, 3]);
    assert_eq!(ia.next().unwrap(), &[4, 5, 6, 7]);
    assert_eq!(ia.next().unwrap(), &[8, 9, 10, 11]);
    assert!(ia.next().is_none());
}

#[test]
fn broadcast_iter_elementwise_without_chop() {
    let a: Vec<u64> = vec![1, 2, 3, 4];
    let b: Vec<u64> = vec![5, 6, 7, 8];
    let (bshape, mut ia, _ib) = try_new_broadcast(&[2, 2], &a, &[2, 2], &b, 0).unwrap();
    assert_eq!(bshape, vec![2, 2]);
    let mut seen: Vec<u64> = Vec::new();
    while let Some(s) = ia.next() {
        assert_eq!(s.len(), 1);
        seen.push(s[0]);
    }
    assert_eq!(seen, vec![1, 2, 3, 4]);
}

#[test]
fn try_new_broadcast_rejects_incompatible() {
    let a: Vec<u64> = vec![1, 2, 3];
    let b: Vec<u64> = vec![1, 2, 3, 4];
    assert!(matches!(
        try_new_broadcast(&[3], &a, &[4], &b, 1),
        Err(Error::InvalidBroadcast)
    ));
}

#[test]
fn try_new_broadcast_rejects_short_data() {
    // shape says 4 elements but only 2 are there: refused rather than read
    // out of bounds
    let a: Vec<u64> = vec![1, 2];
    let b: Vec<u64> = vec![2, 2, 2, 2];
    assert_eq!(
        try_new_broadcast(&[4], &a, &[4], &b, 1).err().unwrap(),
        Error::Native(native::Error::OutOfMemory)
    );
}
