use popcorn::buffer::{Buffer, BufferDevice, BufferSource, Error, RawBuffer};
use popcorn::lock;
use popcorn::lock::Lock;
use popcorn::native;

fn device0() -> BufferDevice {
    BufferDevice::Native(native::Device::new(0))
}

#[test]
fn second_guard_fails_until_release() {
    let mut lock: Lock<u64> = Lock::new(7);
    let guard = lock.try_lock().unwrap();
    assert_eq!(guard.data, 7);
    match lock.try_lock() {
        Err(lock::Error::AlreadyLocked) => {}
        Ok(_) => panic!("second guard while one is live"),
    }
    lock.release(guard);
    let again = lock.try_lock().unwrap();
    assert_eq!(again.data, 7);
}

#[test]
fn new_buffer_is_zeroed() {
    let dev = device0();
    let buf: Buffer<u64> = Buffer::new(dev, 3).unwrap();
    assert_eq!(buf.sync_to_vec(&dev).unwrap(), vec![0, 0, 0]);
    assert!(matches!(buf.source(), BufferSource::Native));
}

#[test]
fn ingest_length_mismatch_leaves_contents() {
    let dev = device0();
    let mut buf: Buffer<u64> = Buffer::new(dev, 4).unwrap();
    buf.sync_from_vec(vec![9, 8, 7, 6], &dev).unwrap();
    let r = buf.sync_from_vec(vec![1, 2, 3], &dev);
    assert_eq!(r, Err(Error::Native(native::Error::OutOfMemory)));
    assert_eq!(buf.sync_to_vec(&dev).unwrap(), vec![9, 8, 7, 6]);
}

#[test]
fn ingest_then_extract_round_trip() {
    let dev = device0();
    let mut buf: Buffer<u64> = Buffer::new(dev, 4).unwrap();
    let v: Vec<u64> = vec![23, 45, 54, 42];
    buf.sync_from_vec(v.clone(), &dev).unwrap();
    assert_eq!(buf.sync_to_vec(&dev).unwrap(), v);
}

#[test]
fn missing_device_is_invalid() {
    let dev = device0();
    let other = BufferDevice::Native(native::Device::new(1));
    let mut buf: Buffer<u64> = Buffer::new(dev, 2).unwrap();
    assert_eq!(buf.sync_to_vec(&other), Err(Error::InvalidDevice));
    assert_eq!(buf.sync_from_vec(vec![1, 2], &other), Err(Error::InvalidDevice));
    let d1 = native::Device::new(1);
    assert!(buf.native_memory(&d1).is_err());
}

#[test]
fn sync_same_class_is_identity() {
    let dev = device0();
    let mut buf: Buffer<u64> = Buffer::new(dev, 2).unwrap();
    buf.sync_from_vec(vec![5, 6], &dev).unwrap();
    buf.sync(&dev).unwrap();
    assert_eq!(buf.sync_to_vec(&dev).unwrap(), vec![5, 6]);
}

#[test]
fn raw_buffer_source_follows_device() {
    let dev = device0();
    let raw: RawBuffer<u64> = RawBuffer::new(dev, 2).unwrap();
    assert!(matches!(raw.source(), BufferSource::Native));
    assert!(matches!(RawBuffer::<u64>::device_source(&dev), BufferSource::Native));
    let d0 = native::Device::new(0);
    assert_eq!(raw.native_memory(&d0).unwrap().len(), 2);
}

#[test]
fn native_memory_reads_resident_copy() {
    let dev = device0();
    let d0 = native::Device::new(0);
    let mut buf: Buffer<u64> = Buffer::new(dev, 3).unwrap();
    buf.sync_from_vec(vec![1, 2, 3], &dev).unwrap();
    let mem = buf.native_memory(&d0).unwrap();
    assert_eq!(mem.len(), 3);
    assert_eq!(mem.try_as_slice().unwrap(), &[1, 2, 3]);
}

#[test]
fn native_memory_mut_writes_through() {
    let dev = device0();
    let d0 = native::Device::new(0);
    let mut buf: Buffer<u64> = Buffer::new(dev, 3).unwrap();
    {
        let mem = buf.native_memory_mut(&d0).unwrap();
        let s = mem.try_as_mut_slice().unwrap();
        s[0] = 7;
        s[2] = 9;
    }
    assert_eq!(buf.sync_to_vec(&dev).unwrap(), vec![7, 0, 9]);
    assert!(buf.native_memory_mut(&native::Device::new(1)).is_err());
}

#[test]
fn buffers_of_other_scalar_widths() {
    let dev = device0();
    let mut bi: Buffer<i64> = Buffer::new(dev, 2).unwrap();
    bi.sync_from_vec(vec![-4, 11], &dev).unwrap();
    assert_eq!(bi.sync_to_vec(&dev).unwrap(), vec![-4, 11]);
    let mut bu: Buffer<u32> = Buffer::new(dev, 2).unwrap();
    bu.sync_from_vec(vec![1, 2], &dev).unwrap();
    assert_eq!(bu.sync_to_vec(&dev).unwrap(), vec![1, 2]);
}
