use popcorn::hardware::{Hardware as HardwareTrait, HardwareType};
use popcorn::native;

#[test]
fn framework_enumerates_host_cpu() {
    assert_eq!(native::Framework::name(), "native");
    let fw = native::Framework::new();
    let hw = fw.default_hardware();
    assert_eq!(hw.name(), "cpu");
    assert_eq!(hw.compute_units(), 1);
    assert_eq!(hw.hardware_type(), HardwareType::CPU);
    assert_eq!(fw.load_hardwares().unwrap().len(), 1);
    let dev = fw.default_device();
    assert_eq!(dev.id(), 0);
    assert_eq!(fw.new_device(&hw).unwrap(), dev);
}

#[test]
fn backend_uses_default_device() {
    let backend = native::Backend::default();
    assert_eq!(backend.device().id(), 0);
}

#[test]
fn memory_checked_views_and_copy() {
    let mut m: native::Memory<u64> = native::Memory::allocate(3);
    assert_eq!(m.len(), 3);
    assert_eq!(m.try_as_slice().unwrap(), &[0, 0, 0]);
    assert_eq!(
        m.copy_from(&[1, 2]),
        Err(native::Error::OutOfMemory)
    );
    assert_eq!(m.try_as_slice().unwrap(), &[0, 0, 0]);
    m.copy_from(&[4, 5, 6]).unwrap();
    assert_eq!(m.clone().into_vec().unwrap(), vec![4, 5, 6]);
    m.try_as_mut_slice().unwrap()[1] = 9;
    assert_eq!(m.into_vec().unwrap(), vec![4, 9, 6]);
}
