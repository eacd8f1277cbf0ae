use triton_rust::cuda_shared_memory::CudaSharedMemoryRegionHandle;
use triton_rust::error::ShmError;

#[test]
fn create_device_region() {
    let r = CudaSharedMemoryRegionHandle::create("output1_data", 4096, 0, 1).unwrap();
    assert_eq!(r.get_name(), "output1_data");
    assert_eq!(r.size_bytes(), 4096);
    assert_eq!(r.device_id(), 0);
    assert!(r.is_live());
}

#[test]
fn create_device_region_rejects_bad_arguments() {
    assert_eq!(CudaSharedMemoryRegionHandle::create("a", 0, 0, 1).err(), Some(ShmError::InvalidArgument));
    assert_eq!(CudaSharedMemoryRegionHandle::create("a", 16, -1, 1).err(), Some(ShmError::InvalidArgument));
    assert_eq!(CudaSharedMemoryRegionHandle::create("a", 16, 2, 2).err(), Some(ShmError::InvalidArgument));
    assert_eq!(CudaSharedMemoryRegionHandle::create("a", 16, 0, 0).err(), Some(ShmError::InvalidArgument));
    assert!(CudaSharedMemoryRegionHandle::create("a", 16, 1, 2).is_ok());
}

#[test]
fn destroy_device_region_twice_is_a_no_op() {
    let mut r = CudaSharedMemoryRegionHandle::create("a", 16, 0, 1).unwrap();
    assert!(r.destroy());
    assert!(!r.destroy());
    assert!(!r.is_live());
    assert_eq!(r.size_bytes(), 16);
}
