use triton_rust::cuda_shared_memory::CudaSharedMemoryRegionHandle;
use triton_rust::error::ShmError;
use triton_rust::registry::{rpc_status_error, RegionKind, SharedMemoryRegistry};
use triton_rust::system_shared_memory::SystemSharedMemoryRegionHandle;

#[test]
fn register_same_name_twice_fails() {
    let mut reg = SharedMemoryRegistry::new();
    assert_eq!(reg.record_register("output_data", RegionKind::Host, 28, 0), Ok(()));
    assert_eq!(
        reg.record_register("output_data", RegionKind::Host, 28, 0),
        Err(ShmError::RegistrationError)
    );
    assert_eq!(
        reg.record_register("output_data", RegionKind::Device, 64, 0),
        Err(ShmError::RegistrationError)
    );
    assert_eq!(reg.registration("output_data"), Some((RegionKind::Host, 28)));
}

#[test]
fn register_request_for_registered_name_fails() {
    let mut reg = SharedMemoryRegistry::new();
    let host = SystemSharedMemoryRegionHandle::create("r", "/r", 64).unwrap();
    let req = reg.system_register_request(&host).unwrap();
    assert_eq!(req.name, "r");
    assert_eq!(req.key, "/r");
    assert_eq!(req.offset, 0);
    assert_eq!(req.byte_size, 64);
    reg.record_register("r", RegionKind::Host, 64, 0).unwrap();
    assert_eq!(reg.system_register_request(&host).err(), Some(ShmError::RegistrationError));
    let dev = CudaSharedMemoryRegionHandle::create("r", 64, 0, 1).unwrap();
    assert_eq!(reg.cuda_register_request(&dev, vec![1, 2]).err(), Some(ShmError::RegistrationError));
}

#[test]
fn unregister_then_register_again_succeeds() {
    let mut reg = SharedMemoryRegistry::new();
    reg.record_register("a", RegionKind::Host, 4, 0).unwrap();
    reg.record_register("b", RegionKind::Device, 8, 0).unwrap();
    assert_eq!(reg.record_unregister("a", 0), Ok(()));
    assert!(!reg.is_registered("a"));
    assert!(reg.is_registered("b"));
    assert_eq!(reg.record_register("a", RegionKind::Host, 16, 0), Ok(()));
    assert_eq!(reg.registration("a"), Some((RegionKind::Host, 16)));
}

#[test]
fn unregister_unknown_name_succeeds() {
    let mut reg = SharedMemoryRegistry::new();
    assert_eq!(reg.record_unregister("missing", 0), Ok(()));
    assert_eq!(reg.registration("missing"), None);
}

#[test]
fn failed_calls_leave_the_table_unchanged() {
    let mut reg = SharedMemoryRegistry::new();
    assert_eq!(reg.record_register("a", RegionKind::Host, 4, 6), Err(ShmError::RegistrationError));
    assert!(!reg.is_registered("a"));
    assert_eq!(reg.record_register("a", RegionKind::Host, 4, 14), Err(ShmError::RpcTransportError));
    reg.record_register("a", RegionKind::Host, 4, 0).unwrap();
    assert_eq!(reg.record_unregister("a", 5), Err(ShmError::RegistrationError));
    assert!(reg.is_registered("a"));
    assert_eq!(reg.record_unregister("a", 4), Err(ShmError::RpcTransportError));
    assert!(reg.is_registered("a"));
}

#[test]
fn status_codes_map_to_errors() {
    assert_eq!(rpc_status_error(1), ShmError::RpcTransportError);
    assert_eq!(rpc_status_error(2), ShmError::RpcTransportError);
    assert_eq!(rpc_status_error(4), ShmError::RpcTransportError);
    assert_eq!(rpc_status_error(14), ShmError::RpcTransportError);
    assert_eq!(rpc_status_error(3), ShmError::RegistrationError);
    assert_eq!(rpc_status_error(5), ShmError::RegistrationError);
    assert_eq!(rpc_status_error(6), ShmError::RegistrationError);
    assert_eq!(rpc_status_error(13), ShmError::RegistrationError);
}

#[test]
fn register_request_for_destroyed_region_fails() {
    let reg = SharedMemoryRegistry::new();
    let mut host = SystemSharedMemoryRegionHandle::create("h", "/h", 8).unwrap();
    host.destroy();
    assert_eq!(reg.system_register_request(&host).err(), Some(ShmError::RegionDestroyed));
    let mut dev = CudaSharedMemoryRegionHandle::create("d", 8, 0, 1).unwrap();
    dev.destroy();
    assert_eq!(reg.cuda_register_request(&dev, vec![0; 64]).err(), Some(ShmError::RegionDestroyed));
}

#[test]
fn cuda_register_request_carries_the_raw_handle() {
    let reg = SharedMemoryRegistry::new();
    let dev = CudaSharedMemoryRegionHandle::create("output1_data", 4096, 1, 2).unwrap();
    let req = reg.cuda_register_request(&dev, vec![7, 7, 9]).unwrap();
    assert_eq!(req.name, "output1_data");
    assert_eq!(req.raw_handle, vec![7, 7, 9]);
    assert_eq!(req.device_id, 1);
    assert_eq!(req.byte_size, 4096);
}
