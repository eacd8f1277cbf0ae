use triton_rust::codec::{ElementWidth, TensorData};
use triton_rust::inference::{get_infer_input, get_system_shared_memory_params, infer_request, InferParameter};
use triton_rust::registry::{RegionKind, SharedMemoryRegistry};
use triton_rust::system_shared_memory::SystemSharedMemoryRegionHandle;

#[test]
fn host_region_end_to_end() {
    let mut reg = SharedMemoryRegistry::new();
    let mut region = SystemSharedMemoryRegionHandle::create("t", "/t", 4096).unwrap();

    let req = reg.system_register_request(&region).unwrap();
    assert_eq!((req.name.as_str(), req.key.as_str(), req.offset, req.byte_size), ("t", "/t", 0, 4096));
    reg.record_register("t", RegionKind::Host, req.byte_size, 0).unwrap();
    assert_eq!(reg.registration("t"), Some((RegionKind::Host, 4096)));

    let floats: Vec<u32> = [1.0f32, 2.0, 3.0, 4.0].iter().map(|x| x.to_bits()).collect();
    region.copy_array(&TensorData::U32(floats.clone()), 0).unwrap();
    assert_eq!(
        region.read(16, 0).unwrap(),
        vec![0, 0, 0x80, 0x3f, 0, 0, 0, 0x40, 0, 0, 0x40, 0x40, 0, 0, 0x80, 0x40]
    );

    let params = get_system_shared_memory_params("t", 16, 0).unwrap();
    assert_eq!(params[0].1, InferParameter::Str("t".to_string()));
    assert_eq!(params[1].1, InferParameter::Int64(16));
    assert_eq!(params[2].1, InferParameter::Int64(0));
    let input = get_infer_input("INPUT0", "FP32", &[4], params);
    let request = infer_request("simple", "1", "1", vec![input], Vec::new(), Vec::new());
    assert_eq!(request.inputs[0].parameters.len(), 3);
    assert!(request.raw_input_contents.is_empty());

    assert_eq!(region.get_data(16, 0, ElementWidth::Four).unwrap(), TensorData::U32(floats));
    assert_eq!(reg.registration("t"), Some((RegionKind::Host, 4096)));

    reg.record_unregister("t", 0).unwrap();
    assert_eq!(reg.registration("t"), None);
    assert!(region.destroy());
    assert!(!region.destroy());
}
