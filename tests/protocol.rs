use triton_rust::error::ShmError;
use triton_rust::inference::{
    get_infer_input, get_infer_output, get_system_shared_memory_params, infer_request, InferParameter,
};

#[test]
fn shared_memory_params_are_exact() {
    let p = get_system_shared_memory_params("output_data", 4, 24).unwrap();
    assert_eq!(
        p,
        vec![
            ("shared_memory_region".to_string(), InferParameter::Str("output_data".to_string())),
            ("shared_memory_byte_size".to_string(), InferParameter::Int64(4)),
            ("shared_memory_offset".to_string(), InferParameter::Int64(24)),
        ]
    );
}

#[test]
fn shared_memory_params_reject_values_beyond_int64() {
    let big = i64::MAX as u64;
    assert!(get_system_shared_memory_params("r", big, big).is_ok());
    assert_eq!(get_system_shared_memory_params("r", big + 1, 0), Err(ShmError::InvalidArgument));
    assert_eq!(get_system_shared_memory_params("r", 0, u64::MAX), Err(ShmError::InvalidArgument));
}

#[test]
fn infer_input_and_output_descriptors() {
    let params = get_system_shared_memory_params("image_input_data", 3145728, 0).unwrap();
    let input = get_infer_input("image_input", "FP32", &[1, 3, 512, 512], params.clone());
    assert_eq!(input.name, "image_input");
    assert_eq!(input.datatype, "FP32");
    assert_eq!(input.shape, vec![1, 3, 512, 512]);
    assert_eq!(input.parameters, params);
    let output = get_infer_output("class_output", Vec::new());
    assert_eq!(output.name, "class_output");
    assert!(output.parameters.is_empty());
}

#[test]
fn infer_request_carries_its_parts() {
    let input = get_infer_input("x", "INT32", &[1], Vec::new());
    let output = get_infer_output("y", Vec::new());
    let req = infer_request("model", "1", "25", vec![input], vec![output], vec![vec![1, 0, 0, 0]]);
    assert_eq!(req.model_name, "model");
    assert_eq!(req.model_version, "1");
    assert_eq!(req.id, "25");
    assert_eq!(req.inputs.len(), 1);
    assert_eq!(req.inputs[0].name, "x");
    assert_eq!(req.outputs[0].name, "y");
    assert_eq!(req.raw_input_contents, vec![vec![1u8, 0, 0, 0]]);
}
