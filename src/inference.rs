//! The protocol values this client sends: tensor descriptors, the inference
//! request, the shared-memory parameters that point a tensor at a region,
//! and the region registration requests.
use vstd::prelude::*;

use crate::error::ShmError;

verus! {

/// The largest value of the protocol's signed 64-bit integer parameters.
pub const INT64_PARAM_MAX: u64 = 0x7fff_ffff_ffff_ffff;

/// One parameter value attached to a tensor descriptor or a request.
#[derive(Debug, Clone, PartialEq, Eq)]
pub enum InferParameter {
    Bool(bool),
    Int64(i64),
    Str(String),
}

/// A named, typed, shaped input of an inference call. Its bytes come either
/// from the request's raw contents or, when its parameters name a region,
/// from that region.
pub struct InferInputTensor {
    pub name: String,
    pub datatype: String,
    pub shape: Vec<i64>,
    pub parameters: Vec<(String, InferParameter)>,
}

/// An output the caller asks for, optionally directed into a region.
pub struct InferRequestedOutputTensor {
    pub name: String,
    pub parameters: Vec<(String, InferParameter)>,
}

/// One inference call.
pub struct ModelInferRequest {
    pub model_name: String,
    pub model_version: String,
    pub id: String,
    pub inputs: Vec<InferInputTensor>,
    pub outputs: Vec<InferRequestedOutputTensor>,
    pub raw_input_contents: Vec<Vec<u8>>,
}

/// Asks the server to map a host region: `byte_size` bytes at `offset` of
/// the shared-memory object `key`, under `name`.
pub struct SystemSharedMemoryRegisterRequest {
    pub name: String,
    pub key: String,
    pub offset: u64,
    pub byte_size: u64,
}

/// Asks the server to map a device region through its raw handle, under
/// `name`.
pub struct CudaSharedMemoryRegisterRequest {
    pub name: String,
    pub raw_handle: Vec<u8>,
    pub device_id: i64,
    pub byte_size: u64,
}

/// The parameters that point a tensor at `size` bytes at `offset` of the
/// region `triton_shm_name`; `InvalidArgument` when `size` or `offset` does
/// not fit the protocol's signed 64-bit integers.
pub fn get_system_shared_memory_params(triton_shm_name: &str, size: u64, offset: u64) -> (r: Result<
    Vec<(String, InferParameter)>,
    ShmError,
>)
    ensures
        (size > INT64_PARAM_MAX || offset > INT64_PARAM_MAX) ==> r == Err::<
            Vec<(String, InferParameter)>,
            ShmError,
        >(ShmError::InvalidArgument),
        (size <= INT64_PARAM_MAX && offset <= INT64_PARAM_MAX) ==> r is Ok && ({
            let p = r->Ok_0@;
            &&& p.len() == 3
            &&& p[0].0@ == "shared_memory_region"@
            &&& p[0].1 matches InferParameter::Str(n) && n@ == triton_shm_name@
            &&& p[1].0@ == "shared_memory_byte_size"@
            &&& p[1].1 == InferParameter::Int64(size as i64)
            &&& p[2].0@ == "shared_memory_offset"@
            &&& p[2].1 == InferParameter::Int64(offset as i64)
        }),
{
    if size > INT64_PARAM_MAX || offset > INT64_PARAM_MAX {
        return Err(ShmError::InvalidArgument);
    }
    let mut params: Vec<(String, InferParameter)> = Vec::new();
    params.push(
        ("shared_memory_region".to_owned(), InferParameter::Str(triton_shm_name.to_owned())),
    );
    params.push(("shared_memory_byte_size".to_owned(), InferParameter::Int64(size as i64)));
    params.push(("shared_memory_offset".to_owned(), InferParameter::Int64(offset as i64)));
    Ok(params)
}

/// The descriptor of one input tensor.
pub fn get_infer_input(
    input_name: &str,
    input_datatype: &str,
    tensor_shape: &[i64],
    parameters_map: Vec<(String, InferParameter)>,
) -> (r: InferInputTensor)
    ensures
        r.name@ == input_name@,
        r.datatype@ == input_datatype@,
        r.shape@ == tensor_shape@,
        r.parameters == parameters_map,
{
    let mut shape: Vec<i64> = Vec::new();
    let mut i: usize = 0;
    while i < tensor_shape.len()
        invariant
            i <= tensor_shape@.len(),
            shape@ == tensor_shape@.subrange(0, i as int),
        decreases tensor_shape@.len() - i,
    {
        shape.push(tensor_shape[i]);
        proof {
            assert(shape@ =~= tensor_shape@.subrange(0, i as int + 1));
        }
        i = i + 1;
    }
    proof {
        assert(shape@ =~= tensor_shape@);
    }
    InferInputTensor {
        name: input_name.to_owned(),
        datatype: input_datatype.to_owned(),
        shape,
        parameters: parameters_map,
    }
}

/// The descriptor of one requested output tensor.
pub fn get_infer_output(input_name: &str, parameters_map: Vec<(String, InferParameter)>) -> (r:
    InferRequestedOutputTensor)
    ensures
        r.name@ == input_name@,
        r.parameters == parameters_map,
{
    InferRequestedOutputTensor { name: input_name.to_owned(), parameters: parameters_map }
}

/// The inference request for `model_name` at `model_version`, identified by
/// `request_id`.
pub fn infer_request(
    model_name: &str,
    model_version: &str,
    request_id: &str,
    inputs_vec: Vec<InferInputTensor>,
    outputs_vec: Vec<InferRequestedOutputTensor>,
    input_content: Vec<Vec<u8>>,
) -> (r: ModelInferRequest)
    ensures
        r.model_name@ == model_name@,
        r.model_version@ == model_version@,
        r.id@ == request_id@,
        r.inputs == inputs_vec,
        r.outputs == outputs_vec,
        r.raw_input_contents == input_content,
{
    ModelInferRequest {
        model_name: model_name.to_owned(),
        model_version: model_version.to_owned(),
        id: request_id.to_owned(),
        inputs: inputs_vec,
        outputs: outputs_vec,
        raw_input_contents: input_content,
    }
}

} // verus!
