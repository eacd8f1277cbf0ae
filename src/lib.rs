//! Client-side core for a remote inference server that exchanges tensors
//! through shared-memory regions: region bookkeeping, bounds-checked byte
//! access, typed element encoding, registration tracking, and the protocol
//! values that refer to a region by name, offset and size.
pub mod codec;
pub mod cuda_shared_memory;
pub mod error;
pub mod inference;
pub mod registry;
pub mod system_shared_memory;
