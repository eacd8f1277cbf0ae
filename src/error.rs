use vstd::prelude::*;

verus! {

/// What can go wrong while managing or using a shared-memory region.
#[derive(Debug, Clone, Copy, PartialEq, Eq, Structural)]
pub enum ShmError {
    /// The native region could not be created.
    AllocationError,
    /// The server rejected a register or unregister request, or the name is
    /// already registered by this client.
    RegistrationError,
    /// A byte range reaches past the end of the region.
    OutOfRange,
    /// A byte count is not a multiple of the element width.
    AlignmentError,
    /// An argument is outside what the operation accepts (a zero size, a bad
    /// device index, a value that does not fit the protocol's integer type).
    InvalidArgument,
    /// The connection or channel to the server failed.
    RpcTransportError,
    /// The region was already destroyed.
    RegionDestroyed,
}

} // verus!
