//! A device memory region: a named allocation on one accelerator, exported to
//! the server through the raw handle that the native driver produces.
use vstd::prelude::*;

use crate::error::ShmError;

verus! {

/// The abstract state of a device region.
pub struct DeviceRegionView {
    pub name: Seq<char>,
    pub size_bytes: nat,
    pub device_id: int,
    pub live: bool,
}

/// Whether a device region of `size` bytes on device `device_id` may be
/// created when the machine has `device_count` devices.
pub open spec fn device_region_args_ok(size: int, device_id: int, device_count: int) -> bool {
    &&& size > 0
    &&& 0 <= device_id < device_count
}

/// The region after it is destroyed.
pub open spec fn device_destroyed(r: DeviceRegionView) -> DeviceRegionView {
    DeviceRegionView { live: false, ..r }
}

/// A device region: its logical name, byte size, device index, and whether
/// its allocation is still held.
pub struct CudaSharedMemoryRegionHandle {
    name: String,
    size_bytes: usize,
    device_id: i64,
    live: bool,
}

impl View for CudaSharedMemoryRegionHandle {
    type V = DeviceRegionView;

    closed spec fn view(&self) -> DeviceRegionView {
        DeviceRegionView {
            name: self.name@,
            size_bytes: self.size_bytes as nat,
            device_id: self.device_id as int,
            live: self.live,
        }
    }
}

impl CudaSharedMemoryRegionHandle {
    /// A live region of `size` bytes on device `device_id`; `InvalidArgument`
    /// when `size` is 0 or `device_id` is not one of the `device_count`
    /// devices.
    pub fn create(triton_shm_name: &str, size: usize, device_id: i64, device_count: i64) -> (r:
        Result<Self, ShmError>)
        ensures
            !device_region_args_ok(size as int, device_id as int, device_count as int) ==> r
                == Err::<Self, ShmError>(ShmError::InvalidArgument),
            device_region_args_ok(size as int, device_id as int, device_count as int) ==> r is Ok
                && r->Ok_0@ == (DeviceRegionView {
                name: triton_shm_name@,
                size_bytes: size as nat,
                device_id: device_id as int,
                live: true,
            }),
    {
        if size == 0 || device_id < 0 || device_id >= device_count {
            return Err(ShmError::InvalidArgument);
        }
        Ok(CudaSharedMemoryRegionHandle {
            name: triton_shm_name.to_owned(),
            size_bytes: size,
            device_id,
            live: true,
        })
    }

    pub fn get_name(&self) -> (r: String)
        ensures
            r@ == self@.name,
    {
        self.name.clone()
    }

    pub fn size_bytes(&self) -> (r: usize)
        ensures
            r == self@.size_bytes,
    {
        self.size_bytes
    }

    pub fn device_id(&self) -> (r: i64)
        ensures
            r == self@.device_id,
    {
        self.device_id
    }

    pub fn is_live(&self) -> (r: bool)
        ensures
            r == self@.live,
    {
        self.live
    }

    /// Marks the allocation released. Returns whether this call released it:
    /// `true` exactly once, `false` on every later call, which changes nothing.
    pub fn destroy(&mut self) -> (released: bool)
        ensures
            released == old(self)@.live,
            final(self)@ == device_destroyed(old(self)@),
    {
        let released = self.live;
        self.live = false;
        released
    }
}

/// Destroying a device region a second time changes nothing and reports that
/// nothing was released.
pub proof fn lemma_device_destroy_twice(r: DeviceRegionView)
    ensures
        !device_destroyed(r).live,
        device_destroyed(device_destroyed(r)) == device_destroyed(r),
{
}

} // verus!
