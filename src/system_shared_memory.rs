//! A host shared-memory region: a named, fixed-size byte image that the
//! server maps through a system-wide key, with bounds-checked access.
use vstd::prelude::*;

use crate::codec::{
    decode_u32s, decode_u64s, encode_u32s, encode_u64s, lemma_u32s_round_trip, lemma_u64s_round_trip,
    tensor_bytes, tensor_from_bytes, tensor_len, tensor_width, ElementWidth, TensorData, TensorValue,
};
use crate::error::ShmError;

verus! {

/// The abstract state of a host region.
pub struct HostRegionView {
    pub name: Seq<char>,
    pub key: Seq<char>,
    pub size_bytes: nat,
    pub bytes: Seq<u8>,
    pub live: bool,
}

/// A range of `size` bytes at `offset` lies inside a region of `size_bytes`.
pub open spec fn in_range(offset: int, size: int, size_bytes: int) -> bool {
    offset + size <= size_bytes
}

/// The image `img` after `b` is copied into it at `offset`.
pub open spec fn written(img: Seq<u8>, offset: int, b: Seq<u8>) -> Seq<u8> {
    img.subrange(0, offset) + b + img.subrange(offset + b.len(), img.len() as int)
}

/// The `size` bytes of `img` that start at `offset`.
pub open spec fn window(img: Seq<u8>, offset: int, size: int) -> Seq<u8> {
    img.subrange(offset, offset + size)
}

/// The region after writing `b` at `offset`, or the error that refuses it.
pub open spec fn write_result(r: HostRegionView, b: Seq<u8>, offset: int) -> Result<
    HostRegionView,
    ShmError,
> {
    if !r.live {
        Err(ShmError::RegionDestroyed)
    } else if !in_range(offset, b.len() as int, r.size_bytes as int) {
        Err(ShmError::OutOfRange)
    } else {
        Ok(HostRegionView { bytes: written(r.bytes, offset, b), ..r })
    }
}

/// The bytes read from `size` bytes at `offset`, or the error that refuses it.
pub open spec fn read_result(r: HostRegionView, size: int, offset: int) -> Result<
    Seq<u8>,
    ShmError,
> {
    if !r.live {
        Err(ShmError::RegionDestroyed)
    } else if !in_range(offset, size, r.size_bytes as int) {
        Err(ShmError::OutOfRange)
    } else {
        Ok(window(r.bytes, offset, size))
    }
}

/// The elements of width `w` read from `size` bytes at `offset`.
pub open spec fn get_data_result(r: HostRegionView, size: int, offset: int, w: ElementWidth) -> Result<
    TensorValue,
    ShmError,
> {
    match read_result(r, size, offset) {
        Ok(b) => tensor_from_bytes(b, w),
        Err(e) => Err(e),
    }
}

/// The region after it is destroyed: no longer usable, its image released.
pub open spec fn destroyed(r: HostRegionView) -> HostRegionView {
    HostRegionView { live: false, bytes: Seq::empty(), ..r }
}

/// A host region: the logical `name` the server knows it by, the system-wide
/// `key` of its shared-memory object, and its byte image.
pub struct SystemSharedMemoryRegionHandle {
    name: String,
    key: String,
    size_bytes: usize,
    image: Vec<u8>,
    live: bool,
}

impl View for SystemSharedMemoryRegionHandle {
    type V = HostRegionView;

    closed spec fn view(&self) -> HostRegionView {
        HostRegionView {
            name: self.name@,
            key: self.key@,
            size_bytes: self.size_bytes as nat,
            bytes: self.image@,
            live: self.live,
        }
    }
}

impl SystemSharedMemoryRegionHandle {
    /// The handle's well-formedness: every handle made by `create` has it,
    /// and every method keeps it.
    pub closed spec fn wf(&self) -> bool {
        &&& self.size_bytes > 0
        &&& self.live ==> self.image@.len() == self.size_bytes
        &&& !self.live ==> self.image@.len() == 0
    }

    /// The facts every region satisfies.
    pub open spec fn valid(v: HostRegionView) -> bool {
        &&& v.size_bytes > 0
        &&& v.live ==> v.bytes.len() == v.size_bytes
        &&& !v.live ==> v.bytes.len() == 0
    }

    /// A live region of `size` zero bytes; `InvalidArgument` when `size` is 0.
    pub fn create(triton_shm_name: &str, shm_key: &str, size: usize) -> (r: Result<Self, ShmError>)
        ensures
            size == 0 ==> r == Err::<Self, ShmError>(ShmError::InvalidArgument),
            size > 0 ==> r is Ok && ({
                let v = r->Ok_0@;
                &&& v.name == triton_shm_name@
                &&& v.key == shm_key@
                &&& v.size_bytes == size
                &&& v.bytes == Seq::new(size as nat, |i: int| 0u8)
                &&& v.live
            }),
            r is Ok ==> r->Ok_0.wf() && Self::valid(r->Ok_0@),
    {
        if size == 0 {
            return Err(ShmError::InvalidArgument);
        }
        let image: Vec<u8> = vec![0u8; size];
        proof {
            assert(image@ =~= Seq::new(size as nat, |i: int| 0u8));
        }
        Ok(SystemSharedMemoryRegionHandle {
            name: triton_shm_name.to_owned(),
            key: shm_key.to_owned(),
            size_bytes: size,
            image,
            live: true,
        })
    }

    pub fn get_name(&self) -> (r: String)
        ensures
            r@ == self@.name,
    {
        self.name.clone()
    }

    pub fn get_key(&self) -> (r: String)
        ensures
            r@ == self@.key,
    {
        self.key.clone()
    }

    pub fn size_bytes(&self) -> (r: usize)
        ensures
            r == self@.size_bytes,
    {
        self.size_bytes
    }

    pub fn is_live(&self) -> (r: bool)
        ensures
            r == self@.live,
    {
        self.live
    }

    /// Whether `size` bytes at `offset` fit in the region, without overflow.
    fn fits(&self, size: usize, offset: usize) -> (r: bool)
        requires
            self.wf(),
        ensures
            r == in_range(offset as int, size as int, self@.size_bytes as int),
    {
        size <= self.size_bytes && offset <= self.size_bytes - size
    }

    /// Copies `bytes` into the region at `offset`.
    pub fn write(&mut self, bytes: &[u8], offset: usize) -> (r: Result<(), ShmError>)
        requires
            old(self).wf(),
        ensures
            final(self).wf(),
            Self::valid(final(self)@),
            match write_result(old(self)@, bytes@, offset as int) {
                Ok(v) => r is Ok && final(self)@ == v,
                Err(e) => r == Err::<(), ShmError>(e) && final(self)@ == old(self)@,
            },
    {
        if !self.live {
            return Err(ShmError::RegionDestroyed);
        }
        if !self.fits(bytes.len(), offset) {
            return Err(ShmError::OutOfRange);
        }
        let ghost img = self.image@;
        let n = bytes.len();
        let mut i: usize = 0;
        while i < n
            invariant
                n == bytes@.len(),
                offset + n <= img.len(),
                i <= n,
                self.image@ =~= img.subrange(0, offset as int) + bytes@.subrange(0, i as int)
                    + img.subrange(offset + i, img.len() as int),
                self.name == old(self).name,
                self.key == old(self).key,
                self.size_bytes == old(self).size_bytes,
                self.live,
                img == old(self).image@,
                img.len() == self.size_bytes,
            decreases n - i,
        {
            self.image.set(offset + i, bytes[i]);
            i = i + 1;
        }
        proof {
            assert(bytes@.subrange(0, n as int) =~= bytes@);
            assert(self.image@ =~= written(img, offset as int, bytes@));
        }
        Ok(())
    }

    /// A fresh copy of the `size` bytes at `offset`.
    pub fn read(&self, size: usize, offset: usize) -> (r: Result<Vec<u8>, ShmError>)
        requires
            self.wf(),
        ensures
            match read_result(self@, size as int, offset as int) {
                Ok(b) => r is Ok && r->Ok_0@ == b,
                Err(e) => r == Err::<Vec<u8>, ShmError>(e),
            },
    {
        if !self.live {
            return Err(ShmError::RegionDestroyed);
        }
        if !self.fits(size, offset) {
            return Err(ShmError::OutOfRange);
        }
        let mut out: Vec<u8> = Vec::with_capacity(size);
        let mut i: usize = 0;
        while i < size
            invariant
                offset + size <= self.image@.len(),
                self.image@.len() == self.size_bytes,
                i <= size,
                out@ =~= self.image@.subrange(offset as int, offset + i),
            decreases size - i,
        {
            out.push(self.image[offset + i]);
            i = i + 1;
        }
        Ok(out)
    }

    /// Copies a tensor's elements into the region at `offset`, each
    /// little-endian, in order.
    pub fn copy_array(&mut self, array: &TensorData, offset: usize) -> (r: Result<(), ShmError>)
        requires
            old(self).wf(),
        ensures
            final(self).wf(),
            Self::valid(final(self)@),
            match write_result(old(self)@, tensor_bytes(array@), offset as int) {
                Ok(v) => r is Ok && final(self)@ == v,
                Err(e) => r == Err::<(), ShmError>(e) && final(self)@ == old(self)@,
            },
    {
        if !self.live {
            return Err(ShmError::RegionDestroyed);
        }
        match array {
            TensorData::U32(xs) => {
                if xs.len() > self.size_bytes / 4 {
                    proof {
                        lemma_u32s_round_trip(xs@);
                    }
                    return Err(ShmError::OutOfRange);
                }
                let bytes = encode_u32s(xs.as_slice());
                self.write(bytes.as_slice(), offset)
            },
            TensorData::U64(xs) => {
                if xs.len() > self.size_bytes / 8 {
                    proof {
                        lemma_u64s_round_trip(xs@);
                    }
                    return Err(ShmError::OutOfRange);
                }
                let bytes = encode_u64s(xs.as_slice());
                self.write(bytes.as_slice(), offset)
            },
        }
    }

    /// The elements of width `width` held by the `size` bytes at `offset`;
    /// `AlignmentError` when `size` is not a multiple of the width.
    pub fn get_data(&self, size: usize, offset: usize, width: ElementWidth) -> (r: Result<
        TensorData,
        ShmError,
    >)
        requires
            self.wf(),
        ensures
            match get_data_result(self@, size as int, offset as int, width) {
                Ok(t) => r is Ok && r->Ok_0@ == t,
                Err(e) => r == Err::<TensorData, ShmError>(e),
            },
    {
        let bytes = match self.read(size, offset) {
            Ok(b) => b,
            Err(e) => return Err(e),
        };
        match width {
            ElementWidth::Four => match decode_u32s(bytes.as_slice()) {
                Ok(xs) => Ok(TensorData::U32(xs)),
                Err(e) => Err(e),
            },
            ElementWidth::Eight => match decode_u64s(bytes.as_slice()) {
                Ok(xs) => Ok(TensorData::U64(xs)),
                Err(e) => Err(e),
            },
        }
    }

    /// Releases the region's image. Returns whether this call released it:
    /// `true` exactly once, `false` on every later call, which changes nothing.
    pub fn destroy(&mut self) -> (released: bool)
        requires
            old(self).wf(),
        ensures
            released == old(self)@.live,
            final(self)@ == destroyed(old(self)@),
            final(self).wf(),
            Self::valid(final(self)@),
    {
        if !self.live {
            proof {
                assert(self.image@ =~= Seq::empty());
            }
            return false;
        }
        self.image = Vec::new();
        self.live = false;
        true
    }
}

/// Writing bytes into a live region and then reading the same range gives
/// back exactly the bytes written.
pub proof fn lemma_write_then_read(r: HostRegionView, b: Seq<u8>, offset: int)
    requires
        SystemSharedMemoryRegionHandle::valid(r),
        r.live,
        0 <= offset,
        offset + b.len() <= r.size_bytes,
    ensures
        write_result(r, b, offset) is Ok,
        read_result(write_result(r, b, offset)->Ok_0, b.len() as int, offset) == Ok::<
            Seq<u8>,
            ShmError,
        >(b),
{
    let img = written(r.bytes, offset, b);
    assert(window(img, offset, b.len() as int) =~= b);
}

/// A read or a write of at least one byte that reaches past the end of a
/// live region fails with `OutOfRange`.
pub proof fn lemma_out_of_range_fails(r: HostRegionView, b: Seq<u8>, size: int, offset: int)
    requires
        r.live,
        0 <= offset,
        size >= 1,
        b.len() == size,
        offset + size > r.size_bytes,
    ensures
        read_result(r, size, offset) == Err::<Seq<u8>, ShmError>(ShmError::OutOfRange),
        write_result(r, b, offset) == Err::<HostRegionView, ShmError>(ShmError::OutOfRange),
{
}

/// Destroying a region a second time changes nothing and reports that
/// nothing was released.
pub proof fn lemma_destroy_twice(r: HostRegionView)
    ensures
        !destroyed(r).live,
        destroyed(destroyed(r)) == destroyed(r),
{
}

/// Copying a tensor into a live region and reading the same bytes back at
/// the tensor's element width gives back the same elements.
pub proof fn lemma_copy_then_get_data(r: HostRegionView, t: TensorValue, offset: int)
    requires
        SystemSharedMemoryRegionHandle::valid(r),
        r.live,
        0 <= offset,
        offset + tensor_bytes(t).len() <= r.size_bytes,
    ensures
        tensor_bytes(t).len() == tensor_width(t).spec_bytes() * tensor_len(t),
        write_result(r, tensor_bytes(t), offset) is Ok,
        get_data_result(
            write_result(r, tensor_bytes(t), offset)->Ok_0,
            tensor_bytes(t).len() as int,
            offset,
            tensor_width(t),
        ) == Ok::<TensorValue, ShmError>(t),
{
    let b = tensor_bytes(t);
    lemma_write_then_read(r, b, offset);
    match t {
        TensorValue::U32(xs) => {
            lemma_u32s_round_trip(xs);
            assert(b.len() % 4 == 0) by (nonlinear_arith)
                requires b.len() == 4 * xs.len();
        },
        TensorValue::U64(xs) => {
            lemma_u64s_round_trip(xs);
            assert(b.len() % 8 == 0) by (nonlinear_arith)
                requires b.len() == 8 * xs.len();
        },
    }
}

} // verus!
