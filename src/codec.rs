//! Little-endian encoding of numeric element sequences, as they lie in a
//! region: row-major, no padding, each element in its natural width.
use vstd::bytes::*;
use vstd::prelude::*;
use vstd::slice::slice_subrange;

use crate::error::ShmError;

verus! {

/// The byte width of one tensor element.
#[derive(Debug, Clone, Copy, PartialEq, Eq, Structural)]
pub enum ElementWidth {
    Four,
    Eight,
}

impl ElementWidth {
    pub open spec fn spec_bytes(self) -> nat {
        match self {
            ElementWidth::Four => 4,
            ElementWidth::Eight => 8,
        }
    }
}

/// A flat sequence of elements of one width; floating-point elements travel
/// as their bit patterns.
#[derive(Debug, Clone, PartialEq, Eq)]
pub enum TensorData {
    U32(Vec<u32>),
    U64(Vec<u64>),
}

/// The mathematical value of a `TensorData`.
pub enum TensorValue {
    U32(Seq<u32>),
    U64(Seq<u64>),
}

impl View for TensorData {
    type V = TensorValue;

    open spec fn view(&self) -> TensorValue {
        match self {
            TensorData::U32(v) => TensorValue::U32(v@),
            TensorData::U64(v) => TensorValue::U64(v@),
        }
    }
}

/// The bytes of a sequence of 32-bit elements, each little-endian.
pub open spec fn u32s_to_bytes(xs: Seq<u32>) -> Seq<u8>
    decreases xs.len(),
{
    if xs.len() == 0 {
        Seq::empty()
    } else {
        u32s_to_bytes(xs.drop_last()) + spec_u32_to_le_bytes(xs.last())
    }
}

/// The bytes of a sequence of 64-bit elements, each little-endian.
pub open spec fn u64s_to_bytes(xs: Seq<u64>) -> Seq<u8>
    decreases xs.len(),
{
    if xs.len() == 0 {
        Seq::empty()
    } else {
        u64s_to_bytes(xs.drop_last()) + spec_u64_to_le_bytes(xs.last())
    }
}

/// The 32-bit elements read from consecutive four-byte groups.
pub open spec fn bytes_to_u32s(b: Seq<u8>) -> Seq<u32> {
    Seq::new(b.len() / 4, |i: int| spec_u32_from_le_bytes(b.subrange(4 * i, 4 * i + 4)))
}

/// The 64-bit elements read from consecutive eight-byte groups.
pub open spec fn bytes_to_u64s(b: Seq<u8>) -> Seq<u64> {
    Seq::new(b.len() / 8, |i: int| spec_u64_from_le_bytes(b.subrange(8 * i, 8 * i + 8)))
}

/// The bytes that a tensor occupies in a region.
pub open spec fn tensor_bytes(t: TensorValue) -> Seq<u8> {
    match t {
        TensorValue::U32(xs) => u32s_to_bytes(xs),
        TensorValue::U64(xs) => u64s_to_bytes(xs),
    }
}

/// The elements of the given width that a byte sequence holds, or
/// `AlignmentError` when its length is not a multiple of the width.
pub open spec fn tensor_from_bytes(b: Seq<u8>, w: ElementWidth) -> Result<TensorValue, ShmError> {
    if b.len() % w.spec_bytes() != 0 {
        Err(ShmError::AlignmentError)
    } else {
        match w {
            ElementWidth::Four => Ok(TensorValue::U32(bytes_to_u32s(b))),
            ElementWidth::Eight => Ok(TensorValue::U64(bytes_to_u64s(b))),
        }
    }
}

pub open spec fn tensor_width(t: TensorValue) -> ElementWidth {
    match t {
        TensorValue::U32(_) => ElementWidth::Four,
        TensorValue::U64(_) => ElementWidth::Eight,
    }
}

pub open spec fn tensor_len(t: TensorValue) -> nat {
    match t {
        TensorValue::U32(xs) => xs.len(),
        TensorValue::U64(xs) => xs.len(),
    }
}

proof fn lemma_u32s_to_bytes_len(xs: Seq<u32>)
    ensures
        u32s_to_bytes(xs).len() == 4 * xs.len(),
    decreases xs.len(),
{
    lemma_auto_spec_u32_to_from_le_bytes();
    if xs.len() > 0 {
        lemma_u32s_to_bytes_len(xs.drop_last());
    }
}

proof fn lemma_u64s_to_bytes_len(xs: Seq<u64>)
    ensures
        u64s_to_bytes(xs).len() == 8 * xs.len(),
    decreases xs.len(),
{
    lemma_auto_spec_u64_to_from_le_bytes();
    if xs.len() > 0 {
        lemma_u64s_to_bytes_len(xs.drop_last());
    }
}

/// The `i`-th four-byte group of an encoding holds the `i`-th element.
proof fn lemma_u32s_to_bytes_group(xs: Seq<u32>, i: int)
    requires
        0 <= i < xs.len(),
    ensures
        u32s_to_bytes(xs).subrange(4 * i, 4 * i + 4) == spec_u32_to_le_bytes(xs[i]),
    decreases xs.len(),
{
    lemma_auto_spec_u32_to_from_le_bytes();
    let init = xs.drop_last();
    lemma_u32s_to_bytes_len(init);
    let whole = u32s_to_bytes(xs);
    if i == xs.len() - 1 {
        assert(whole.subrange(4 * i, 4 * i + 4) =~= spec_u32_to_le_bytes(xs[i]));
    } else {
        lemma_u32s_to_bytes_group(init, i);
        assert(whole.subrange(4 * i, 4 * i + 4) =~= u32s_to_bytes(init).subrange(4 * i, 4 * i + 4));
    }
}

/// The `i`-th eight-byte group of an encoding holds the `i`-th element.
proof fn lemma_u64s_to_bytes_group(xs: Seq<u64>, i: int)
    requires
        0 <= i < xs.len(),
    ensures
        u64s_to_bytes(xs).subrange(8 * i, 8 * i + 8) == spec_u64_to_le_bytes(xs[i]),
    decreases xs.len(),
{
    lemma_auto_spec_u64_to_from_le_bytes();
    let init = xs.drop_last();
    lemma_u64s_to_bytes_len(init);
    let whole = u64s_to_bytes(xs);
    if i == xs.len() - 1 {
        assert(whole.subrange(8 * i, 8 * i + 8) =~= spec_u64_to_le_bytes(xs[i]));
    } else {
        lemma_u64s_to_bytes_group(init, i);
        assert(whole.subrange(8 * i, 8 * i + 8) =~= u64s_to_bytes(init).subrange(8 * i, 8 * i + 8));
    }
}

/// Decoding the bytes of a 32-bit element sequence gives back the elements.
pub proof fn lemma_u32s_round_trip(xs: Seq<u32>)
    ensures
        u32s_to_bytes(xs).len() == 4 * xs.len(),
        bytes_to_u32s(u32s_to_bytes(xs)) == xs,
{
    lemma_auto_spec_u32_to_from_le_bytes();
    lemma_u32s_to_bytes_len(xs);
    let b = u32s_to_bytes(xs);
    assert(b.len() / 4 == xs.len()) by (nonlinear_arith)
        requires b.len() == 4 * xs.len();
    assert forall|i: int| 0 <= i < xs.len() implies #[trigger] bytes_to_u32s(b)[i] == xs[i] by {
        lemma_u32s_to_bytes_group(xs, i);
        assert(spec_u32_to_le_bytes(xs[i]).len() == 4);
    }
    assert(bytes_to_u32s(b) =~= xs);
}

/// Decoding the bytes of a 64-bit element sequence gives back the elements.
pub proof fn lemma_u64s_round_trip(xs: Seq<u64>)
    ensures
        u64s_to_bytes(xs).len() == 8 * xs.len(),
        bytes_to_u64s(u64s_to_bytes(xs)) == xs,
{
    lemma_auto_spec_u64_to_from_le_bytes();
    lemma_u64s_to_bytes_len(xs);
    let b = u64s_to_bytes(xs);
    assert(b.len() / 8 == xs.len()) by (nonlinear_arith)
        requires b.len() == 8 * xs.len();
    assert forall|i: int| 0 <= i < xs.len() implies #[trigger] bytes_to_u64s(b)[i] == xs[i] by {
        lemma_u64s_to_bytes_group(xs, i);
    }
    assert(bytes_to_u64s(b) =~= xs);
}

/// Re-encoding the 32-bit elements read from a byte sequence whose length is
/// a multiple of four gives back the same bytes.
pub proof fn lemma_bytes_u32s_round_trip(b: Seq<u8>)
    requires
        b.len() % 4 == 0,
    ensures
        u32s_to_bytes(bytes_to_u32s(b)) == b,
    decreases b.len(),
{
    lemma_auto_spec_u32_to_from_le_bytes();
    if b.len() > 0 {
        let n = b.len() as int;
        let init = b.subrange(0, n - 4);
        let xs = bytes_to_u32s(b);
        assert(init.len() / 4 == n / 4 - 1);
        assert(xs.drop_last() =~= bytes_to_u32s(init)) by {
            assert forall|i: int| 0 <= i < n / 4 - 1 implies #[trigger] bytes_to_u32s(init)[i]
                == xs[i] by {
                assert(init.subrange(4 * i, 4 * i + 4) =~= b.subrange(4 * i, 4 * i + 4));
            }
        }
        lemma_bytes_u32s_round_trip(init);
        let last = b.subrange(n - 4, n);
        assert(xs.last() == spec_u32_from_le_bytes(last));
        assert(spec_u32_to_le_bytes(spec_u32_from_le_bytes(last)) == last);
        assert(b =~= init + last);
    } else {
        assert(b =~= Seq::empty());
    }
}

/// Re-encoding the 64-bit elements read from a byte sequence whose length is
/// a multiple of eight gives back the same bytes.
pub proof fn lemma_bytes_u64s_round_trip(b: Seq<u8>)
    requires
        b.len() % 8 == 0,
    ensures
        u64s_to_bytes(bytes_to_u64s(b)) == b,
    decreases b.len(),
{
    lemma_auto_spec_u64_to_from_le_bytes();
    if b.len() > 0 {
        let n = b.len() as int;
        let init = b.subrange(0, n - 8);
        let xs = bytes_to_u64s(b);
        assert(init.len() / 8 == n / 8 - 1);
        assert(xs.drop_last() =~= bytes_to_u64s(init)) by {
            assert forall|i: int| 0 <= i < n / 8 - 1 implies #[trigger] bytes_to_u64s(init)[i]
                == xs[i] by {
                assert(init.subrange(8 * i, 8 * i + 8) =~= b.subrange(8 * i, 8 * i + 8));
            }
        }
        lemma_bytes_u64s_round_trip(init);
        let last = b.subrange(n - 8, n);
        assert(xs.last() == spec_u64_from_le_bytes(last));
        assert(spec_u64_to_le_bytes(spec_u64_from_le_bytes(last)) == last);
        assert(b =~= init + last);
    } else {
        assert(b =~= Seq::empty());
    }
}

/// The bytes of 32-bit elements, each little-endian, in order.
pub fn encode_u32s(xs: &[u32]) -> (r: Vec<u8>)
    requires
        4 * xs@.len() <= usize::MAX,
    ensures
        r@ == u32s_to_bytes(xs@),
        r@.len() == 4 * xs@.len(),
{
    let mut out: Vec<u8> = Vec::new();
    let mut i: usize = 0;
    while i < xs.len()
        invariant
            i <= xs@.len(),
            out@ == u32s_to_bytes(xs@.subrange(0, i as int)),
        decreases xs@.len() - i,
    {
        let mut b = u32_to_le_bytes(xs[i]);
        out.append(&mut b);
        proof {
            assert(xs@.subrange(0, i as int + 1).drop_last() =~= xs@.subrange(0, i as int));
        }
        i = i + 1;
    }
    proof {
        assert(xs@.subrange(0, xs@.len() as int) =~= xs@);
        lemma_u32s_to_bytes_len(xs@);
    }
    out
}

/// The bytes of 64-bit elements, each little-endian, in order.
pub fn encode_u64s(xs: &[u64]) -> (r: Vec<u8>)
    requires
        8 * xs@.len() <= usize::MAX,
    ensures
        r@ == u64s_to_bytes(xs@),
        r@.len() == 8 * xs@.len(),
{
    let mut out: Vec<u8> = Vec::new();
    let mut i: usize = 0;
    while i < xs.len()
        invariant
            i <= xs@.len(),
            out@ == u64s_to_bytes(xs@.subrange(0, i as int)),
        decreases xs@.len() - i,
    {
        let mut b = u64_to_le_bytes(xs[i]);
        out.append(&mut b);
        proof {
            assert(xs@.subrange(0, i as int + 1).drop_last() =~= xs@.subrange(0, i as int));
        }
        i = i + 1;
    }
    proof {
        assert(xs@.subrange(0, xs@.len() as int) =~= xs@);
        lemma_u64s_to_bytes_len(xs@);
    }
    out
}

/// The 32-bit elements held by a byte sequence; `AlignmentError` when its
/// length is not a multiple of four.
pub fn decode_u32s(b: &[u8]) -> (r: Result<Vec<u32>, ShmError>)
    ensures
        b@.len() % 4 != 0 ==> r == Err::<Vec<u32>, ShmError>(ShmError::AlignmentError),
        b@.len() % 4 == 0 ==> r is Ok && r->Ok_0@ == bytes_to_u32s(b@),
{
    if b.len() % 4 != 0 {
        return Err(ShmError::AlignmentError);
    }
    let n: usize = b.len() / 4;
    let mut out: Vec<u32> = Vec::new();
    let mut i: usize = 0;
    while i < n
        invariant
            n == b@.len() / 4,
            b@.len() % 4 == 0,
            b@.len() <= usize::MAX,
            i <= n,
            out@ == bytes_to_u32s(b@).subrange(0, i as int),
        decreases n - i,
    {
        assert(4 * i + 4 <= b@.len()) by (nonlinear_arith)
            requires i < n, n == b@.len() / 4;
        let start: usize = 4 * i;
        let group = slice_subrange(b, start, start + 4);
        let x = u32_from_le_bytes(group);
        out.push(x);
        proof {
            assert(out@ =~= bytes_to_u32s(b@).subrange(0, i as int + 1));
        }
        i = i + 1;
    }
    proof {
        assert(out@ =~= bytes_to_u32s(b@));
    }
    Ok(out)
}

/// The 64-bit elements held by a byte sequence; `AlignmentError` when its
/// length is not a multiple of eight.
pub fn decode_u64s(b: &[u8]) -> (r: Result<Vec<u64>, ShmError>)
    ensures
        b@.len() % 8 != 0 ==> r == Err::<Vec<u64>, ShmError>(ShmError::AlignmentError),
        b@.len() % 8 == 0 ==> r is Ok && r->Ok_0@ == bytes_to_u64s(b@),
{
    if b.len() % 8 != 0 {
        return Err(ShmError::AlignmentError);
    }
    let n: usize = b.len() / 8;
    let mut out: Vec<u64> = Vec::new();
    let mut i: usize = 0;
    while i < n
        invariant
            n == b@.len() / 8,
            b@.len() % 8 == 0,
            b@.len() <= usize::MAX,
            i <= n,
            out@ == bytes_to_u64s(b@).subrange(0, i as int),
        decreases n - i,
    {
        assert(8 * i + 8 <= b@.len()) by (nonlinear_arith)
            requires i < n, n == b@.len() / 8;
        let start: usize = 8 * i;
        let group = slice_subrange(b, start, start + 8);
        let x = u64_from_le_bytes(group);
        out.push(x);
        proof {
            assert(out@ =~= bytes_to_u64s(b@).subrange(0, i as int + 1));
        }
        i = i + 1;
    }
    proof {
        assert(out@ =~= bytes_to_u64s(b@));
    }
    Ok(out)
}

} // verus!
