//! Handles to blocks of guest memory, and the values that cross a guest call.

use crate::error::BridgeError;
use vstd::prelude::*;
use vstd::slice::slice_subrange;

verus! {

/// A block of `length` bytes that starts `offset` bytes into the guest's
/// linear memory. The handle with both fields zero stands for no block.
#[derive(Clone, Copy, Debug, PartialEq, Eq, Structural)]
pub struct MemoryHandle {
    pub offset: u64,
    pub length: u64,
}

/// A value handed to or returned by a guest function.
#[derive(Clone, Copy, Debug, PartialEq, Eq, Structural)]
pub enum Val {
    I32(i32),
    I64(i64),
    /// The bits of a 32-bit float.
    F32(u32),
    /// The bits of a 64-bit float.
    F64(u64),
    /// A 128-bit vector.
    V128(u128),
    /// A reference, which carries no offset.
    Reference,
}

/// The offset that a 64-bit call value stands for: its bits read as unsigned.
pub open spec fn offset_of(raw: i64) -> u64 {
    raw as u64
}

/// The 64-bit call value that stands for an offset: its bits read as signed.
pub open spec fn raw_of(offset: u64) -> i64 {
    offset as i64
}

/// Reading an offset's call value back gives the offset.
pub proof fn lemma_offset_round_trip(offset: u64)
    ensures
        offset_of(raw_of(offset)) == offset,
{
    assert((offset as i64) as u64 == offset) by (bit_vector);
}

/// Turning a call value into an offset and back gives the call value.
pub proof fn lemma_raw_round_trip(raw: i64)
    ensures
        raw_of(offset_of(raw)) == raw,
{
    assert((raw as u64) as i64 == raw) by (bit_vector);
}

/// Only the call value zero stands for offset zero.
pub proof fn lemma_offset_zero(raw: i64)
    ensures
        offset_of(raw) == 0 <==> raw == 0,
{
    assert((raw as u64) == 0 <==> raw == 0) by (bit_vector);
}

impl Val {
    /// The 64-bit integer that the value holds, if it is one.
    pub open spec fn as_i64(self) -> Option<i64> {
        match self {
            Val::I64(x) => Some(x),
            _ => None,
        }
    }

    /// The 64-bit integer that the value holds, if it is one.
    pub fn i64(&self) -> (x: Option<i64>)
        ensures
            x == self.as_i64(),
    {
        match self {
            Val::I64(x) => Some(*x),
            _ => None,
        }
    }
}

impl MemoryHandle {
    /// The handle that stands for no block.
    pub open spec fn sentinel() -> MemoryHandle {
        MemoryHandle { offset: 0, length: 0 }
    }

    /// Whether the block lies inside a memory of `memory_len` bytes.
    pub open spec fn fits(self, memory_len: nat) -> bool {
        self.offset + self.length <= memory_len
    }

    /// The bytes of the block in a memory image that it fits in.
    pub open spec fn bytes_in(self, memory: Seq<u8>) -> Seq<u8> {
        memory.subrange(self.offset as int, self.offset + self.length)
    }

    /// The memory image in which `data` stands in place of the block.
    pub open spec fn replaced(self, memory: Seq<u8>, data: Seq<u8>) -> Seq<u8> {
        memory.subrange(0, self.offset as int) + data + memory.subrange(
            self.offset + self.length,
            memory.len() as int,
        )
    }

    /// Whether `count` bytes can be copied over the block in a memory of
    /// `memory_len` bytes: the block lies inside the memory and is `count`
    /// bytes long.
    pub open spec fn takes(self, memory_len: nat, count: nat) -> bool {
        self.fits(memory_len) && count == self.length
    }

    /// What comes of copying `bytes` over the block in a guest whose memory
    /// held `data`.
    pub open spec fn stored_in(self, data: Option<Seq<u8>>, bytes: Seq<u8>) -> Result<
        (),
        BridgeError,
    > {
        match data {
            None => Err(BridgeError::MissingAbiExport),
            Some(d) => if self.takes(d.len(), bytes.len()) {
                Ok(())
            } else {
                Err(BridgeError::InvalidMemoryAccess)
            },
        }
    }

    /// What the guest's answer `length` to a length query for `offset` means.
    pub open spec fn located(offset: u64, length: u64) -> Option<MemoryHandle> {
        if length == 0 {
            None
        } else {
            Some(MemoryHandle { offset, length })
        }
    }

    /// What the guest allocator's answer `offset` to a request for `n` bytes means.
    pub open spec fn allocated(n: u64, offset: u64) -> Option<MemoryHandle> {
        if offset == 0 {
            None
        } else {
            Some(MemoryHandle { offset, length: n })
        }
    }

    /// A handle to `length` bytes at `offset`.
    pub fn new(offset: u64, length: u64) -> (handle: Self)
        ensures
            handle == (MemoryHandle { offset, length }),
    {
        MemoryHandle { offset, length }
    }

    /// The handle that stands for no block.
    pub fn null() -> (handle: Self)
        ensures
            handle == Self::sentinel(),
    {
        MemoryHandle { offset: 0, length: 0 }
    }

    /// Whether this is the handle that stands for no block.
    pub fn is_null(&self) -> (b: bool)
        ensures
            b == (*self == Self::sentinel()),
    {
        self.offset == 0 && self.length == 0
    }

    /// Where the block starts.
    pub fn offset(&self) -> (offset: u64)
        ensures
            offset == self.offset,
    {
        self.offset
    }

    /// The number of bytes in the block.
    pub fn len(&self) -> (n: u64)
        ensures
            n == self.length,
    {
        self.length
    }

    /// Whether the block holds no byte.
    pub fn is_empty(&self) -> (b: bool)
        ensures
            b == (self.length == 0),
    {
        self.length == 0
    }

    /// The handle for `offset` once the guest has reported `length` bytes for
    /// it: none where the guest reported zero.
    pub fn from_length(offset: u64, length: u64) -> (handle: Option<Self>)
        ensures
            handle == Self::located(offset, length),
            handle is None <==> length == 0,
    {
        if length == 0 {
            return None;
        }
        Some(MemoryHandle { offset, length })
    }

    /// The handle for a block of `n` bytes, `n` not zero, once the guest's
    /// allocator has answered `offset`: zero means that it had no block to give.
    pub fn from_allocation(n: u64, offset: u64) -> (r: Result<Self, BridgeError>)
        ensures
            match Self::allocated(n, offset) {
                Some(h) => r == Ok::<Self, BridgeError>(h),
                None => r == Err::<Self, BridgeError>(BridgeError::OutOfMemory),
            },
    {
        if offset == 0 {
            return Err(BridgeError::OutOfMemory);
        }
        Ok(MemoryHandle { offset, length: n })
    }

    /// The handle to the guest's pending error, which the guest keeps at
    /// `offset` with `length` bytes: none where the offset is zero.
    pub fn for_error(offset: u64, length: u64) -> (handle: Option<Self>)
        ensures
            handle == if offset == 0 {
                None
            } else {
                Some(MemoryHandle { offset, length })
            },
    {
        if offset == 0 {
            return None;
        }
        Some(MemoryHandle { offset, length })
    }

    /// The handle that a call value stands for, given what the guest reports
    /// as the length of the block at each offset.
    pub fn from_val(value: &Val, length: u64) -> (handle: Option<Self>)
        ensures
            handle == match value.as_i64() {
                Some(raw) => Self::located(offset_of(raw), length),
                None => None,
            },
    {
        match value.i64() {
            Some(raw) => Self::from_length(raw as u64, length),
            None => None,
        }
    }

    /// The call value that stands for the handle: its offset. The length is
    /// not passed on.
    pub fn to_val(&self) -> (value: Val)
        ensures
            value == Val::I64(raw_of(self.offset)),
    {
        Val::I64(self.offset as i64)
    }

    /// The positions in a memory of `memory_len` bytes at which the block
    /// starts and ends, or `None` where it does not lie inside the memory.
    pub fn range(&self, memory_len: usize) -> (r: Option<(usize, usize)>)
        ensures
            match r {
                Some((start, end)) => self.fits(memory_len as nat) && start == self.offset && end
                    == self.offset + self.length,
                None => !self.fits(memory_len as nat),
            },
    {
        let len: u64 = memory_len as u64;
        if self.offset > len {
            return None;
        }
        if self.length > len - self.offset {
            return None;
        }
        Some((self.offset as usize, (self.offset + self.length) as usize))
    }

    /// The block's bytes in the memory image `memory`.
    pub fn slice<'a>(&self, memory: &'a [u8]) -> (r: Result<&'a [u8], BridgeError>)
        ensures
            match r {
                Ok(bytes) => self.fits(memory@.len()) && bytes@ == self.bytes_in(memory@),
                Err(e) => !self.fits(memory@.len()) && e == BridgeError::InvalidMemoryAccess,
            },
    {
        match self.range(memory.len()) {
            Some((start, end)) => Ok(slice_subrange(memory, start, end)),
            None => Err(BridgeError::InvalidMemoryAccess),
        }
    }

    /// The block inside the memory image `memory`, for reading and writing in
    /// place: what is written to it is written to the memory.
    pub fn slice_mut<'a>(&self, memory: &'a mut [u8]) -> (r: Result<&'a mut [u8], BridgeError>)
        ensures
            match r {
                Ok(bytes) => self.fits(old(memory)@.len()) && bytes@ == self.bytes_in(
                    old(memory)@,
                ) && final(memory)@ == self.replaced(old(memory)@, final(bytes)@),
                Err(e) => !self.fits(old(memory)@.len()) && e == BridgeError::InvalidMemoryAccess
                    && final(memory)@ == old(memory)@,
            },
    {
        match self.range(memory.len()) {
            Some((start, end)) => {
                let ghost whole = memory@;
                let (head, rest) = memory.split_at_mut(start);
                let ghost tail_all = rest@;
                let (block, tail) = rest.split_at_mut(end - start);
                proof {
                    assert(head@ == whole.subrange(0, start as int));
                    assert(block@ =~= self.bytes_in(whole));
                    assert(tail@ =~= whole.subrange(end as int, whole.len() as int));
                    assert(final(head)@ == head@);
                    assert(final(tail)@ == tail@);
                    assert(head@ + (final(block)@ + tail@) =~= self.replaced(whole, final(block)@));
                }
                Ok(block)
            },
            None => Err(BridgeError::InvalidMemoryAccess),
        }
    }
}

impl MemoryHandle {
    /// Copies `bytes` over the block inside the memory image `memory`. The
    /// copy is refused, and the memory left as it is, where the block does
    /// not lie inside the memory or is not as long as `bytes`.
    pub fn store(&self, memory: &mut [u8], bytes: &[u8]) -> (r: Result<(), BridgeError>)
        ensures
            r == self.stored_in(Some(old(memory)@), bytes@),
            final(memory)@ == if self.takes(old(memory)@.len(), bytes@.len()) {
                self.replaced(old(memory)@, bytes@)
            } else {
                old(memory)@
            },
    {
        let n = bytes.len();
        if n as u64 != self.length {
            return Err(BridgeError::InvalidMemoryAccess);
        }
        let (start, end) = match self.range(memory.len()) {
            Some(range) => range,
            None => {
                return Err(BridgeError::InvalidMemoryAccess);
            },
        };
        let ghost whole = memory@;
        let mut i: usize = 0;
        while i < n
            invariant
                i <= n,
                n == bytes@.len(),
                n == self.length,
                start == self.offset,
                end == start + n,
                start + n <= memory@.len(),
                memory@.len() == whole.len(),
                forall|j: int| 0 <= j < start ==> memory@[j] == whole[j],
                forall|j: int| start <= j < start + i ==> memory@[j] == bytes@[j - start],
                forall|j: int| start + i <= j < whole.len() ==> memory@[j] == whole[j],
            decreases n - i,
        {
            memory[start + i] = bytes[i];
            i += 1;
        }
        assert(memory@ =~= self.replaced(whole, bytes@));
        Ok(())
    }
}

/// Bytes put in place of a block are the bytes read back from it.
pub proof fn lemma_replaced_then_read(handle: MemoryHandle, memory: Seq<u8>, data: Seq<u8>)
    requires
        handle.fits(memory.len()),
        data.len() == handle.length,
    ensures
        handle.replaced(memory, data).len() == memory.len(),
        handle.bytes_in(handle.replaced(memory, data)) == data,
{
    assert(handle.bytes_in(handle.replaced(memory, data)) =~= data);
}

/// Putting bytes in place of a block leaves the bytes outside it as they were.
pub proof fn lemma_replaced_elsewhere(handle: MemoryHandle, memory: Seq<u8>, data: Seq<u8>, i: int)
    requires
        handle.fits(memory.len()),
        data.len() == handle.length,
        0 <= i < memory.len(),
        i < handle.offset || i >= handle.offset + handle.length,
    ensures
        handle.replaced(memory, data)[i] == memory[i],
{
}

} // verus!
