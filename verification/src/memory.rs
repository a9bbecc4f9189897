//! Validated access to the guest's linear memory.
//!
//! The guest hands the host offsets and lengths of its own choosing. Every
//! host call that touches guest bytes goes through this module, which
//! checks the range against the memory's current size before it copies.

use vstd::prelude::*;
use vstd::slice::slice_subrange;
use crate::error::AvError;

verus! {

/// The range of `len` bytes at offset `ptr` lies inside a memory of
/// `size` bytes.
pub open spec fn guest_range_ok(size: int, ptr: u32, len: u32) -> bool {
    ptr as int + len as int <= size
}

/// What reading `len` bytes at `ptr` from `memory` gives.
pub open spec fn guest_read(
    memory: Option<Seq<u8>>,
    ptr: u32,
    len: u32,
) -> Result<Seq<u8>, AvError> {
    match memory {
        None => Err(AvError::MissingMemory),
        Some(m) => if guest_range_ok(m.len() as int, ptr, len) {
            Ok(m.subrange(ptr as int, ptr as int + len as int))
        } else {
            Err(AvError::MemoryReadFailed)
        },
    }
}

/// The view of an optional byte slice.
pub open spec fn memory_view(memory: Option<&[u8]>) -> Option<Seq<u8>> {
    match memory {
        None => None,
        Some(m) => Some(m@),
    }
}

/// The view of a read's outcome.
pub open spec fn read_view(r: Result<Vec<u8>, AvError>) -> Result<Seq<u8>, AvError> {
    match r {
        Ok(v) => Ok(v@),
        Err(e) => Err(e),
    }
}

/// Copies `len` bytes at offset `ptr` out of the guest's memory.
///
/// Fails with `MissingMemory` when no memory is registered and with
/// `MemoryReadFailed` when the range reaches past the end of the memory.
pub fn read_guest_bytes(memory: Option<&[u8]>, ptr: u32, len: u32) -> (r: Result<Vec<u8>, AvError>)
    ensures
        read_view(r) == guest_read(memory_view(memory), ptr, len),
{
    match memory {
        None => Err(AvError::MissingMemory),
        Some(m) => {
            let end: u64 = ptr as u64 + len as u64;
            if end > m.len() as u64 {
                return Err(AvError::MemoryReadFailed);
            }
            let part = slice_subrange(m, ptr as usize, end as usize);
            let mut out: Vec<u8> = Vec::new();
            out.extend_from_slice(part);
            assert(out@ =~= m@.subrange(ptr as int, ptr as int + len as int));
            Ok(out)
        },
    }
}

/// A memory after `data` was written over the bytes at offset `ptr`.
pub open spec fn guest_written(memory: Seq<u8>, ptr: int, data: Seq<u8>) -> Seq<u8> {
    memory.subrange(0, ptr) + data + memory.subrange(ptr + data.len(), memory.len() as int)
}

/// Writes `data` into the guest's memory at offset `ptr`.
///
/// Fails with `MemoryReadFailed` when the range reaches past the end of
/// the memory; the memory is then left as it was.
pub fn write_guest_bytes(memory: &mut [u8], ptr: u32, data: &[u8]) -> (r: Result<(), AvError>)
    ensures
        final(memory)@.len() == old(memory)@.len(),
        ptr as int + data@.len() <= old(memory)@.len() ==> r is Ok && final(memory)@
            == guest_written(old(memory)@, ptr as int, data@),
        ptr as int + data@.len() > old(memory)@.len() ==> r == Err::<(), AvError>(
            AvError::MemoryReadFailed,
        ) && final(memory)@ == old(memory)@,
{
    if data.len() > memory.len() || ptr as usize > memory.len() - data.len() {
        return Err(AvError::MemoryReadFailed);
    }
    let base: usize = ptr as usize;
    let mut i: usize = 0;
    while i < data.len()
        invariant
            i <= data@.len(),
            base + data@.len() <= old(memory)@.len(),
            memory@.len() == old(memory)@.len(),
            memory@.len() <= usize::MAX,
            forall|k: int| 0 <= k < base ==> memory@[k] == old(memory)@[k],
            forall|k: int| base <= k < base + i ==> memory@[k] == data@[k - base],
            forall|k: int| base + i <= k < memory@.len() ==> memory@[k] == old(memory)@[k],
        decreases data@.len() - i,
    {
        memory[base + i] = data[i];
        i += 1;
    }
    assert(memory@ =~= guest_written(old(memory)@, ptr as int, data@));
    Ok(())
}

} // verus!
