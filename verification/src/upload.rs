//! The upload generation of the contract, in which the guest owns its
//! buffers and hands whole frames and sample batches to the host.
//!
//! The host functions of this generation take signed numbers as the
//! guest passes them; a negative place or size names no range of guest
//! memory.

use vstd::prelude::*;
use crate::audio::{decode_samples, samples_of};
use crate::error::AvError;
use crate::input::{joypad_answer, joypad_button_pressed};
use crate::memory::{guest_read, memory_view, read_guest_bytes, read_view};
use crate::state::InputState;

verus! {

/// The device number of the joypad in an input query.
pub const DEVICE_JOYPAD: i32 = 1;

/// What reading `size` bytes at `ptr` gives, both as the guest passes
/// them: a failure for a negative place and for a size that is negative
/// or beyond 32 bits.
pub open spec fn signed_read(
    memory: Option<Seq<u8>>,
    ptr: i32,
    size: int,
) -> Result<Seq<u8>, AvError> {
    if memory is None {
        Err(AvError::MissingMemory)
    } else if ptr < 0 || size < 0 || size > u32::MAX {
        Err(AvError::MemoryReadFailed)
    } else {
        guest_read(memory, ptr as u32, size as u32)
    }
}

/// Reads `size` bytes at `ptr` out of guest memory.
fn read_signed(memory: Option<&[u8]>, ptr: i32, size: i64) -> (r: Result<Vec<u8>, AvError>)
    ensures
        read_view(r) == signed_read(memory_view(memory), ptr, size as int),
{
    if memory.is_none() {
        return Err(AvError::MissingMemory);
    }
    if ptr < 0 || size < 0 || size > u32::MAX as i64 {
        return Err(AvError::MemoryReadFailed);
    }
    read_guest_bytes(memory, ptr as u32, size as u32)
}

/// Takes a frame of `height` rows of `pitch` bytes that lies in guest
/// memory at `ptr`, to be presented as it is.
pub fn video_refresh(memory: Option<&[u8]>, ptr: i32, height: i32, pitch: i32) -> (r: Result<
    Vec<u8>,
    AvError,
>)
    ensures
        read_view(r) == (if height < 0 || pitch < 0 {
            if memory is None {
                Err::<Seq<u8>, AvError>(AvError::MissingMemory)
            } else {
                Err::<Seq<u8>, AvError>(AvError::MemoryReadFailed)
            }
        } else {
            signed_read(memory_view(memory), ptr, height * pitch)
        }),
{
    if height < 0 || pitch < 0 {
        return if memory.is_none() {
            Err(AvError::MissingMemory)
        } else {
            Err(AvError::MemoryReadFailed)
        };
    }
    assert(0 <= height * pitch <= 0x7FFF_FFFF * 0x7FFF_FFFF) by (nonlinear_arith)
        requires
            0 <= height <= 0x7FFF_FFFF,
            0 <= pitch <= 0x7FFF_FFFF,
    ;
    read_signed(memory, ptr, (height as i64) * (pitch as i64))
}

/// The view of a batch's outcome.
pub open spec fn batch_view(r: Result<Vec<i16>, AvError>) -> Result<Seq<i16>, AvError> {
    match r {
        Ok(v) => Ok(v@),
        Err(e) => Err(e),
    }
}

/// Takes a batch of `frames` stereo frames of little-endian 16-bit
/// samples that lies in guest memory at `ptr`.
pub fn audio_sample_batch(memory: Option<&[u8]>, ptr: i32, frames: i32) -> (r: Result<
    Vec<i16>,
    AvError,
>)
    ensures
        batch_view(r) == (match signed_read(memory_view(memory), ptr, 4 * frames) {
            Ok(bytes) => Ok::<Seq<i16>, AvError>(samples_of(bytes)),
            Err(e) => Err::<Seq<i16>, AvError>(e),
        }),
{
    match read_signed(memory, ptr, 4 * (frames as i64)) {
        Ok(bytes) => Ok(decode_samples(bytes.as_slice())),
        Err(e) => Err(e),
    }
}

/// What an input query answers: for the joypad, 1 where the button with
/// id `id` is held on the port and 0 where it is not; 0 for any other
/// device and for a negative port or id.
pub open spec fn input_answer(input: InputState, port: i32, device: i32, id: i32) -> i32 {
    if device == DEVICE_JOYPAD && port >= 0 && id >= 0 {
        joypad_answer(input, port as u32, id as u32) as i32
    } else {
        0
    }
}

/// Answers an input query of the guest.
pub fn get_input_state(
    input: &InputState,
    port: i32,
    device: i32,
    _index: i32,
    id: i32,
) -> (r: i32)
    ensures
        r == input_answer(*input, port, device, id),
{
    if device == DEVICE_JOYPAD && port >= 0 && id >= 0 {
        joypad_button_pressed(input, port as u32, id as u32) as i32
    } else {
        0
    }
}

} // verus!
