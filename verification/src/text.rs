//! Text that arrives as bytes.

use vstd::prelude::*;
use vstd::utf8::{decode_utf8, valid_utf8};
use crate::memory::{guest_read, memory_view, read_guest_bytes};

verus! {

/// The view of optional text.
pub open spec fn str_view(r: Option<&str>) -> Option<Seq<char>> {
    match r {
        Some(s) => Some(s@),
        None => None,
    }
}

/// The text that bytes hold: their characters where they are valid
/// UTF-8, nothing otherwise.
pub open spec fn text_of(bytes: Seq<u8>) -> Option<Seq<char>> {
    if valid_utf8(bytes) {
        Some(decode_utf8(bytes))
    } else {
        None
    }
}

/// Reads bytes as text with `std::str::from_utf8`: the text where the
/// bytes are valid UTF-8, nothing otherwise.
#[verifier::external_body]
pub(crate) fn utf8_text(bytes: &[u8]) -> (r: Option<&str>)
    ensures
        str_view(r) == text_of(bytes@),
{
    std::str::from_utf8(bytes).ok()
}

/// The view of an optional string.
pub open spec fn string_view(r: Option<String>) -> Option<Seq<char>> {
    match r {
        Some(s) => Some(s@),
        None => None,
    }
}

/// The text that lies in guest memory at `ptr`, if the bytes can be read
/// and are valid UTF-8.
pub open spec fn guest_text(memory: Option<Seq<u8>>, ptr: u32, len: u32) -> Option<Seq<char>> {
    match guest_read(memory, ptr, len) {
        Ok(bytes) => text_of(bytes),
        Err(_) => None,
    }
}

/// Reads text out of guest memory.
pub fn read_guest_text(memory: Option<&[u8]>, ptr: u32, len: u32) -> (r: Option<String>)
    ensures
        string_view(r) == guest_text(memory_view(memory), ptr, len),
{
    match read_guest_bytes(memory, ptr, len) {
        Ok(bytes) => match utf8_text(bytes.as_slice()) {
            Some(s) => Some(s.to_owned()),
            None => None,
        },
        Err(_) => None,
    }
}

} // verus!
