//! The loader: telling a WebAssembly binary from WebAssembly text by its
//! first bytes, and turning either into binary.

use vstd::prelude::*;
use vstd::slice::slice_to_vec;
use vstd::string::StringExecFns;

verus! {

/// An error of the `wat` crate's parser; it is carried, never looked
/// into.
#[verifier::external_type_specification]
#[verifier::external_body]
pub struct ExWatError(wat::Error);

/// Why a guest module could not be loaded.
#[derive(Debug)]
pub enum LoadError {
    /// The bytes are neither a WebAssembly binary nor WebAssembly text.
    UnrecognizedFormat,
    /// The text did not parse.
    WatParseFailed(wat::Error),
    /// The binary did not compile; the message is the compiler's.
    CompileFailed(String),
}

/// The kind of module that the bytes look like.
#[derive(Copy, Clone, Debug, Eq, PartialEq, Structural)]
pub enum DetectedFormat {
    Wasm,
    Wat,
}

/// A module's bytes after detection and conversion.
#[derive(Clone, Debug)]
pub struct Detected {
    pub format: DetectedFormat,
    /// The module as a WebAssembly binary.
    pub wasm_bytes: Vec<u8>,
}

/// The bytes begin with the magic number of a WebAssembly binary,
/// `\0asm`.
pub open spec fn has_wasm_magic(bytes: Seq<u8>) -> bool {
    &&& bytes.len() >= 4
    &&& bytes[0] == 0x00
    &&& bytes[1] == 0x61
    &&& bytes[2] == 0x73
    &&& bytes[3] == 0x6d
}

/// The bytes begin with a UTF-8 byte order mark.
pub open spec fn has_bom(bytes: Seq<u8>) -> bool {
    bytes.len() >= 3 && bytes[0] == 0xEF && bytes[1] == 0xBB && bytes[2] == 0xBF
}

/// The byte is a space, a tab, a carriage return or a line feed.
pub open spec fn is_blank(b: u8) -> bool {
    b == 0x20 || b == 0x09 || b == 0x0D || b == 0x0A
}

/// Where the text begins: behind a byte order mark, if there is one.
pub open spec fn text_start(bytes: Seq<u8>) -> int {
    if has_bom(bytes) {
        3
    } else {
        0
    }
}

/// The index of the first byte at or behind `i` that is not blank, or
/// the length of the bytes where all of them are.
pub open spec fn skip_blanks(bytes: Seq<u8>, i: int) -> int
    decreases bytes.len() - i,
{
    if 0 <= i < bytes.len() && is_blank(bytes[i]) {
        skip_blanks(bytes, i + 1)
    } else {
        i
    }
}

/// The index of the first byte behind the byte order mark that is not
/// blank.
pub open spec fn first_mark(bytes: Seq<u8>) -> int {
    skip_blanks(bytes, text_start(bytes))
}

/// What the bytes look like: a binary where they begin with the magic
/// number; text where, behind a byte order mark and blanks, the first
/// byte is an opening parenthesis; nothing otherwise.
pub open spec fn detected(bytes: Seq<u8>) -> Option<DetectedFormat> {
    if has_wasm_magic(bytes) {
        Some(DetectedFormat::Wasm)
    } else if first_mark(bytes) < bytes.len() && bytes[first_mark(bytes)] == 0x28 {
        Some(DetectedFormat::Wat)
    } else {
        None
    }
}

/// Whether the bytes begin with the magic number of a WebAssembly
/// binary.
pub fn is_wasm_magic(bytes: &[u8]) -> (r: bool)
    ensures
        r == has_wasm_magic(bytes@),
{
    bytes.len() >= 4 && bytes[0] == 0x00 && bytes[1] == 0x61 && bytes[2] == 0x73 && bytes[3]
        == 0x6d
}

/// Skips a UTF-8 byte order mark and the blanks behind it.
pub fn skip_bom_and_leading_ws(bytes: &[u8]) -> (i: usize)
    ensures
        i == first_mark(bytes@),
        i <= bytes@.len(),
{
    let mut i: usize = 0;
    if bytes.len() >= 3 && bytes[0] == 0xEF && bytes[1] == 0xBB && bytes[2] == 0xBF {
        i = 3;
    }
    while i < bytes.len()
        invariant
            i <= bytes@.len(),
            skip_blanks(bytes@, i as int) == first_mark(bytes@),
        ensures
            i <= bytes@.len(),
            i == first_mark(bytes@),
        decreases bytes@.len() - i,
    {
        let b = bytes[i];
        if b == 0x20 || b == 0x09 || b == 0x0D || b == 0x0A {
            i += 1;
        } else {
            break ;
        }
    }
    i
}

/// Tells a WebAssembly binary from WebAssembly text by the first bytes.
pub fn detect_format(bytes: &[u8]) -> (r: Option<DetectedFormat>)
    ensures
        r == detected(bytes@),
{
    if is_wasm_magic(bytes) {
        return Some(DetectedFormat::Wasm);
    }
    let i = skip_bom_and_leading_ws(bytes);
    if i < bytes.len() && bytes[i] == 0x28 {
        return Some(DetectedFormat::Wat);
    }
    None
}

/// The binary that the `wat` crate's parser turns bytes into; `None`
/// where it rejects them.
pub uninterp spec fn wat_binary(data: Seq<u8>) -> Option<Seq<u8>>;

/// Turns WebAssembly text into a binary with `wat::parse_bytes`.
///
/// The contract claims only that success and the binary are a function
/// of the bytes, named [`wat_binary`].
#[verifier::external_body]
fn wat_to_wasm(data: &[u8]) -> (r: Result<Vec<u8>, wat::Error>)
    ensures
        match r {
            Ok(v) => wat_binary(data@) == Some(v@),
            Err(_) => wat_binary(data@) is None,
        },
{
    wat::parse_bytes(data).map(|b| b.into_owned())
}

/// The text of an error of the `wat` crate, as its `Display` gives it.
#[verifier::external_body]
fn wat_error_text(e: &wat::Error) -> String {
    e.to_string()
}

/// What normalizing bytes gives: the bytes themselves for a binary, the
/// parsed binary for text, and the kind of failure otherwise.
pub open spec fn normalized(bytes: Seq<u8>, r: Result<Detected, LoadError>) -> bool {
    match detected(bytes) {
        None => r matches Err(LoadError::UnrecognizedFormat),
        Some(DetectedFormat::Wasm) => r matches Ok(d) && d.format == DetectedFormat::Wasm
            && d.wasm_bytes@ == bytes,
        Some(DetectedFormat::Wat) => match wat_binary(bytes) {
            Some(binary) => r matches Ok(d) && d.format == DetectedFormat::Wat && d.wasm_bytes@
                == binary,
            None => r matches Err(LoadError::WatParseFailed(_)),
        },
    }
}

/// Detects the format of a module's bytes and turns them into a
/// WebAssembly binary.
pub fn normalize_to_wasm(rom_bytes: &[u8]) -> (r: Result<Detected, LoadError>)
    ensures
        normalized(rom_bytes@, r),
{
    match detect_format(rom_bytes) {
        None => Err(LoadError::UnrecognizedFormat),
        Some(DetectedFormat::Wasm) => Ok(
            Detected { format: DetectedFormat::Wasm, wasm_bytes: slice_to_vec(rom_bytes) },
        ),
        Some(DetectedFormat::Wat) => match wat_to_wasm(rom_bytes) {
            Ok(bytes) => Ok(Detected { format: DetectedFormat::Wat, wasm_bytes: bytes }),
            Err(e) => Err(LoadError::WatParseFailed(e)),
        },
    }
}

impl LoadError {
    /// The error in words.
    pub fn message(&self) -> (text: String)
        ensures
            self is UnrecognizedFormat ==> text@ == "unrecognized ROM format (expected wasm or wat)"@,
            self is WatParseFailed ==> "failed to parse WAT: "@.is_prefix_of(text@),
            self matches LoadError::CompileFailed(m) ==> text@ == "failed to compile WASM module: "@
                + m@,
    {
        match self {
            LoadError::UnrecognizedFormat => "unrecognized ROM format (expected wasm or wat)".to_owned(),
            LoadError::WatParseFailed(e) => {
                let detail = wat_error_text(e);
                "failed to parse WAT: ".to_owned().concat(detail.as_str())
            },
            LoadError::CompileFailed(m) => "failed to compile WASM module: ".to_owned().concat(
                m.as_str(),
            ),
        }
    }
}

} // verus!
