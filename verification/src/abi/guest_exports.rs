//! The names of the guest's entrypoints.

use vstd::prelude::*;

verus! {

/// Called once on startup. Required.
pub const SETUP: &'static str = "setup";

/// Called once per frame to update logic.
pub const UPDATE: &'static str = "update";

/// Called once per frame to draw.
pub const DRAW: &'static str = "draw";

/// The WASI entrypoint; serves as the draw entrypoint where `draw` is
/// missing.
pub const WASI_START: &'static str = "_start";

/// Serves as the draw entrypoint where `draw` and `_start` are missing.
pub const MAIN: &'static str = "main";

} // verus!
