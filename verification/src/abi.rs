//! The contract between host and guest: the names both sides agree on,
//! the joypad's buttons, and which of the guest's exports serve as its
//! entrypoints.

use vstd::prelude::*;

pub mod guest_exports;
pub mod host_imports;

verus! {

/// The module name under which the guest imports host functions.
pub const IMPORT_MODULE: &'static str = "env";

/// A joypad button. Its id is what the guest passes in a query.
#[derive(Copy, Clone, Debug, Eq, PartialEq, Structural)]
pub enum Button {
    B,
    Y,
    Select,
    Start,
    Up,
    Down,
    Left,
    Right,
    A,
    X,
    L1,
    R1,
    L2,
    R2,
    L3,
    R3,
}

impl Button {
    /// The button's id.
    pub open spec fn id(self) -> u32 {
        match self {
            Button::B => 0,
            Button::Y => 1,
            Button::Select => 2,
            Button::Start => 3,
            Button::Up => 4,
            Button::Down => 5,
            Button::Left => 6,
            Button::Right => 7,
            Button::A => 8,
            Button::X => 9,
            Button::L1 => 10,
            Button::R1 => 11,
            Button::L2 => 12,
            Button::R2 => 13,
            Button::L3 => 14,
            Button::R3 => 15,
        }
    }

    /// Computes [`Button::id`].
    pub fn code(self) -> (r: u32)
        ensures
            r == self.id(),
    {
        match self {
            Button::B => 0,
            Button::Y => 1,
            Button::Select => 2,
            Button::Start => 3,
            Button::Up => 4,
            Button::Down => 5,
            Button::Left => 6,
            Button::Right => 7,
            Button::A => 8,
            Button::X => 9,
            Button::L1 => 10,
            Button::R1 => 11,
            Button::L2 => 12,
            Button::R2 => 13,
            Button::L3 => 14,
            Button::R3 => 15,
        }
    }
}

/// A required export that the guest lacks.
#[derive(Copy, Clone, Debug, Eq, PartialEq, Structural)]
pub enum MissingExport {
    Setup,
}

/// Which of the entrypoint names the guest exports as functions.
#[derive(Copy, Clone, Debug, Eq, PartialEq, Structural)]
pub struct GuestExports {
    pub setup: bool,
    pub update: bool,
    pub draw: bool,
    pub wasi_start: bool,
    pub main: bool,
}

impl Default for GuestExports {
    fn default() -> (e: Self)
        ensures
            e == (GuestExports {
                setup: false,
                update: false,
                draw: false,
                wasi_start: false,
                main: false,
            }),
    {
        GuestExports { setup: false, update: false, draw: false, wasi_start: false, main: false }
    }
}

/// An export that can serve as the guest's draw entrypoint.
#[derive(Copy, Clone, Debug, Eq, PartialEq, Structural)]
pub enum DrawExport {
    Draw,
    WasiStart,
    Main,
}

/// The guest's entrypoints as resolved at load time. `setup` is always
/// there; an entrypoint that is not there is a no-op.
#[derive(Copy, Clone, Debug, Eq, PartialEq, Structural)]
pub struct GuestEntrypoints {
    /// Whether the per-frame update entrypoint is there.
    pub update: bool,
    /// The export that serves as the per-frame draw entrypoint.
    pub draw: Option<DrawExport>,
}

/// The export that serves as the draw entrypoint: `draw` itself, else
/// `_start`, else `main`.
pub open spec fn draw_choice(exports: GuestExports) -> Option<DrawExport> {
    if exports.draw {
        Some(DrawExport::Draw)
    } else if exports.wasi_start {
        Some(DrawExport::WasiStart)
    } else if exports.main {
        Some(DrawExport::Main)
    } else {
        None
    }
}

/// The entrypoints that a guest's exports resolve to: a failure for a
/// guest without `setup`, and otherwise the update entrypoint where it is
/// exported and the draw entrypoint of first choice.
pub open spec fn resolved(exports: GuestExports) -> Result<GuestEntrypoints, MissingExport> {
    if !exports.setup {
        Err(MissingExport::Setup)
    } else {
        Ok(GuestEntrypoints { update: exports.update, draw: draw_choice(exports) })
    }
}

/// Checks that the guest exports what it must: `setup`.
pub fn required_exports_present_wasmtime(exports: &GuestExports) -> (r: Result<(), MissingExport>)
    ensures
        exports.setup ==> r is Ok,
        !exports.setup ==> r == Err::<(), MissingExport>(MissingExport::Setup),
{
    if !exports.setup {
        return Err(MissingExport::Setup);
    }
    Ok(())
}

impl GuestEntrypoints {
    /// Resolves the guest's entrypoints from its exports.
    pub fn resolve_wasmtime(exports: &GuestExports) -> (r: Result<GuestEntrypoints, MissingExport>)
        ensures
            r == resolved(*exports),
    {
        if !exports.setup {
            return Err(MissingExport::Setup);
        }
        let draw = if exports.draw {
            Some(DrawExport::Draw)
        } else if exports.wasi_start {
            Some(DrawExport::WasiStart)
        } else if exports.main {
            Some(DrawExport::Main)
        } else {
            None
        };
        Ok(GuestEntrypoints { update: exports.update, draw })
    }
}

impl DrawExport {
    /// The name of the export.
    pub fn name(self) -> (r: &'static str)
        ensures
            r@ == (match self {
                DrawExport::Draw => guest_exports::DRAW@,
                DrawExport::WasiStart => guest_exports::WASI_START@,
                DrawExport::Main => guest_exports::MAIN@,
            }),
    {
        match self {
            DrawExport::Draw => guest_exports::DRAW,
            DrawExport::WasiStart => guest_exports::WASI_START,
            DrawExport::Main => guest_exports::MAIN,
        }
    }
}

} // verus!
