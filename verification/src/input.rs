//! The input snapshot: what buttons and pointers the guest sees during a
//! frame.
//!
//! Input is polled once per frame and cached, so that every query the
//! guest makes during the frame sees the same state.

use vstd::prelude::*;
use crate::abi::Button;
use crate::state::InputState;

verus! {

/// Bit of the left mouse button in a mask of mouse buttons.
pub const MOUSE_LEFT: u32 = 1;

/// Bit of the right mouse button in a mask of mouse buttons.
pub const MOUSE_RIGHT: u32 = 2;

/// Bit of the trigger in a mask of lightgun buttons.
pub const LIGHTGUN_TRIGGER: u32 = 1;

/// Bit of the offscreen flag in a mask of lightgun buttons.
pub const LIGHTGUN_OFFSCREEN: u32 = 2;

/// The joypad button with id `button`, if there is one.
pub open spec fn button_of(button: u32) -> Option<Button> {
    if button == 0 {
        Some(Button::B)
    } else if button == 1 {
        Some(Button::Y)
    } else if button == 2 {
        Some(Button::Select)
    } else if button == 3 {
        Some(Button::Start)
    } else if button == 4 {
        Some(Button::Up)
    } else if button == 5 {
        Some(Button::Down)
    } else if button == 6 {
        Some(Button::Left)
    } else if button == 7 {
        Some(Button::Right)
    } else if button == 8 {
        Some(Button::A)
    } else if button == 9 {
        Some(Button::X)
    } else if button == 10 {
        Some(Button::L1)
    } else if button == 11 {
        Some(Button::R1)
    } else if button == 12 {
        Some(Button::L2)
    } else if button == 13 {
        Some(Button::R2)
    } else if button == 14 {
        Some(Button::L3)
    } else if button == 15 {
        Some(Button::R3)
    } else {
        None
    }
}

/// Maps a button id of the guest to a joypad button.
pub fn map_joypad_button(button: u32) -> (r: Option<Button>)
    ensures
        r == button_of(button),
        r matches Some(b) ==> b.id() == button,
{
    match button {
        0 => Some(Button::B),
        1 => Some(Button::Y),
        2 => Some(Button::Select),
        3 => Some(Button::Start),
        4 => Some(Button::Up),
        5 => Some(Button::Down),
        6 => Some(Button::Left),
        7 => Some(Button::Right),
        8 => Some(Button::A),
        9 => Some(Button::X),
        10 => Some(Button::L1),
        11 => Some(Button::R1),
        12 => Some(Button::L2),
        13 => Some(Button::R2),
        14 => Some(Button::L3),
        15 => Some(Button::R3),
        _ => None,
    }
}

/// 1 where `mask` has a bit of `bits`, 0 otherwise.
pub open spec fn any_bit(mask: u32, bits: u32) -> u32 {
    if mask & bits != 0 {
        1
    } else {
        0
    }
}

/// The mask of held buttons on a port: the cached one, or none held for
/// a port without one.
pub open spec fn joypad_mask(input: InputState, port: u32) -> u32 {
    if (port as int) < input.joypad@.len() {
        input.joypad@[port as int]
    } else {
        0
    }
}

/// What a query for a joypad button answers: 1 where `button` is the id
/// of a button and its bit is set in the port's mask, 0 otherwise.
pub open spec fn joypad_answer(input: InputState, port: u32, button: u32) -> u32 {
    if button < 16 {
        any_bit(joypad_mask(input, port), 1u32 << button)
    } else {
        0
    }
}

/// Whether a joypad button is held on a port: 1 if it is, 0 if it is
/// not, if the port has no cached state or if there is no such button.
pub fn joypad_button_pressed(input: &InputState, port: u32, button: u32) -> (r: u32)
    ensures
        r == joypad_answer(*input, port, button),
{
    if map_joypad_button(button).is_none() {
        return 0;
    }
    let mask: u32 = if (port as usize) < input.joypad.len() {
        input.joypad[port as usize]
    } else {
        0
    };
    if mask & (1u32 << button) != 0 {
        1
    } else {
        0
    }
}

/// Whether a key is held. No keyboard is cached, so the answer is
/// always 0.
pub fn key_pressed(_key: u32) -> (r: u32)
    ensures
        r == 0,
{
    0
}

/// The mouse's column.
pub fn mouse_x(input: &InputState) -> (r: i32)
    ensures
        r == input.mouse_x,
{
    input.mouse_x
}

/// The mouse's row.
pub fn mouse_y(input: &InputState) -> (r: i32)
    ensures
        r == input.mouse_y,
{
    input.mouse_y
}

/// The mask of held mouse buttons.
pub fn mouse_buttons(input: &InputState) -> (r: u32)
    ensures
        r == input.mouse_buttons,
{
    input.mouse_buttons
}

/// Whether the left mouse button is held.
pub fn mouse_left_pressed(input: &InputState) -> (r: u32)
    ensures
        r == any_bit(input.mouse_buttons, MOUSE_LEFT),
{
    if mouse_buttons(input) & MOUSE_LEFT != 0 {
        1
    } else {
        0
    }
}

/// Whether the right mouse button is held.
pub fn mouse_right_pressed(input: &InputState) -> (r: u32)
    ensures
        r == any_bit(input.mouse_buttons, MOUSE_RIGHT),
{
    if mouse_buttons(input) & MOUSE_RIGHT != 0 {
        1
    } else {
        0
    }
}

/// What a query for mouse button `btn` answers: 1 where the button's bit
/// is set in the mask, 0 otherwise and for a button beyond the mask.
pub open spec fn mouse_answer(input: InputState, btn: u32) -> u32 {
    if btn < 32 {
        any_bit(input.mouse_buttons, 1u32 << btn)
    } else {
        0
    }
}

/// Whether mouse button `btn` is held.
pub fn mouse_button_down(input: &InputState, btn: u32) -> (r: u32)
    ensures
        r == mouse_answer(*input, btn),
{
    if btn >= 32 {
        return 0;
    }
    if mouse_buttons(input) & (1u32 << btn) != 0 {
        1
    } else {
        0
    }
}

/// The lightgun's column. One lightgun is cached for all ports.
pub fn lightgun_x(input: &InputState, _port: u32) -> (r: i32)
    ensures
        r == input.lightgun_x,
{
    input.lightgun_x
}

/// The lightgun's row.
pub fn lightgun_y(input: &InputState, _port: u32) -> (r: i32)
    ensures
        r == input.lightgun_y,
{
    input.lightgun_y
}

/// The mask of held lightgun buttons.
pub fn lightgun_buttons(input: &InputState, _port: u32) -> (r: u32)
    ensures
        r == input.lightgun_buttons,
{
    input.lightgun_buttons
}

/// Whether the lightgun's trigger is held.
pub fn lightgun_trigger_pressed(input: &InputState, port: u32) -> (r: u32)
    ensures
        r == any_bit(input.lightgun_buttons, LIGHTGUN_TRIGGER),
{
    if lightgun_buttons(input, port) & LIGHTGUN_TRIGGER != 0 {
        1
    } else {
        0
    }
}

/// Whether the lightgun points off the screen.
pub fn lightgun_offscreen(input: &InputState, port: u32) -> (r: u32)
    ensures
        r == any_bit(input.lightgun_buttons, LIGHTGUN_OFFSCREEN),
{
    if lightgun_buttons(input, port) & LIGHTGUN_OFFSCREEN != 0 {
        1
    } else {
        0
    }
}

/// Caches the joypad masks polled for this frame, one per port. The
/// pointers keep their state.
pub fn snapshot_per_frame(input: &mut InputState, joypad: Vec<u32>)
    ensures
        *final(input) == (InputState { joypad, ..*old(input) }),
{
    input.joypad = joypad;
}

} // verus!
