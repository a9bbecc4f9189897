//! The names of the host functions that the guest imports.

use vstd::prelude::*;

verus! {

// Graphics.
pub const GRAPHICS_SET_SIZE: &'static str = "wasm96_graphics_set_size";

pub const GRAPHICS_SET_COLOR: &'static str = "wasm96_graphics_set_color";

pub const GRAPHICS_BACKGROUND: &'static str = "wasm96_graphics_background";

pub const GRAPHICS_POINT: &'static str = "wasm96_graphics_point";

pub const GRAPHICS_LINE: &'static str = "wasm96_graphics_line";

pub const GRAPHICS_RECT: &'static str = "wasm96_graphics_rect";

pub const GRAPHICS_RECT_OUTLINE: &'static str = "wasm96_graphics_rect_outline";

pub const GRAPHICS_CIRCLE: &'static str = "wasm96_graphics_circle";

pub const GRAPHICS_CIRCLE_OUTLINE: &'static str = "wasm96_graphics_circle_outline";

// Raw and encoded pictures.
pub const GRAPHICS_IMAGE: &'static str = "wasm96_graphics_image";

pub const GRAPHICS_IMAGE_PNG: &'static str = "wasm96_graphics_image_png";

// Vector images under keys.
pub const GRAPHICS_SVG_REGISTER: &'static str = "wasm96_graphics_svg_register";

pub const GRAPHICS_SVG_DRAW_KEY: &'static str = "wasm96_graphics_svg_draw_key";

pub const GRAPHICS_SVG_UNREGISTER: &'static str = "wasm96_graphics_svg_unregister";

// Animations under keys.
pub const GRAPHICS_GIF_REGISTER: &'static str = "wasm96_graphics_gif_register";

pub const GRAPHICS_GIF_DRAW_KEY: &'static str = "wasm96_graphics_gif_draw_key";

pub const GRAPHICS_GIF_DRAW_KEY_SCALED: &'static str = "wasm96_graphics_gif_draw_key_scaled";

pub const GRAPHICS_GIF_UNREGISTER: &'static str = "wasm96_graphics_gif_unregister";

// Still images under keys.
pub const GRAPHICS_PNG_REGISTER: &'static str = "wasm96_graphics_png_register";

pub const GRAPHICS_PNG_DRAW_KEY: &'static str = "wasm96_graphics_png_draw_key";

pub const GRAPHICS_PNG_DRAW_KEY_SCALED: &'static str = "wasm96_graphics_png_draw_key_scaled";

pub const GRAPHICS_PNG_UNREGISTER: &'static str = "wasm96_graphics_png_unregister";

// Shapes.
pub const GRAPHICS_TRIANGLE: &'static str = "wasm96_graphics_triangle";

pub const GRAPHICS_TRIANGLE_OUTLINE: &'static str = "wasm96_graphics_triangle_outline";

pub const GRAPHICS_BEZIER_QUADRATIC: &'static str = "wasm96_graphics_bezier_quadratic";

pub const GRAPHICS_BEZIER_CUBIC: &'static str = "wasm96_graphics_bezier_cubic";

pub const GRAPHICS_PILL: &'static str = "wasm96_graphics_pill";

pub const GRAPHICS_PILL_OUTLINE: &'static str = "wasm96_graphics_pill_outline";

// Fonts under keys.
pub const GRAPHICS_FONT_REGISTER_TTF: &'static str = "wasm96_graphics_font_register_ttf";

pub const GRAPHICS_FONT_REGISTER_SPLEEN: &'static str = "wasm96_graphics_font_register_spleen";

pub const GRAPHICS_FONT_UNREGISTER: &'static str = "wasm96_graphics_font_unregister";

pub const GRAPHICS_TEXT_KEY: &'static str = "wasm96_graphics_text_key";

pub const GRAPHICS_TEXT_MEASURE_KEY: &'static str = "wasm96_graphics_text_measure_key";

// Input.
pub const INPUT_IS_BUTTON_DOWN: &'static str = "wasm96_input_is_button_down";

pub const INPUT_IS_KEY_DOWN: &'static str = "wasm96_input_is_key_down";

pub const INPUT_GET_MOUSE_X: &'static str = "wasm96_input_get_mouse_x";

pub const INPUT_GET_MOUSE_Y: &'static str = "wasm96_input_get_mouse_y";

pub const INPUT_IS_MOUSE_DOWN: &'static str = "wasm96_input_is_mouse_down";

// Audio.
pub const AUDIO_INIT: &'static str = "wasm96_audio_init";

pub const AUDIO_PUSH_SAMPLES: &'static str = "wasm96_audio_push_samples";

// Audio assets that the host decodes and mixes.
pub const AUDIO_PLAY_WAV: &'static str = "wasm96_audio_play_wav";

pub const AUDIO_PLAY_QOA: &'static str = "wasm96_audio_play_qoa";

pub const AUDIO_PLAY_XM: &'static str = "wasm96_audio_play_xm";

// Storage.
pub const STORAGE_SAVE: &'static str = "wasm96_storage_save";

pub const STORAGE_LOAD: &'static str = "wasm96_storage_load";

pub const STORAGE_FREE: &'static str = "wasm96_storage_free";

// System.
pub const SYSTEM_LOG: &'static str = "wasm96_system_log";

pub const SYSTEM_MILLIS: &'static str = "wasm96_system_millis";

} // verus!
