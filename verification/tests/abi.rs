use wasm96_core::abi::guest_exports;
use wasm96_core::abi::host_imports;
use wasm96_core::abi::{
    required_exports_present_wasmtime, Button, DrawExport, GuestEntrypoints, GuestExports,
    MissingExport, IMPORT_MODULE,
};
use wasm96_core::input::{
    joypad_button_pressed, key_pressed, lightgun_buttons, lightgun_offscreen,
    lightgun_trigger_pressed, lightgun_x, lightgun_y, map_joypad_button, mouse_button_down,
    mouse_buttons, mouse_left_pressed, mouse_right_pressed, mouse_x, mouse_y, snapshot_per_frame,
};
use wasm96_core::lifecycle::{Lifecycle, LoadReport, LoadStage, Phase, TickStep};
use wasm96_core::state::InputState;

fn exports(names: &[&str]) -> GuestExports {
    GuestExports {
        setup: names.contains(&"setup"),
        update: names.contains(&"update"),
        draw: names.contains(&"draw"),
        wasi_start: names.contains(&"_start"),
        main: names.contains(&"main"),
    }
}

#[test]
fn requires_setup_export() {
    let e = exports(&["draw"]);
    assert!(required_exports_present_wasmtime(&e).is_err());
    assert_eq!(required_exports_present_wasmtime(&e), Err(MissingExport::Setup));
    assert_eq!(GuestEntrypoints::resolve_wasmtime(&e), Err(MissingExport::Setup));
    assert_eq!(required_exports_present_wasmtime(&exports(&["setup"])), Ok(()));
}

#[test]
fn prefers_draw_over_wasi_start_and_main() {
    let e = exports(&["setup", "draw", "_start", "main"]);
    let ep = GuestEntrypoints::resolve_wasmtime(&e).unwrap();
    assert!(ep.draw.is_some());
    assert_eq!(ep.draw, Some(DrawExport::Draw));
}

#[test]
fn falls_back_to_wasi_start_when_draw_missing() {
    let e = exports(&["setup", "_start", "main"]);
    let ep = GuestEntrypoints::resolve_wasmtime(&e).unwrap();
    assert!(ep.draw.is_some());
    assert_eq!(ep.draw, Some(DrawExport::WasiStart));
}

#[test]
fn falls_back_to_main_when_draw_and_wasi_start_missing() {
    let e = exports(&["setup", "main"]);
    let ep = GuestEntrypoints::resolve_wasmtime(&e).unwrap();
    assert!(ep.draw.is_some());
    assert_eq!(ep.draw, Some(DrawExport::Main));
}

#[test]
fn update_is_none_when_missing() {
    let e = exports(&["setup", "draw"]);
    let ep = GuestEntrypoints::resolve_wasmtime(&e).unwrap();
    assert!(!ep.update);
}

#[test]
fn update_prefers_export_when_present() {
    let e = exports(&["setup", "draw", "update"]);
    let ep = GuestEntrypoints::resolve_wasmtime(&e).unwrap();
    assert!(ep.update);
}

#[test]
fn a_guest_with_setup_alone_has_no_per_frame_entrypoints() {
    let ep = GuestEntrypoints::resolve_wasmtime(&exports(&["setup"])).unwrap();
    assert_eq!(ep, GuestEntrypoints { update: false, draw: None });
}

#[test]
fn names_of_the_contract() {
    assert_eq!(IMPORT_MODULE, "env");
    assert_eq!(guest_exports::SETUP, "setup");
    assert_eq!(guest_exports::UPDATE, "update");
    assert_eq!(guest_exports::DRAW, "draw");
    assert_eq!(guest_exports::WASI_START, "_start");
    assert_eq!(guest_exports::MAIN, "main");
    assert_eq!(DrawExport::Draw.name(), "draw");
    assert_eq!(DrawExport::WasiStart.name(), "_start");
    assert_eq!(DrawExport::Main.name(), "main");
    assert_eq!(host_imports::GRAPHICS_SET_SIZE, "wasm96_graphics_set_size");
    assert_eq!(host_imports::AUDIO_PUSH_SAMPLES, "wasm96_audio_push_samples");
    assert_eq!(host_imports::STORAGE_LOAD, "wasm96_storage_load");
    assert_eq!(host_imports::SYSTEM_MILLIS, "wasm96_system_millis");
    assert_eq!(host_imports::GRAPHICS_TEXT_MEASURE_KEY, "wasm96_graphics_text_measure_key");
}

#[test]
fn button_ids() {
    let all = [
        Button::B, Button::Y, Button::Select, Button::Start, Button::Up, Button::Down,
        Button::Left, Button::Right, Button::A, Button::X, Button::L1, Button::R1, Button::L2,
        Button::R2, Button::L3, Button::R3,
    ];
    for (id, b) in all.iter().enumerate() {
        assert_eq!(b.code(), id as u32);
        assert_eq!(map_joypad_button(id as u32), Some(*b));
    }
    assert_eq!(map_joypad_button(16), None);
    assert_eq!(map_joypad_button(u32::MAX), None);
}

#[test]
fn joypad_queries_read_the_snapshot() {
    let mut input = InputState::default();
    assert_eq!(joypad_button_pressed(&input, 0, 0), 0);
    snapshot_per_frame(&mut input, vec![0b1000_0001, 1 << 15]);
    assert_eq!(joypad_button_pressed(&input, 0, 0), 1);
    assert_eq!(joypad_button_pressed(&input, 0, 7), 1);
    assert_eq!(joypad_button_pressed(&input, 0, 1), 0);
    assert_eq!(joypad_button_pressed(&input, 1, 15), 1);
    assert_eq!(joypad_button_pressed(&input, 1, 0), 0);
    assert_eq!(joypad_button_pressed(&input, 2, 0), 0);
    assert_eq!(joypad_button_pressed(&input, u32::MAX, 0), 0);
    assert_eq!(joypad_button_pressed(&input, 0, 16), 0);
    assert_eq!(joypad_button_pressed(&input, 0, 32), 0);
    snapshot_per_frame(&mut input, vec![u32::MAX]);
    assert_eq!(joypad_button_pressed(&input, 0, 16), 0);
    assert_eq!(joypad_button_pressed(&input, 0, 15), 1);
    assert_eq!(key_pressed(0), 0);
    assert_eq!(key_pressed(65), 0);
}

#[test]
fn pointer_queries_read_the_snapshot() {
    let mut input = InputState::default();
    assert_eq!(mouse_x(&input), 0);
    assert_eq!(mouse_left_pressed(&input), 0);
    input.mouse_x = -4;
    input.mouse_y = 9;
    input.mouse_buttons = 0b101;
    input.lightgun_x = 7;
    input.lightgun_y = -8;
    input.lightgun_buttons = 0b10;
    assert_eq!(mouse_x(&input), -4);
    assert_eq!(mouse_y(&input), 9);
    assert_eq!(mouse_buttons(&input), 5);
    assert_eq!(mouse_left_pressed(&input), 1);
    assert_eq!(mouse_right_pressed(&input), 0);
    assert_eq!(mouse_button_down(&input, 0), 1);
    assert_eq!(mouse_button_down(&input, 1), 0);
    assert_eq!(mouse_button_down(&input, 2), 1);
    assert_eq!(mouse_button_down(&input, 31), 0);
    assert_eq!(mouse_button_down(&input, 32), 0);
    assert_eq!(mouse_button_down(&input, u32::MAX), 0);
    assert_eq!(lightgun_x(&input, 0), 7);
    assert_eq!(lightgun_y(&input, 3), -8);
    assert_eq!(lightgun_buttons(&input, 0), 2);
    assert_eq!(lightgun_trigger_pressed(&input, 0), 0);
    assert_eq!(lightgun_offscreen(&input, 0), 1);
    input.mouse_buttons = 2;
    input.lightgun_buttons = 1;
    assert_eq!(mouse_right_pressed(&input), 1);
    assert_eq!(lightgun_trigger_pressed(&input, 1), 1);
    assert_eq!(lightgun_offscreen(&input, 1), 0);
    snapshot_per_frame(&mut input, vec![3]);
    assert_eq!(mouse_x(&input), -4);
    assert_eq!(lightgun_buttons(&input, 0), 1);
}

fn report(recognized: bool, compiled: bool, instantiated: bool, names: &[&str]) -> LoadReport {
    LoadReport { recognized, compiled, instantiated, exports: exports(names) }
}

#[test]
fn a_load_fails_at_its_first_failed_stage() {
    let mut l = Lifecycle::new();
    assert_eq!(l.phase, Phase::Unloaded);
    assert_eq!(l.load(&report(false, false, false, &[])), Err(LoadStage::Recognize));
    assert_eq!(l.load(&report(false, true, true, &["setup"])), Err(LoadStage::Recognize));
    assert_eq!(l.load(&report(true, false, true, &["setup"])), Err(LoadStage::Compile));
    assert_eq!(l.load(&report(true, true, false, &["setup"])), Err(LoadStage::Instantiate));
    assert_eq!(l.load(&report(true, true, true, &["draw", "main"])), Err(LoadStage::Resolve));
    assert_eq!(l, Lifecycle { phase: Phase::Unloaded, entrypoints: None });
    assert!(!l.start());
    assert!(!l.reset());
    assert!(l.tick().is_empty());
}

#[test]
fn a_failed_load_keeps_nothing_of_the_guest_before() {
    let mut l = Lifecycle::new();
    assert!(l.load(&report(true, true, true, &["setup", "draw"])).is_ok());
    assert!(l.start());
    assert_eq!(l.load(&report(true, false, false, &[])), Err(LoadStage::Compile));
    assert_eq!(l, Lifecycle::new());
}

#[test]
fn a_guest_runs_tick_by_tick_until_unloaded() {
    let mut l = Lifecycle::new();
    let ep = l.load(&report(true, true, true, &["setup", "update", "_start"])).unwrap();
    assert_eq!(ep, GuestEntrypoints { update: true, draw: Some(DrawExport::WasiStart) });
    assert_eq!(l.phase, Phase::Loaded);
    assert_eq!(l.entrypoints, Some(ep));
    assert!(l.tick().is_empty());
    assert!(l.reset());
    assert!(l.start());
    assert!(!l.start());
    assert_eq!(l.phase, Phase::Running);
    assert_eq!(
        l.tick(),
        vec![
            TickStep::SnapshotInput,
            TickStep::CallUpdate,
            TickStep::CallDraw(DrawExport::WasiStart),
            TickStep::PresentVideo,
            TickStep::DrainAudio
        ]
    );
    assert!(l.reset());
    l.unload();
    assert_eq!(l, Lifecycle::new());
    assert!(l.tick().is_empty());
}

#[test]
fn a_tick_presents_and_drains_whatever_the_guest_exports() {
    let mut l = Lifecycle::new();
    l.load(&report(true, true, true, &["setup"])).unwrap();
    l.start();
    assert_eq!(
        l.tick(),
        vec![TickStep::SnapshotInput, TickStep::PresentVideo, TickStep::DrainAudio]
    );
    l.load(&report(true, true, true, &["setup", "draw"])).unwrap();
    l.start();
    assert_eq!(
        l.tick(),
        vec![
            TickStep::SnapshotInput,
            TickStep::CallDraw(DrawExport::Draw),
            TickStep::PresentVideo,
            TickStep::DrainAudio
        ]
    );
}

#[test]
fn a_lifecycle_knows_whether_it_is_sound() {
    let mut l = Lifecycle::new();
    assert!(l.is_wf());
    l.phase = Phase::Running;
    assert!(!l.is_wf());
    l.entrypoints = Some(GuestEntrypoints { update: false, draw: None });
    assert!(l.is_wf());
    l.phase = Phase::Unloaded;
    assert!(!l.is_wf());
    assert_eq!(GuestExports::default(), exports(&[]));
}
