use wasm96_core::error::AvError;
use wasm96_core::input::snapshot_per_frame;
use wasm96_core::state::InputState;
use wasm96_core::upload::{audio_sample_batch, get_input_state, video_refresh, DEVICE_JOYPAD};

#[test]
fn a_frame_is_taken_row_by_row() {
    let memory: Vec<u8> = (0u8..32).collect();
    assert_eq!(video_refresh(Some(&memory), 4, 2, 3), Ok(vec![4, 5, 6, 7, 8, 9]));
    assert_eq!(video_refresh(Some(&memory), 0, 4, 8), Ok(memory.clone()));
    assert_eq!(video_refresh(Some(&memory), 32, 0, 8), Ok(vec![]));
    assert_eq!(video_refresh(Some(&memory), 0, 8, 0), Ok(vec![]));
}

#[test]
fn a_frame_that_is_not_in_memory_is_refused() {
    let memory = vec![0u8; 32];
    assert_eq!(video_refresh(Some(&memory), 1, 4, 8), Err(AvError::MemoryReadFailed));
    assert_eq!(video_refresh(Some(&memory), -1, 1, 1), Err(AvError::MemoryReadFailed));
    assert_eq!(video_refresh(Some(&memory), 0, -1, 1), Err(AvError::MemoryReadFailed));
    assert_eq!(video_refresh(Some(&memory), 0, 1, -1), Err(AvError::MemoryReadFailed));
    assert_eq!(video_refresh(Some(&memory), 0, -1, -1), Err(AvError::MemoryReadFailed));
    assert_eq!(
        video_refresh(Some(&memory), 0, i32::MAX, i32::MAX),
        Err(AvError::MemoryReadFailed)
    );
    assert_eq!(video_refresh(None, 0, 1, 1), Err(AvError::MissingMemory));
    assert_eq!(video_refresh(None, 0, -1, 1), Err(AvError::MissingMemory));
}

#[test]
fn a_batch_of_samples_is_taken() {
    let memory = vec![0x01, 0x00, 0xFF, 0xFF, 0x00, 0x80, 0xFF, 0x7F, 0x09, 0x09];
    assert_eq!(audio_sample_batch(Some(&memory), 0, 1), Ok(vec![1, -1]));
    assert_eq!(
        audio_sample_batch(Some(&memory), 0, 2),
        Ok(vec![1, -1, i16::MIN, i16::MAX])
    );
    assert_eq!(audio_sample_batch(Some(&memory), 10, 0), Ok(vec![]));
    assert_eq!(audio_sample_batch(Some(&memory), 0, 3), Err(AvError::MemoryReadFailed));
    assert_eq!(audio_sample_batch(Some(&memory), -4, 1), Err(AvError::MemoryReadFailed));
    assert_eq!(audio_sample_batch(Some(&memory), 0, -1), Err(AvError::MemoryReadFailed));
    assert_eq!(
        audio_sample_batch(Some(&memory), 0, i32::MAX),
        Err(AvError::MemoryReadFailed)
    );
    assert_eq!(audio_sample_batch(None, 0, 1), Err(AvError::MissingMemory));
}

#[test]
fn input_queries_answer_for_the_joypad_only() {
    let mut input = InputState::default();
    snapshot_per_frame(&mut input, vec![0b101, 1 << 15]);
    assert_eq!(DEVICE_JOYPAD, 1);
    assert_eq!(get_input_state(&input, 0, 1, 0, 0), 1);
    assert_eq!(get_input_state(&input, 0, 1, 0, 1), 0);
    assert_eq!(get_input_state(&input, 0, 1, 9, 2), 1);
    assert_eq!(get_input_state(&input, 1, 1, 0, 15), 1);
    assert_eq!(get_input_state(&input, 1, 1, 0, 16), 0);
    assert_eq!(get_input_state(&input, 2, 1, 0, 0), 0);
    assert_eq!(get_input_state(&input, -1, 1, 0, 0), 0);
    assert_eq!(get_input_state(&input, 0, 1, 0, -1), 0);
    assert_eq!(get_input_state(&input, 0, 0, 0, 0), 0);
    assert_eq!(get_input_state(&input, 0, 2, 0, 0), 0);
    assert_eq!(get_input_state(&input, 0, -1, 0, 0), 0);
}
