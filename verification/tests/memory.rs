use wasm96_core::error::AvError;
use wasm96_core::memory::{read_guest_bytes, write_guest_bytes};
use wasm96_core::storage::{
    pack_place, storage_deliver, storage_load, storage_save, Storage,
};
use wasm96_core::text::read_guest_text;

#[test]
fn reads_copy_exactly_the_range() {
    let memory = vec![10, 11, 12, 13, 14];
    assert_eq!(read_guest_bytes(Some(&memory), 1, 3), Ok(vec![11, 12, 13]));
    assert_eq!(read_guest_bytes(Some(&memory), 0, 5), Ok(vec![10, 11, 12, 13, 14]));
    assert_eq!(read_guest_bytes(Some(&memory), 5, 0), Ok(vec![]));
    assert_eq!(read_guest_bytes(Some(&memory), 0, 0), Ok(vec![]));
}

#[test]
fn reads_past_the_end_fail() {
    let memory = vec![10, 11, 12, 13, 14];
    assert_eq!(read_guest_bytes(Some(&memory), 0, 6), Err(AvError::MemoryReadFailed));
    assert_eq!(read_guest_bytes(Some(&memory), 5, 1), Err(AvError::MemoryReadFailed));
    assert_eq!(read_guest_bytes(Some(&memory), 6, 0), Err(AvError::MemoryReadFailed));
    assert_eq!(
        read_guest_bytes(Some(&memory), u32::MAX, u32::MAX),
        Err(AvError::MemoryReadFailed)
    );
    assert_eq!(read_guest_bytes(Some(&memory), u32::MAX, 1), Err(AvError::MemoryReadFailed));
    assert_eq!(read_guest_bytes(Some(&[]), 0, 1), Err(AvError::MemoryReadFailed));
}

#[test]
fn reads_without_memory_fail() {
    assert_eq!(read_guest_bytes(None, 0, 0), Err(AvError::MissingMemory));
    assert_eq!(read_guest_bytes(None, 9, 9), Err(AvError::MissingMemory));
}

#[test]
fn writes_replace_exactly_the_range() {
    let mut memory = vec![1, 2, 3, 4, 5];
    assert_eq!(write_guest_bytes(&mut memory, 1, &[8, 9]), Ok(()));
    assert_eq!(memory, vec![1, 8, 9, 4, 5]);
    assert_eq!(write_guest_bytes(&mut memory, 5, &[]), Ok(()));
    assert_eq!(write_guest_bytes(&mut memory, 3, &[6, 7]), Ok(()));
    assert_eq!(memory, vec![1, 8, 9, 6, 7]);
    assert_eq!(
        write_guest_bytes(&mut memory, 4, &[0, 0]),
        Err(AvError::MemoryReadFailed)
    );
    assert_eq!(write_guest_bytes(&mut memory, 6, &[]), Err(AvError::MemoryReadFailed));
    assert_eq!(
        write_guest_bytes(&mut memory, u32::MAX, &[0]),
        Err(AvError::MemoryReadFailed)
    );
    assert_eq!(
        write_guest_bytes(&mut memory, 0, &[0, 0, 0, 0, 0, 0]),
        Err(AvError::MemoryReadFailed)
    );
    assert_eq!(memory, vec![1, 8, 9, 6, 7]);
}

#[test]
fn text_must_be_valid_utf8() {
    let text = |bytes: &[u8]| read_guest_text(Some(bytes), 0, bytes.len() as u32);
    assert_eq!(text(b"abc"), Some(String::from("abc")));
    assert_eq!(
        text("h\u{e9}llo \u{1F600}".as_bytes()),
        Some(String::from("h\u{e9}llo \u{1F600}"))
    );
    assert_eq!(text(b""), Some(String::new()));
    assert_eq!(text(b"ab\xFFc"), None);
    assert_eq!(text(b"\xC3"), None);
    assert_eq!(text(b"\xED\xA0\x80"), None);
    let memory = b"xxhi\xC3\xA9yy".to_vec();
    assert_eq!(read_guest_text(Some(&memory), 2, 4), Some(String::from("hi\u{e9}")));
    assert_eq!(read_guest_text(Some(&memory), 2, 3), None);
    assert_eq!(read_guest_text(Some(&memory), 2, 40), None);
    assert_eq!(read_guest_text(None, 2, 4), None);
}

#[test]
fn saved_blobs_are_loaded_by_key() {
    let memory = b"slot\x01\x02\x03key2\xFF".to_vec();
    let mut storage = Storage::default();
    assert_eq!(storage_load(&storage, Some(&memory), 0, 4), None);
    storage_save(&mut storage, Some(&memory), 0, 4, 4, 3);
    assert_eq!(storage_load(&storage, Some(&memory), 0, 4), Some(vec![1, 2, 3]));
    storage_save(&mut storage, Some(&memory), 7, 4, 0, 0);
    assert_eq!(storage_load(&storage, Some(&memory), 7, 4), Some(vec![]));
    assert_eq!(storage_load(&storage, Some(&memory), 0, 4), Some(vec![1, 2, 3]));
    assert_eq!(storage.entries.len(), 2);
    storage_save(&mut storage, Some(&memory), 0, 4, 5, 2);
    assert_eq!(storage_load(&storage, Some(&memory), 0, 4), Some(vec![2, 3]));
    assert_eq!(storage.entries.len(), 2);
    assert_eq!(storage_load(&storage, Some(&memory), 0, 3), None);
    assert_eq!(storage_load(&storage, None, 0, 4), None);
    assert_eq!(storage_load(&storage, Some(&memory), 0, 400), None);
}

#[test]
fn a_save_that_cannot_be_read_saves_nothing() {
    let memory = b"slot\x01\x02\x03key2\xFF".to_vec();
    let mut storage = Storage::default();
    storage_save(&mut storage, None, 0, 4, 4, 3);
    storage_save(&mut storage, Some(&memory), 0, 40, 4, 3);
    storage_save(&mut storage, Some(&memory), 0, 4, 4, 30);
    storage_save(&mut storage, Some(&memory), 8, 4, 4, 3);
    assert!(storage.entries.is_empty());
    storage_save(&mut storage, Some(&memory), 11, 0, 4, 1);
    assert_eq!(storage.get(&String::new()), Some(vec![1]));
}

#[test]
fn loaded_blobs_are_delivered_to_the_guest() {
    assert_eq!(pack_place(0, 0), 0);
    assert_eq!(pack_place(1, 2), 0x0000_0001_0000_0002);
    assert_eq!(pack_place(u32::MAX, u32::MAX), u64::MAX);
    let mut memory = vec![0u8; 8];
    assert_eq!(storage_deliver(&mut memory, Some(3), &[7, 8, 9]), 0x0000_0003_0000_0003);
    assert_eq!(memory, vec![0, 0, 0, 7, 8, 9, 0, 0]);
    assert_eq!(storage_deliver(&mut memory, None, &[1]), 0);
    assert_eq!(storage_deliver(&mut memory, Some(7), &[1, 2]), 0);
    assert_eq!(storage_deliver(&mut memory, Some(9), &[]), 0);
    assert_eq!(storage_deliver(&mut memory, Some(8), &[]), 0x0000_0008_0000_0000);
    assert_eq!(memory, vec![0, 0, 0, 7, 8, 9, 0, 0]);
}
