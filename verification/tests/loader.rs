use wasm96_core::loader::{
    detect_format, is_wasm_magic, normalize_to_wasm, skip_bom_and_leading_ws, DetectedFormat,
    LoadError,
};

#[test]
fn detects_wasm_magic() {
    assert_eq!(
        detect_format(b"\0asm\x01\x00\x00\x00"),
        Some(DetectedFormat::Wasm)
    );
}

#[test]
fn detects_wat_with_whitespace() {
    assert_eq!(detect_format(b"   \n\t(module)"), Some(DetectedFormat::Wat));
}

#[test]
fn detects_wat_with_bom() {
    assert_eq!(
        detect_format(b"\xEF\xBB\xBF(module)"),
        Some(DetectedFormat::Wat)
    );
}

#[test]
fn unrecognized_returns_none() {
    assert_eq!(detect_format(b"not wasm"), None);
}

#[test]
fn empty_input_is_unrecognized() {
    assert_eq!(detect_format(b""), None);
    assert_eq!(detect_format(b"   \r\n"), None);
    assert_eq!(detect_format(b"\xEF\xBB\xBF"), None);
}

#[test]
fn magic_needs_four_bytes() {
    assert!(is_wasm_magic(b"\0asm"));
    assert!(!is_wasm_magic(b"\0as"));
    assert!(!is_wasm_magic(b"\0asn"));
}

#[test]
fn skip_stops_at_first_mark() {
    assert_eq!(skip_bom_and_leading_ws(b""), 0);
    assert_eq!(skip_bom_and_leading_ws(b"abc"), 0);
    assert_eq!(skip_bom_and_leading_ws(b" \t\r\nx "), 4);
    assert_eq!(skip_bom_and_leading_ws(b"\xEF\xBB\xBF  ("), 5);
    assert_eq!(skip_bom_and_leading_ws(b"\xEF\xBB"), 0);
    assert_eq!(skip_bom_and_leading_ws(b"   "), 3);
}

#[test]
fn a_mark_in_the_middle_is_no_mark() {
    assert_eq!(skip_bom_and_leading_ws(b" \xEF\xBB\xBF("), 1);
    assert_eq!(detect_format(b" \xEF\xBB\xBF("), None);
}

#[test]
fn normalize_passes_a_binary_through() {
    let bytes = b"\0asm\x01\x00\x00\x00";
    let d = normalize_to_wasm(bytes).unwrap();
    assert_eq!(d.format, DetectedFormat::Wasm);
    assert_eq!(d.wasm_bytes, bytes.to_vec());
}

#[test]
fn normalize_parses_text() {
    let d = normalize_to_wasm(b"  (module)").unwrap();
    assert_eq!(d.format, DetectedFormat::Wat);
    assert_eq!(d.wasm_bytes, b"\0asm\x01\x00\x00\x00".to_vec());
}

#[test]
fn normalize_reports_each_failure() {
    let e = normalize_to_wasm(b"not wasm").unwrap_err();
    assert!(matches!(e, LoadError::UnrecognizedFormat));
    assert_eq!(e.message(), "unrecognized ROM format (expected wasm or wat)");

    let e = normalize_to_wasm(b"(modul").unwrap_err();
    assert!(matches!(e, LoadError::WatParseFailed(_)));
    assert!(e.message().starts_with("failed to parse WAT: "));
    assert!(e.message().len() > "failed to parse WAT: ".len());

    let e = LoadError::CompileFailed(String::from("bad section"));
    assert_eq!(e.message(), "failed to compile WASM module: bad section");
}
