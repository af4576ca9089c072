use glicol_wasm::text::{decode_text, sample_names};

#[test]
fn ascii_code_decodes() {
    let code = decode_text(b"~a: sin 440").unwrap();
    assert_eq!(code, "~a: sin 440");
}

#[test]
fn multibyte_text_decodes() {
    let bytes = "caf\u{e9} \u{266b}".as_bytes();
    assert_eq!(bytes.len(), 9);
    assert_eq!(decode_text(bytes).unwrap(), "caf\u{e9} \u{266b}");
}

#[test]
fn invalid_utf8_is_rejected() {
    assert_eq!(decode_text(&[0x66, 0xFF, 0x6F]), None);
    assert_eq!(decode_text(&[0xE2, 0x99]), None);
}

#[test]
fn empty_text_decodes() {
    assert_eq!(decode_text(&[]).unwrap(), "");
}

#[test]
fn sample_names_decode_in_order() {
    let names: [&[u8]; 3] = [b"\\kick", b"\\snare", "\\h\u{f6}rn".as_bytes()];
    let decoded = sample_names(&names).unwrap();
    assert_eq!(decoded, vec!["\\kick".to_string(), "\\snare".to_string(), "\\h\u{f6}rn".to_string()]);
}

#[test]
fn first_bad_sample_name_is_reported() {
    let names: [&[u8]; 4] = [b"ok", &[0xC0], b"fine", &[0xFF]];
    assert_eq!(sample_names(&names), Err(1));
}

#[test]
fn no_sample_names() {
    let names: [&[u8]; 0] = [];
    assert_eq!(sample_names(&names), Ok(vec![]));
}
