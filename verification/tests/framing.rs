use glicol_wasm::frame::{output_or_silence, write_le_words, CONSOLE_BYTES, OUTPUT_SAMPLES};

#[test]
fn words_are_written_little_endian() {
    let mut out = [0xAAu8; 10];
    write_le_words(&[0x0403_0201, 0xDEAD_BEEF], &mut out);
    assert_eq!(out, [1, 2, 3, 4, 0xEF, 0xBE, 0xAD, 0xDE, 0xAA, 0xAA]);
}

#[test]
fn float_samples_match_their_le_bytes() {
    let samples = [1.0f32, -0.5, 0.0, 0.25];
    let words: Vec<u32> = samples.iter().map(|x| x.to_bits()).collect();
    let mut out = vec![0u8; 16];
    write_le_words(&words, &mut out);
    for (i, x) in samples.iter().enumerate() {
        assert_eq!(&out[4 * i..4 * i + 4], &x.to_le_bytes());
    }
    assert_eq!(&out[0..4], &[0x00, 0x00, 0x80, 0x3f]);
}

#[test]
fn framed_words_read_back() {
    let words = [0u32, 1, 0xFFFF_FFFF, 0x8000_0000, 12345678];
    let mut out = vec![0u8; 20];
    write_le_words(&words, &mut out);
    let back: Vec<u32> = out.chunks(4).map(|c| u32::from_le_bytes([c[0], c[1], c[2], c[3]])).collect();
    assert_eq!(back, words);
}

#[test]
fn no_words_leave_bytes_alone() {
    let mut out = [3u8, 1, 4];
    write_le_words(&[], &mut out);
    assert_eq!(out, [3, 1, 4]);
}

#[test]
fn failed_render_is_silence() {
    let (samples, console) = output_or_silence(None);
    assert_eq!(samples.len(), OUTPUT_SAMPLES);
    assert_eq!(console.len(), CONSOLE_BYTES);
    assert!(samples.iter().all(|&s| s == 0 && f32::from_bits(s) == 0.0));
    assert!(console.iter().all(|&b| b == 0));
}

#[test]
fn successful_render_passes_through() {
    let (samples, console) = output_or_silence(Some((vec![1.5f32.to_bits(), 7], vec![b'o', b'k'])));
    assert_eq!(samples, vec![1.5f32.to_bits(), 7]);
    assert_eq!(console, b"ok".to_vec());
}
