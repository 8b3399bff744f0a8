use radio::text::clip_to_buf;

#[test]
fn passthrough_when_short() {
    let out = clip_to_buf("BBC", 8);
    assert_eq!(out, b"BBC");
}

#[test]
fn truncates_at_char_boundary() {
    // 'é' is two bytes in UTF-8, so cap=3 should keep "aé" (3 bytes)
    // but not the trailing 'b' (which would push past 3).
    let out = clip_to_buf("aéb", 3);
    assert_eq!(out, "aé".as_bytes());
}

#[test]
fn drops_partial_multibyte() {
    // cap=2 is in the middle of 'é'; we must back off to keep
    // valid UTF-8.
    let out = clip_to_buf("aéb", 2);
    assert_eq!(out, b"a");
}

#[test]
fn empty_input() {
    assert_eq!(clip_to_buf("", 4), b"");
}

#[test]
fn cap_zero() {
    assert_eq!(clip_to_buf("abc", 0), b"");
}

#[test]
fn ascii_exact_fit() {
    assert_eq!(clip_to_buf("HELLO", 5), b"HELLO");
}

#[test]
fn output_is_always_valid_utf8() {
    // Property: regardless of cap, the returned bytes must round-trip
    // through `core::str::from_utf8` cleanly.
    for cap in 0..10 {
        let bytes = clip_to_buf("aéb日c", cap);
        core::str::from_utf8(bytes).expect("clip_to_buf must produce valid UTF-8");
    }
}
