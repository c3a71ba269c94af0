use the_light_core::clipboard::base64_encode;

#[test]
fn base64_matches_known_vectors() {
    assert_eq!(base64_encode(b""), "");
    assert_eq!(base64_encode(b"f"), "Zg==");
    assert_eq!(base64_encode(b"fo"), "Zm8=");
    assert_eq!(base64_encode(b"foo"), "Zm9v");
    assert_eq!(base64_encode(b"foob"), "Zm9vYg==");
    assert_eq!(base64_encode(b"fooba"), "Zm9vYmE=");
    assert_eq!(base64_encode(b"foobar"), "Zm9vYmFy");
}

#[test]
fn base64_handles_utf8_payload() {
    assert_eq!(base64_encode("graça".as_bytes()), "Z3Jhw6dh");
}

#[test]
fn base64_uses_the_whole_alphabet() {
    assert_eq!(base64_encode(&[0xFB, 0xFF, 0xBF]), "+/+/");
    assert_eq!(base64_encode(&[0, 16, 131]), "ABCD");
}
