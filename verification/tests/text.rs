use almetica::text::{bytes_are_utf8, ucs2_to_utf8};

#[test]
fn test_ucs2_ascii() {
    let units = vec![0x74, 0x65, 0x73, 0x74];
    assert_eq!(ucs2_to_utf8(&units), b"test".to_vec());
}

#[test]
fn test_ucs2_multibyte() {
    // U+00E9 and U+20AC expand to two and three UTF-8 bytes.
    let units = vec![0x00e9, 0x20ac];
    assert_eq!(ucs2_to_utf8(&units), vec![0xc3, 0xa9, 0xe2, 0x82, 0xac]);
}

#[test]
fn test_ucs2_empty() {
    assert_eq!(ucs2_to_utf8(&vec![]), Vec::<u8>::new());
}

#[test]
fn test_utf8_validity() {
    assert!(bytes_are_utf8(&b"ticket".to_vec()));
    assert!(bytes_are_utf8(&vec![]));
    assert!(!bytes_are_utf8(&vec![0xff, 0xfe]));
}
