use webserver_base::fingerprint::{fingerprint, to_hex};

#[test]
fn fingerprint_of_the_alphabet() {
    assert_eq!(
        fingerprint(b"abcdefghijklmnopqrstuvwxyz"),
        "c3fcd3d76192e4007dfb496cca67e13b"
    );
}

#[test]
fn fingerprint_of_nothing() {
    assert_eq!(fingerprint(b""), "d41d8cd98f00b204e9800998ecf8427e");
}

#[test]
fn fingerprint_is_the_same_for_the_same_bytes() {
    let bytes: Vec<u8> = (0..=255u8).collect();
    assert_eq!(fingerprint(&bytes), fingerprint(&bytes.clone()));
}

#[test]
fn fingerprint_is_thirty_two_lowercase_hex_digits() {
    for sample in [&b""[..], &b"a"[..], &b"hello world"[..], &[0u8; 1000][..]] {
        let text = fingerprint(sample);
        assert_eq!(text.len(), 32);
        assert!(text.chars().all(|c| matches!(c, '0'..='9' | 'a'..='f')));
    }
}

#[test]
fn fingerprints_of_different_bytes_differ() {
    let mut seen: Vec<String> = Vec::new();
    for n in 0..200u32 {
        let text = fingerprint(format!("file number {n}").as_bytes());
        assert!(!seen.contains(&text));
        seen.push(text);
    }
    assert_ne!(fingerprint(b"a"), fingerprint(b"b"));
    assert_ne!(fingerprint(b""), fingerprint(b"\0"));
}

#[test]
fn hex_is_lowercase_and_high_half_first() {
    assert_eq!(to_hex(&[0x00, 0x0f, 0xa0, 0xbe, 0xef, 0xff]), "000fa0beefff");
    assert_eq!(to_hex(&[]), "");
}
