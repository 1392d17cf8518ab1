use rfile::hash::digest_bytes;
use rfile::hash::digest_bytes_parallel;
use rfile::hash::digest_string;
use rfile::hex::from_hex;
use rfile::hex::to_hex;

#[test]
fn hashing_twice_yields_identical_digests() {
    let content = b"determinism check";
    assert_eq!(digest_bytes(content), digest_bytes(content));
    assert_eq!(digest_string(content), digest_string(content));
}

#[test]
fn parallel_and_sequential_passes_agree() {
    let small = b"tiny";
    assert_eq!(digest_bytes_parallel(small), digest_bytes(small));

    let large: Vec<u8> = (0..4 * 1024 * 1024u32).map(|i| (i % 239) as u8).collect();
    assert_eq!(digest_bytes_parallel(&large), digest_bytes(&large));
}

#[test]
fn digest_matches_reference_implementation() {
    let content = b"cross-check against the hash crate";
    let expected = blake3::hash(content);
    assert_eq!(digest_bytes(content), expected.as_bytes().to_vec());
    assert_eq!(digest_string(content), expected.to_hex().to_string());
}

#[test]
fn digest_of_empty_input_is_the_known_constant() {
    assert_eq!(
        digest_string(&[]),
        "af1349b9f5f9a1a6a0404dea36dcc9499bcb25c9adc112b7cc9a93cae41f3262"
    );
}

#[test]
fn digest_string_is_sixty_four_lowercase_hex_chars() {
    let s = digest_string(b"shape of the digest string");
    assert_eq!(s.len(), 64);
    assert!(s.chars().all(|c| c.is_ascii_hexdigit() && !c.is_ascii_uppercase()));
}

#[test]
fn to_hex_renders_exact_digits() {
    assert_eq!(to_hex(&[]), "");
    assert_eq!(to_hex(&[0x00]), "00");
    assert_eq!(to_hex(&[0x00, 0xff, 0x1a]), "00ff1a");
    assert_eq!(to_hex(&[0xde, 0xad, 0xbe, 0xef]), "deadbeef");
}

#[test]
fn from_hex_decodes_exact_bytes() {
    assert_eq!(from_hex(""), Some(vec![]));
    assert_eq!(from_hex("00ff1a"), Some(vec![0x00, 0xff, 0x1a]));
    assert_eq!(from_hex("deadbeef"), Some(vec![0xde, 0xad, 0xbe, 0xef]));
}

#[test]
fn from_hex_rejects_malformed_strings() {
    assert_eq!(from_hex("abc"), None, "odd length");
    assert_eq!(from_hex("zz"), None, "not hexadecimal");
    assert_eq!(from_hex("AF"), None, "digest strings are lowercase");
    assert_eq!(from_hex("a b3"), None, "white space inside");
}

#[test]
fn hex_round_trips_through_both_directions() {
    let bytes: Vec<u8> = (0u16..256).map(|b| b as u8).collect();
    let rendered = to_hex(&bytes);
    assert_eq!(from_hex(&rendered), Some(bytes));
}
