use answer_cache::canonical::canonicalize;
use answer_cache::fingerprint::{fingerprint, DIGEST_LEN, FINGERPRINT_LEN};
use answer_cache::hex::{to_hex_digit, to_hex_lower};

#[test]
fn hex_digits_are_lowercase() {
    let digits: String = (0u8..16).map(to_hex_digit).collect();
    assert_eq!(digits, "0123456789abcdef");
}

#[test]
fn hex_of_bytes_has_the_high_half_first() {
    assert_eq!(to_hex_lower(&[]), "");
    assert_eq!(to_hex_lower(&[0x00]), "00");
    assert_eq!(to_hex_lower(&[0x0f, 0xf0]), "0ff0");
    assert_eq!(to_hex_lower(&[0xde, 0xad, 0xbe, 0xef]), "deadbeef");
    assert_eq!(to_hex_lower(&[0x01, 0x23, 0x45, 0x67, 0x89, 0xab, 0xcd, 0xef]), "0123456789abcdef");
}

#[test]
fn fingerprint_of_the_empty_text() {
    assert_eq!(
        fingerprint(""),
        "e3b0c44298fc1c149afbf4c8996fb92427ae41e4649b934ca495991b7852b855"
    );
}

#[test]
fn fingerprint_of_known_texts() {
    assert_eq!(
        fingerprint("abc"),
        "ba7816bf8f01cfea414140de5dae2223b00361a396177a9cb410ff61f20015ad"
    );
    assert_eq!(
        fingerprint("hello world"),
        "b94d27b9934d3e08a52e52d7da7dabfac484efe37a5380ee9088f7ace2efcde9"
    );
}

#[test]
fn fingerprint_hashes_the_utf8_bytes() {
    // U+00E9 is the two bytes c3 a9.
    assert_eq!(
        fingerprint("\u{e9}"),
        "4a99557e4033c3539de2eb65472017cad5f9557f7a0625a09f1c3f6e2ba69c4c"
    );
}

#[test]
fn fingerprint_is_sixty_four_lowercase_hex_digits() {
    for text in ["", "a", "Explain X", "\u{1f680}"] {
        let key = fingerprint(text);
        assert_eq!(key.len(), FINGERPRINT_LEN);
        assert_eq!(key.len(), 2 * DIGEST_LEN);
        assert!(key.chars().all(|c| matches!(c, '0'..='9' | 'a'..='f')));
    }
}

#[test]
fn fingerprint_is_deterministic() {
    for text in ["", "Explain X", "Explain the concept of ownership in Rust."] {
        assert_eq!(fingerprint(text), fingerprint(text));
    }
}

#[test]
fn different_texts_have_different_fingerprints() {
    assert_ne!(fingerprint("Explain X"), fingerprint("Explain Y"));
    assert_ne!(fingerprint("Explain X"), fingerprint("explain x"));
    assert_ne!(fingerprint("a b"), fingerprint("a  b"));
}

#[test]
fn padded_queries_share_a_key() {
    let padded = fingerprint(canonicalize("  Explain X  "));
    let plain = fingerprint(canonicalize("Explain X"));
    assert_eq!(padded, plain);
    assert_ne!(fingerprint("  Explain X  "), plain);
}
