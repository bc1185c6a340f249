use nexus::hashing::{content_hash, to_hex};

#[test]
fn hash_is_deterministic_across_calls() {
    let a = content_hash("package manifest body");
    let b = content_hash("package manifest body");
    assert_eq!(a, b);
}

#[test]
fn hash_depends_on_content_alone() {
    let a = content_hash("one manifest");
    let b = content_hash("another manifest");
    assert_ne!(a, b);
}

#[test]
fn hash_of_abc_matches_known_digest() {
    assert_eq!(
        content_hash("abc"),
        "ba7816bf8f01cfea414140de5dae2223b00361a396177a9cb410ff61f20015ad"
    );
}

#[test]
fn hash_of_empty_matches_known_digest() {
    assert_eq!(
        content_hash(""),
        "e3b0c44298fc1c149afbf4c8996fb92427ae41e4649b934ca495991b7852b855"
    );
}

#[test]
fn hash_is_64_lowercase_hex_chars() {
    let h = content_hash("htop");
    assert_eq!(h.len(), 64);
    assert!(h.chars().all(|c| c.is_ascii_hexdigit() && !c.is_ascii_uppercase()));
}

#[test]
fn to_hex_renders_bytes_low_and_high_nibbles() {
    assert_eq!(to_hex(&vec![0x00u8, 0x0f, 0xa5, 0xff]), "000fa5ff");
    assert_eq!(to_hex(&vec![]), "");
}
