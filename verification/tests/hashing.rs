use tamashii::hash_bytes;

/// Verifies that hashing the same input twice produces consistent results.
#[test]
fn hash_known_input() {
    let input = b"random-input-input";
    let h1 = hash_bytes(input);
    let h2 = hash_bytes(input);
    assert_eq!(h1, h2)
}

#[test]
fn hash_of_hello_is_known_digest() {
    let h = hash_bytes(b"hello");
    assert_eq!(h.0, "2cf24dba5fb0a30e26e83b2ac5b9e29e1b161e5c1fa7425e73043362938b9824");
}

#[test]
fn hash_of_world_is_known_digest() {
    let h = hash_bytes(b"world");
    assert_eq!(h.0, "486ea46224d1bb4fb680f34f7c9ad96a8f24ec88be73ea8e5a6c65260e9cb8a7");
}

#[test]
fn hash_of_empty_input_is_known_digest() {
    let h = hash_bytes(b"");
    assert_eq!(h.0, "e3b0c44298fc1c149afbf4c8996fb92427ae41e4649b934ca495991b7852b855");
}

#[test]
fn hash_is_sixty_four_lowercase_hex_chars() {
    let h = hash_bytes(b"anything at all");
    assert_eq!(h.0.len(), 64);
    assert!(h.0.chars().all(|c| c.is_ascii_hexdigit() && !c.is_ascii_uppercase()));
}

#[test]
fn hash_prefix_abbreviates() {
    let h = hash_bytes(b"hello");
    assert_eq!(h.prefix(8), "2cf24dba");
    let short = tamashii::HexStirng("ab".to_string());
    assert_eq!(short.prefix(8), "ab");
}

#[test]
fn hashes_of_different_inputs_differ() {
    assert_ne!(hash_bytes(b"hello"), hash_bytes(b"world"));
}
