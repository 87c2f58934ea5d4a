use media_pipeline::hashing::hash_string;

#[test]
fn sha256_known_value() {
    assert_eq!(
        hash_string("hello").unwrap(),
        "2cf24dba5fb0a30e26e83b2ac5b9e29e1b161e5c1fa7425e73043362938b9824"
    );
}

#[test]
fn sha256_empty_input() {
    assert_eq!(
        hash_string("").unwrap(),
        "e3b0c44298fc1c149afbf4c8996fb92427ae41e4649b934ca495991b7852b855"
    );
}

#[test]
fn sha256_is_lowercase_hex_of_fixed_width() {
    let h = hash_string("任意输入").unwrap();
    assert_eq!(h.len(), 64);
    assert!(h.chars().all(|c| c.is_ascii_hexdigit() && !c.is_ascii_uppercase()));
}
