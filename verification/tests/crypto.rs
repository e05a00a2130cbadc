use deemak::crypto::{characterise_key, decrypt, encrypt, generate_salt, salted_hash};
use deemak::errors::DeemakError;
use deemak::strkit::u64_to_string;

// Two well-formed base64 salts, long enough for the memory-hard hash.
const SALT_A: &str = "YWJjZGVmZ2hpamts";
const SALT_B: &str = "enp6enp6enp6enp6";

#[test]
fn cipher_round_trip() {
    let key = characterise_key("context one", "context two");
    for p in ["", "krishna", "F1", "a longer plaintext with spaces", "h\u{e9}llo \u{4e16}\u{754c}"] {
        let c = encrypt(&key, p);
        assert_eq!(decrypt(&key, c.as_str()), p, "plaintext {p:?}");
        // Encryption is deterministic: the same key and plaintext give the
        // same ciphertext.
        assert_eq!(encrypt(&key, p), c);
    }
}

#[test]
fn cipher_wrong_key_gives_garbage() {
    let key = characterise_key("level one", "krishna");
    let wrong = characterise_key("level one", "guess");
    let c = encrypt(&key, "the secret flag");
    let d = decrypt(&wrong, c.as_str());
    assert_ne!(d, "the secret flag");
    // And no panic: the garbage is an ordinary string.
    assert!(!d.is_empty());
}

#[test]
fn cipher_is_not_identity_and_decrypt_is_total() {
    let key = characterise_key("a", "b");
    let c = encrypt(&key, "abc");
    // One character becomes eight hex characters.
    assert_eq!(c.len(), 24);
    assert_ne!(c, "abc");
    assert!(c.chars().all(|ch| ch.is_ascii_hexdigit()));
    // Input that is not well-formed ciphertext is handed back unchanged.
    assert_eq!(decrypt(&key, "not hex!"), "not hex!");
    assert_eq!(decrypt(&key, "krishna"), "krishna");
    assert_eq!(decrypt(&key, ""), "");
}

#[test]
fn characterise_key_is_deterministic_and_order_sensitive() {
    let k1 = characterise_key("alice", "L1");
    let k2 = characterise_key("alice", "L1");
    assert_eq!(k1, k2);
    assert_eq!(k1.len(), 32);
    assert_ne!(characterise_key("alice", "L1"), characterise_key("L1", "alice"));
    assert_ne!(characterise_key("alice", "L1"), characterise_key("alice", "L2"));
    // The length prefix keeps the pair boundary unambiguous.
    assert_ne!(characterise_key("ab", "c"), characterise_key("a", "bc"));
}

#[test]
fn salted_hash_is_deterministic() {
    let d1 = salted_hash(SALT_A, "the input").expect("salt accepted");
    let d2 = salted_hash(SALT_A, "the input").expect("salt accepted");
    assert_eq!(d1, d2);
    // The digest is a real digest, not the input handed back.
    assert_ne!(d1, "the input");
    assert!(d1.starts_with("$argon2"));
}

#[test]
fn salted_hash_differs_across_salts_and_inputs() {
    let d1 = salted_hash(SALT_A, "same input").expect("salt accepted");
    let d2 = salted_hash(SALT_B, "same input").expect("salt accepted");
    assert_ne!(d1, d2);
    let d3 = salted_hash(SALT_A, "other input").expect("salt accepted");
    assert_ne!(d1, d3);
}

#[test]
fn salted_hash_rejects_malformed_salt() {
    assert_eq!(salted_hash("ab", "input"), Err(DeemakError::CryptoFormatError));
    assert_eq!(salted_hash("bad salt!", "input"), Err(DeemakError::CryptoFormatError));
    assert_eq!(salted_hash("", "input"), Err(DeemakError::CryptoFormatError));
}

#[test]
fn generated_salts_are_usable_and_fresh() {
    let s1 = generate_salt();
    let s2 = generate_salt();
    assert_ne!(s1, s2);
    assert_eq!(s1.len(), 22);
    assert!(s1.chars().all(|c| c.is_ascii_alphanumeric() || "/+.-".contains(c)));
    assert!(salted_hash(s1.as_str(), "x").is_ok());
}

#[test]
fn decimal_rendering() {
    assert_eq!(u64_to_string(0), "0");
    assert_eq!(u64_to_string(7), "7");
    assert_eq!(u64_to_string(12345), "12345");
    assert_eq!(u64_to_string(u64::MAX), "18446744073709551615");
}
