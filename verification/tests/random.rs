use crypto::random::{fill_outcome, RandomSourceFailed};
use crypto::{chacha20_poly1305_cipher, generate_key, generate_nonce};

#[test]
fn generate_key_fills_the_buffer() {
    let mut key: [u8; 32] = [0u8; 32];
    assert_eq!(generate_key(&mut key), Ok(()));
    assert_ne!(key, [0u8; 32]);
}

#[test]
fn generate_nonce_fills_the_buffer() {
    let mut nonce: [u8; 12] = [0u8; 12];
    assert_eq!(generate_nonce(&mut nonce), Ok(()));
    assert_ne!(nonce, [0u8; 12]);
}

#[test]
fn generated_values_differ_from_call_to_call() {
    let mut first: [u8; 32] = [0u8; 32];
    let mut second: [u8; 32] = [0u8; 32];
    assert!(generate_key(&mut first).is_ok());
    assert!(generate_key(&mut second).is_ok());
    assert_ne!(first, second);

    let mut nonce_a: [u8; 12] = [0u8; 12];
    let mut nonce_b: [u8; 12] = [0u8; 12];
    assert!(generate_nonce(&mut nonce_a).is_ok());
    assert!(generate_nonce(&mut nonce_b).is_ok());
    assert_ne!(nonce_a, nonce_b);
}

#[test]
fn generation_accepts_any_length() {
    let mut nothing: [u8; 0] = [];
    assert!(generate_key(&mut nothing).is_ok());
    let mut long: Vec<u8> = vec![0u8; 1000];
    assert!(generate_nonce(&mut long).is_ok());
    assert_eq!(long.len(), 1000);
}

#[test]
fn a_generated_key_and_nonce_seal_and_open() {
    let mut key: [u8; 32] = [0u8; 32];
    let mut nonce: [u8; 12] = [0u8; 12];
    assert!(generate_key(&mut key).is_ok());
    assert!(generate_nonce(&mut nonce).is_ok());
    let sealed = chacha20_poly1305_cipher(&key, &nonce, b"fresh".to_vec(), true).unwrap();
    assert_eq!(chacha20_poly1305_cipher(&key, &nonce, sealed, false), Ok(b"fresh".to_vec()));
}

#[test]
fn an_empty_buffer_always_succeeds() {
    let mut nothing: [u8; 0] = [];
    for _ in 0..100 {
        assert_eq!(generate_key(&mut nothing), Ok(()));
        assert_eq!(generate_nonce(&mut nothing), Ok(()));
    }
    let mut empty: Vec<u8> = Vec::new();
    assert_eq!(generate_key(&mut empty), Ok(()));
    assert!(empty.is_empty());
}

#[test]
fn generation_keeps_the_length_of_the_buffer() {
    for len in [1usize, 12, 32, 33, 257] {
        let mut buffer: Vec<u8> = vec![0u8; len];
        assert!(generate_key(&mut buffer).is_ok());
        assert_eq!(buffer.len(), len);
        assert!(generate_nonce(&mut buffer).is_ok());
        assert_eq!(buffer.len(), len);
    }
}

#[test]
fn the_outcome_follows_the_random_source() {
    assert_eq!(fill_outcome(true), Ok(()));
    assert_eq!(fill_outcome(false), Err(RandomSourceFailed));
}
