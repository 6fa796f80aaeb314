use crypto::aead::{finish_open, finish_seal, KEY_LEN, MAX_PLAINTEXT_LEN, NONCE_LEN, TAG_LEN};
use crypto::{chacha20_poly1305_cipher, ErrorStates};

fn test_key() -> [u8; 32] {
    let mut key: [u8; 32] = [0u8; 32];
    for (k, byte) in key.iter_mut().enumerate() {
        *byte = 0x80 + k as u8;
    }
    key
}

const NONCE: [u8; 12] = [0x07, 0, 0, 0, 0x40, 0x41, 0x42, 0x43, 0x44, 0x45, 0x46, 0x47];

#[test]
fn lengths_of_key_nonce_and_tag() {
    assert_eq!(KEY_LEN, 32);
    assert_eq!(NONCE_LEN, 12);
    assert_eq!(TAG_LEN, 16);
    assert_eq!(MAX_PLAINTEXT_LEN, ((1u64 << 32) - 1) * 64);
}

#[test]
fn sealing_appends_a_tag_and_hides_the_plaintext() {
    let plaintext: Vec<u8> = b"Ladies and Gentlemen of the class of '99".to_vec();
    let sealed = chacha20_poly1305_cipher(&test_key(), &NONCE, plaintext.clone(), true).unwrap();
    assert_eq!(sealed.len(), plaintext.len() + 16);
    assert_ne!(&sealed[..plaintext.len()], &plaintext[..]);
}

#[test]
fn sealing_is_a_function_of_key_nonce_and_plaintext() {
    let plaintext: Vec<u8> = b"the same three values".to_vec();
    let first = chacha20_poly1305_cipher(&test_key(), &NONCE, plaintext.clone(), true).unwrap();
    let second = chacha20_poly1305_cipher(&test_key(), &NONCE, plaintext.clone(), true).unwrap();
    assert_eq!(first, second);

    let mut other_nonce: [u8; 12] = NONCE;
    other_nonce[11] ^= 1;
    let third = chacha20_poly1305_cipher(&test_key(), &other_nonce, plaintext.clone(), true).unwrap();
    assert_ne!(first, third);

    let mut other_key: [u8; 32] = test_key();
    other_key[0] ^= 1;
    let fourth = chacha20_poly1305_cipher(&other_key, &NONCE, plaintext, true).unwrap();
    assert_ne!(first, fourth);
}

#[test]
fn sealing_the_empty_plaintext_gives_the_tag_alone() {
    let sealed = chacha20_poly1305_cipher(&test_key(), &NONCE, Vec::new(), true).unwrap();
    assert_eq!(sealed.len(), 16);
    let opened = chacha20_poly1305_cipher(&test_key(), &NONCE, sealed, false).unwrap();
    assert!(opened.is_empty());
}

#[test]
fn opening_gives_back_what_was_sealed() {
    for len in [0usize, 1, 15, 16, 17, 63, 64, 65, 100, 1000] {
        let plaintext: Vec<u8> = (0..len).map(|k| (k * 11 + 2) as u8).collect();
        let sealed =
            chacha20_poly1305_cipher(&test_key(), &NONCE, plaintext.clone(), true).unwrap();
        let opened = chacha20_poly1305_cipher(&test_key(), &NONCE, sealed, false);
        assert_eq!(opened, Ok(plaintext));
    }
}

#[test]
fn tampering_with_any_byte_fails_decryption() {
    let plaintext: Vec<u8> = b"not to be altered".to_vec();
    let sealed = chacha20_poly1305_cipher(&test_key(), &NONCE, plaintext, true).unwrap();
    for position in 0..sealed.len() {
        for bit in 0..8u32 {
            let mut tampered: Vec<u8> = sealed.clone();
            tampered[position] ^= 1u8 << bit;
            let opened = chacha20_poly1305_cipher(&test_key(), &NONCE, tampered, false);
            assert_eq!(opened, Err(ErrorStates::DecryptionFailed));
        }
    }
}

#[test]
fn opening_under_another_key_or_nonce_fails() {
    let sealed = chacha20_poly1305_cipher(&test_key(), &NONCE, b"for one key".to_vec(), true)
        .unwrap();

    let mut other_key: [u8; 32] = test_key();
    other_key[31] ^= 0x80;
    assert_eq!(
        chacha20_poly1305_cipher(&other_key, &NONCE, sealed.clone(), false),
        Err(ErrorStates::DecryptionFailed)
    );

    let mut other_nonce: [u8; 12] = NONCE;
    other_nonce[0] ^= 0x01;
    assert_eq!(
        chacha20_poly1305_cipher(&test_key(), &other_nonce, sealed, false),
        Err(ErrorStates::DecryptionFailed)
    );
}

#[test]
fn opening_a_buffer_shorter_than_a_tag_fails() {
    for len in 0usize..16 {
        let buffer: Vec<u8> = vec![0u8; len];
        assert_eq!(
            chacha20_poly1305_cipher(&test_key(), &NONCE, buffer, false),
            Err(ErrorStates::DecryptionFailed)
        );
    }
}

#[test]
fn truncating_or_extending_a_sealed_buffer_fails_decryption() {
    let sealed = chacha20_poly1305_cipher(&test_key(), &NONCE, b"exact length".to_vec(), true)
        .unwrap();
    let mut shorter: Vec<u8> = sealed.clone();
    shorter.pop();
    assert_eq!(
        chacha20_poly1305_cipher(&test_key(), &NONCE, shorter, false),
        Err(ErrorStates::DecryptionFailed)
    );
    let mut longer: Vec<u8> = sealed;
    longer.push(0);
    assert_eq!(
        chacha20_poly1305_cipher(&test_key(), &NONCE, longer, false),
        Err(ErrorStates::DecryptionFailed)
    );
}

#[test]
fn a_key_of_the_wrong_length_does_not_bind() {
    for len in [0usize, 1, 16, 31, 33, 64] {
        let key: Vec<u8> = vec![0x42u8; len];
        assert_eq!(
            chacha20_poly1305_cipher(&key, &NONCE, b"data".to_vec(), true),
            Err(ErrorStates::KeyInitializationFailed)
        );
        assert_eq!(
            chacha20_poly1305_cipher(&key, &NONCE, vec![0u8; 20], false),
            Err(ErrorStates::KeyInitializationFailed)
        );
    }
}

#[test]
fn a_key_of_32_bytes_binds() {
    let key: Vec<u8> = vec![0x42u8; 32];
    assert!(chacha20_poly1305_cipher(&key, &NONCE, b"data".to_vec(), true).is_ok());
}

#[test]
fn finish_seal_hands_out_an_accepted_buffer() {
    assert_eq!(finish_seal(vec![1u8, 2, 3], true), Ok(vec![1u8, 2, 3]));
    assert_eq!(finish_seal(Vec::new(), true), Ok(Vec::new()));
}

#[test]
fn finish_seal_reports_a_refused_buffer() {
    assert_eq!(finish_seal(vec![1u8, 2, 3], false), Err(ErrorStates::EncryptionFailed));
}

#[test]
fn finish_open_cuts_the_buffer_to_the_plaintext() {
    assert_eq!(finish_open(vec![1u8, 2, 3, 4, 5], Some(3)), Ok(vec![1u8, 2, 3]));
    assert_eq!(finish_open(vec![1u8, 2, 3, 4, 5], Some(0)), Ok(Vec::new()));
    assert_eq!(finish_open(vec![1u8, 2, 3, 4, 5], Some(5)), Ok(vec![1u8, 2, 3, 4, 5]));
    assert_eq!(finish_open(vec![1u8, 2, 3, 4, 5], Some(9)), Ok(vec![1u8, 2, 3, 4, 5]));
}

#[test]
fn finish_open_hands_out_nothing_of_a_rejected_buffer() {
    assert_eq!(finish_open(vec![1u8, 2, 3, 4, 5], None), Err(ErrorStates::DecryptionFailed));
    assert_eq!(finish_open(Vec::new(), None), Err(ErrorStates::DecryptionFailed));
}
