use gitsock::errors::GitSockError;
use gitsock::vault::{decrypt, encrypt, KeyState, KEY_LEN, NONCE_LEN, TAG_LEN};

#[test]
fn round_trip_returns_the_plaintext() {
    let key = KeyState::generate();
    let payload: Vec<u8> = b"gho_sometoken".to_vec();
    let blob = encrypt(&key, &payload);
    assert_eq!(blob.len(), payload.len() + NONCE_LEN + TAG_LEN);
    assert_eq!(decrypt(&key, &blob), Ok(payload));
}

#[test]
fn round_trip_empty_payload() {
    let key = KeyState::generate();
    let payload: Vec<u8> = Vec::new();
    let blob = encrypt(&key, &payload);
    assert_eq!(decrypt(&key, &blob), Ok(payload));
}

#[test]
fn two_encryptions_of_the_same_payload_differ() {
    let key = KeyState::generate();
    let payload: Vec<u8> = vec![1, 2, 3, 4];
    let first = encrypt(&key, &payload);
    let second = encrypt(&key, &payload);
    assert_ne!(first, second);
}

#[test]
fn flipping_any_bit_is_detected() {
    let key = KeyState::generate();
    let payload: Vec<u8> = vec![9, 8, 7, 6];
    let blob = encrypt(&key, &payload);
    for byte in 0..blob.len() {
        for bit in 0..8 {
            let mut tampered = blob.clone();
            tampered[byte] ^= 1 << bit;
            assert_eq!(decrypt(&key, &tampered), Err(GitSockError::Integrity));
        }
    }
}

#[test]
fn truncated_blobs_are_rejected() {
    let key = KeyState::generate();
    let payload: Vec<u8> = vec![42; 10];
    let blob = encrypt(&key, &payload);
    for keep in [0, 1, NONCE_LEN - 1, NONCE_LEN, NONCE_LEN + TAG_LEN - 1] {
        let shorter: Vec<u8> = blob[..keep].to_vec();
        assert_eq!(decrypt(&key, &shorter), Err(GitSockError::Integrity));
    }
}

#[test]
fn decrypting_with_another_key_fails() {
    let key = KeyState::generate();
    let other = KeyState::generate();
    let blob = encrypt(&key, &vec![1, 2, 3]);
    assert_eq!(decrypt(&other, &blob), Err(GitSockError::Integrity));
}

#[test]
fn key_file_length_is_enforced() {
    assert!(KeyState::from_bytes(vec![0u8; KEY_LEN]).is_ok());
    assert_eq!(
        KeyState::from_bytes(vec![0u8; KEY_LEN - 1]).err(),
        Some(GitSockError::Config)
    );
    assert_eq!(
        KeyState::from_bytes(vec![0u8; KEY_LEN + 1]).err(),
        Some(GitSockError::Config)
    );
    assert_eq!(KeyState::from_bytes(Vec::new()).err(), Some(GitSockError::Config));
}

#[test]
fn loaded_key_decrypts_what_it_encrypted() {
    let key = KeyState::generate();
    let bytes = key.as_bytes().clone();
    let blob = encrypt(&key, &vec![5, 5, 5]);
    let reloaded = KeyState::from_bytes(bytes).unwrap();
    assert_eq!(decrypt(&reloaded, &blob), Ok(vec![5, 5, 5]));
}
