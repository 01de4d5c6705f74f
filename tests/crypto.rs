use aw_automation::local_crypto::{
    decode_plaintext, decrypt_local_data, encrypt_local_data, seal_with_nonce, CryptoError,
};

fn key() -> Vec<u8> {
    (0u8..32).collect()
}

#[test]
fn encrypt_returns_ciphertext_and_tag_only() {
    let sealed = encrypt_local_data("gizli not".to_string(), key()).unwrap();
    assert_eq!(sealed.len(), "gizli not".len() + 16);
}

#[test]
fn sealed_text_opens_with_its_nonce_in_front() {
    let nonce = vec![3u8; 12];
    let sealed = seal_with_nonce(&"gizli not".to_string(), &key(), &nonce).unwrap();
    assert_eq!(sealed.len(), "gizli not".len() + 16);
    let mut data = nonce.clone();
    data.extend_from_slice(&sealed);
    assert_eq!(decrypt_local_data(data, key()).unwrap(), "gizli not");
}

#[test]
fn sealing_changes_the_bytes() {
    let nonce = vec![7u8; 12];
    let sealed = seal_with_nonce(&"hello".to_string(), &key(), &nonce).unwrap();
    assert_ne!(&sealed[..5], b"hello");
    let again = seal_with_nonce(&"hello".to_string(), &key(), &nonce).unwrap();
    assert_eq!(sealed, again);
    let other = seal_with_nonce(&"hello".to_string(), &key(), &vec![8u8; 12]).unwrap();
    assert_ne!(sealed, other);
}

#[test]
fn wrong_key_fails_to_open() {
    let nonce = vec![1u8; 12];
    let mut data = nonce.clone();
    data.extend_from_slice(&seal_with_nonce(&"x".to_string(), &key(), &nonce).unwrap());
    assert_eq!(decrypt_local_data(data, vec![9u8; 32]), Err(CryptoError::DecryptionFailed));
}

#[test]
fn key_and_data_lengths_are_checked() {
    assert_eq!(encrypt_local_data("x".to_string(), vec![1u8; 16]), Err(CryptoError::InvalidKeyLength));
    assert_eq!(decrypt_local_data(vec![0u8; 40], vec![1u8; 31]), Err(CryptoError::InvalidKeyLength));
    assert_eq!(decrypt_local_data(vec![0u8; 11], key()), Err(CryptoError::DataTooShort));
    assert_eq!(decrypt_local_data(vec![0u8; 12], key()), Err(CryptoError::DecryptionFailed));
    assert_eq!(
        seal_with_nonce(&"x".to_string(), &key(), &vec![0u8; 8]),
        Err(CryptoError::InvalidNonceLength)
    );
}

#[test]
fn plaintext_must_be_utf8() {
    assert_eq!(decode_plaintext(Some(vec![0xff, 0xfe])), Err(CryptoError::InvalidUtf8));
    assert_eq!(decode_plaintext(None), Err(CryptoError::DecryptionFailed));
    assert_eq!(decode_plaintext(Some(b"ok".to_vec())).unwrap(), "ok");
}
