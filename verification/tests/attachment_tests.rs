use base64::Engine;
use sha2::Digest;

use matrix_bridge::attachment::{
    decrypt_attachment, encrypt_attachment, encrypt_attachment_full, AttachmentError,
    EncryptedAttachment,
};

#[test]
fn encrypt_and_verify_hash() {
    let plaintext = b"Hello, Matrix encrypted attachment!";
    let data = encrypt_attachment_full(plaintext).ok().unwrap();
    assert_eq!(data.ciphertext.len(), plaintext.len());
    assert_ne!(&data.ciphertext[..], &plaintext[..]);
    let hash = sha2::Sha256::digest(&data.ciphertext);
    let expected_hash = base64::engine::general_purpose::STANDARD_NO_PAD.encode(hash);
    assert_eq!(data.sha256_b64, expected_hash);
}

#[test]
fn encrypt_decrypt_roundtrip() {
    let plaintext = b"Roundtrip test data for AES-256-CTR";
    let enc = encrypt_attachment(plaintext).ok().unwrap();
    let key = base64::engine::general_purpose::URL_SAFE_NO_PAD.encode(&enc.key);
    let iv = base64::engine::general_purpose::STANDARD_NO_PAD.encode(&enc.iv);
    let decrypted = decrypt_attachment(&enc.ciphertext, &key, &iv, None).unwrap();
    assert_eq!(&decrypted[..], &plaintext[..]);
}

#[test]
fn iv_counter_bytes_are_zero() {
    let enc = encrypt_attachment(b"test").ok().unwrap();
    assert_eq!(enc.key.len(), 32);
    assert_eq!(enc.iv.len(), 16);
    assert_eq!(&enc.iv[8..], &[0u8; 8]);
}

#[test]
fn different_encryptions_produce_different_keys() {
    let plaintext = b"same data";
    let a = encrypt_attachment(plaintext).ok().unwrap();
    let b = encrypt_attachment(plaintext).ok().unwrap();
    assert_ne!(a.key, b.key);
    assert_ne!(&a.iv[..8], &b.iv[..8]);
}

#[test]
fn decrypt_attachment_roundtrip() {
    let plaintext = b"Decrypt test: roundtrip via encrypt_attachment_full";
    let data = encrypt_attachment_full(plaintext).ok().unwrap();
    let decrypted = decrypt_attachment(
        &data.ciphertext,
        &data.key_b64url,
        &data.iv_b64,
        Some(&data.sha256_b64),
    )
    .unwrap();
    assert_eq!(&decrypted[..], &plaintext[..]);
}

#[test]
fn decrypt_attachment_rejects_wrong_hash() {
    let data = encrypt_attachment_full(b"hash check test").ok().unwrap();
    let result = decrypt_attachment(
        &data.ciphertext,
        &data.key_b64url,
        &data.iv_b64,
        Some("AAAAAAAAAAAAAAAAAAAAAAAAAAAAAAAAAAAAAAAAAAA"),
    );
    assert_eq!(result.unwrap_err(), AttachmentError::HashMismatch);
}

#[test]
fn decrypt_attachment_reports_bad_key_material() {
    let data = encrypt_attachment_full(b"x").ok().unwrap();
    assert_eq!(
        decrypt_attachment(&data.ciphertext, "!!!", &data.iv_b64, None).unwrap_err(),
        AttachmentError::InvalidKey
    );
    assert_eq!(
        decrypt_attachment(&data.ciphertext, "AAAA", &data.iv_b64, None).unwrap_err(),
        AttachmentError::KeyLength { got: 3 }
    );
    assert_eq!(
        decrypt_attachment(&data.ciphertext, &data.key_b64url, "***", None).unwrap_err(),
        AttachmentError::InvalidIv
    );
    assert_eq!(
        decrypt_attachment(&data.ciphertext, &data.key_b64url, "AAAA", None).unwrap_err(),
        AttachmentError::IvLength { got: 3 }
    );
}

#[test]
fn encrypted_attachment_from_upload() {
    let data = encrypt_attachment_full(b"abc").ok().unwrap();
    let key = data.key_b64url.clone();
    let att = EncryptedAttachment::from_upload("mxc://example.com/abc".to_string(), data);
    assert_eq!(att.mxc_uri, "mxc://example.com/abc");
    assert_eq!(att.key_b64url, key);
}
