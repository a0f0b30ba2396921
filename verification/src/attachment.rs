//! Encrypted Matrix attachments (AES-256-CTR, as the Matrix specification
//! describes for encrypted rooms).
//!
//! An attachment is encrypted with a random 256-bit key and a 16-byte IV
//! whose last 8 bytes (the counter) are zero. The key is shared as unpadded
//! base64url, the IV and the SHA-256 of the ciphertext as unpadded base64.
use vstd::prelude::*;
use vstd::string::*;

use base64::Engine;
use ctr::cipher::{KeyIvInit, StreamCipher};
use sha2::Digest;

use crate::auth::verify_token;

verus! {

/// What AES-256 in CTR mode (64-bit big-endian counter) makes of `data`
/// with this key and IV.
pub uninterp spec fn aes256_ctr_view(key: Seq<u8>, iv: Seq<u8>, data: Seq<u8>) -> Seq<u8>;

/// The SHA-256 digest of `data`.
pub uninterp spec fn sha256_view(data: Seq<u8>) -> Seq<u8>;

/// Unpadded base64 (standard alphabet) of `bytes`.
pub uninterp spec fn std_b64_encode_view(bytes: Seq<u8>) -> Seq<char>;

/// The bytes of an unpadded base64 (standard alphabet) text, or `None`
/// when it is not one.
pub uninterp spec fn std_b64_decode_view(s: Seq<char>) -> Option<Seq<u8>>;

/// Unpadded base64url of `bytes`.
pub uninterp spec fn url_safe_b64_encode_view(bytes: Seq<u8>) -> Seq<char>;

/// The bytes of an unpadded base64url text, or `None` when it is not one.
pub uninterp spec fn url_safe_b64_decode_view(s: Seq<char>) -> Option<Seq<u8>>;

/// Applies the AES-256-CTR keystream (`ctr::Ctr64BE<aes::Aes256>`) to a
/// copy of `data`.
///
/// Claimed of the crates: the result has the length of the data, depends
/// on key, IV and data alone (`aes256_ctr_view`), and, since the keystream
/// is XORed into the data, applying it again gives the data back.
#[verifier::external_body]
fn aes256_ctr_apply(key: &[u8], iv: &[u8], data: &[u8]) -> (r: Vec<u8>)
    requires
        key@.len() == 32,
        iv@.len() == 16,
    ensures
        r@ == aes256_ctr_view(key@, iv@, data@),
        r@.len() == data@.len(),
        aes256_ctr_view(key@, iv@, r@) == data@,
{
    let mut out = data.to_vec();
    let mut cipher = ctr::Ctr64BE::<aes::Aes256>::new(key.into(), iv.into());
    cipher.apply_keystream(&mut out);
    out
}

/// The SHA-256 digest of `data` (`sha2::Sha256::digest`): 32 bytes that
/// depend on the data alone.
#[verifier::external_body]
pub(crate) fn sha256(data: &[u8]) -> (r: Vec<u8>)
    ensures
        r@ == sha256_view(data@),
        r@.len() == 32,
{
    sha2::Sha256::digest(data).to_vec()
}

/// Encodes bytes as unpadded base64 (`STANDARD_NO_PAD.encode`).
///
/// Claimed of the crate: the text depends on the bytes alone, and decoding
/// it with the same engine gives the bytes back.
#[verifier::external_body]
fn std_b64_encode(bytes: &[u8]) -> (r: String)
    requires
        bytes@.len() < 0x4000_0000,
    ensures
        r@ == std_b64_encode_view(bytes@),
        std_b64_decode_view(r@) == Some(bytes@),
{
    base64::engine::general_purpose::STANDARD_NO_PAD.encode(bytes)
}

/// Decodes unpadded base64 (`STANDARD_NO_PAD.decode`); a decoding error
/// becomes `None`.
#[verifier::external_body]
fn std_b64_decode(s: &str) -> (r: Option<Vec<u8>>)
    ensures
        match r {
            Some(v) => std_b64_decode_view(s@) == Some(v@),
            None => std_b64_decode_view(s@) is None,
        },
{
    match base64::engine::general_purpose::STANDARD_NO_PAD.decode(s) {
        Ok(v) => Some(v),
        Err(_) => None,
    }
}

/// Encodes bytes as unpadded base64url (`URL_SAFE_NO_PAD.encode`).
///
/// Claimed of the crate: the text depends on the bytes alone, and decoding
/// it with the same engine gives the bytes back.
#[verifier::external_body]
fn url_safe_b64_encode(bytes: &[u8]) -> (r: String)
    requires
        bytes@.len() < 0x4000_0000,
    ensures
        r@ == url_safe_b64_encode_view(bytes@),
        url_safe_b64_decode_view(r@) == Some(bytes@),
{
    base64::engine::general_purpose::URL_SAFE_NO_PAD.encode(bytes)
}

/// Decodes unpadded base64url (`URL_SAFE_NO_PAD.decode`); a decoding error
/// becomes `None`.
#[verifier::external_body]
fn url_safe_b64_decode(s: &str) -> (r: Option<Vec<u8>>)
    ensures
        match r {
            Some(v) => url_safe_b64_decode_view(s@) == Some(v@),
            None => url_safe_b64_decode_view(s@) is None,
        },
{
    match base64::engine::general_purpose::URL_SAFE_NO_PAD.decode(s) {
        Ok(v) => Some(v),
        Err(_) => None,
    }
}

/// `n` bytes from the operating system's random source
/// (`getrandom::getrandom`), or `None` when it fails. Nothing is claimed of
/// the bytes but their number.
#[verifier::external_body]
fn random_bytes(n: usize) -> (r: Option<Vec<u8>>)
    ensures
        match r {
            Some(v) => v@.len() == n,
            None => true,
        },
{
    let mut buf = vec![0u8; n];
    match getrandom::getrandom(&mut buf) {
        Ok(()) => Some(buf),
        Err(_) => None,
    }
}

/// Why an attachment could not be encrypted or decrypted.
#[derive(Debug, Clone, Copy, PartialEq, Eq, Structural)]
pub enum AttachmentError {
    /// The random source failed.
    Random,
    /// The SHA-256 of the ciphertext is not the expected one.
    HashMismatch,
    /// The key is not unpadded base64url.
    InvalidKey,
    /// The key does not decode to 32 bytes.
    KeyLength { got: usize },
    /// The IV is not unpadded base64.
    InvalidIv,
    /// The IV does not decode to 16 bytes.
    IvLength { got: usize },
}

/// The outcome of decrypting `ciphertext` with a base64url key and a base64
/// IV, first checking the ciphertext's SHA-256 when one is expected.
pub open spec fn spec_decrypt_attachment(
    ciphertext: Seq<u8>,
    key_b64url: Seq<char>,
    iv_b64: Seq<char>,
    expected_sha256_b64: Option<Seq<char>>,
) -> Result<Seq<u8>, AttachmentError> {
    if expected_sha256_b64 is Some && std_b64_encode_view(sha256_view(ciphertext))
        != expected_sha256_b64->0 {
        Err(AttachmentError::HashMismatch)
    } else {
        match url_safe_b64_decode_view(key_b64url) {
            None => Err(AttachmentError::InvalidKey),
            Some(key) => if key.len() != 32 {
                Err(AttachmentError::KeyLength { got: key.len() as usize })
            } else {
                match std_b64_decode_view(iv_b64) {
                    None => Err(AttachmentError::InvalidIv),
                    Some(iv) => if iv.len() != 16 {
                        Err(AttachmentError::IvLength { got: iv.len() as usize })
                    } else {
                        Ok(aes256_ctr_view(key, iv, ciphertext))
                    },
                }
            },
        }
    }
}

/// Decrypts an encrypted Matrix attachment. When `expected_sha256_b64` is
/// given, the SHA-256 of the ciphertext is compared with it (in constant
/// time) before anything else.
pub fn decrypt_attachment(
    ciphertext: &[u8],
    key_b64url: &str,
    iv_b64: &str,
    expected_sha256_b64: Option<&str>,
) -> (r: Result<Vec<u8>, AttachmentError>)
    ensures
        match r {
            Ok(p) => spec_decrypt_attachment(
                ciphertext@,
                key_b64url@,
                iv_b64@,
                match expected_sha256_b64 {
                    Some(e) => Some(e@),
                    None => None,
                },
            ) == Ok::<Seq<u8>, AttachmentError>(p@),
            Err(e) => spec_decrypt_attachment(
                ciphertext@,
                key_b64url@,
                iv_b64@,
                match expected_sha256_b64 {
                    Some(e) => Some(e@),
                    None => None,
                },
            ) == Err::<Seq<u8>, AttachmentError>(e),
        },
{
    if let Some(expected) = expected_sha256_b64 {
        let hash = sha256(ciphertext);
        let actual = std_b64_encode(hash.as_slice());
        if !verify_token(actual.as_str(), expected) {
            return Err(AttachmentError::HashMismatch);
        }
    }
    let key = match url_safe_b64_decode(key_b64url) {
        Some(k) => k,
        None => return Err(AttachmentError::InvalidKey),
    };
    if key.len() != 32 {
        return Err(AttachmentError::KeyLength { got: key.len() });
    }
    let iv = match std_b64_decode(iv_b64) {
        Some(v) => v,
        None => return Err(AttachmentError::InvalidIv),
    };
    if iv.len() != 16 {
        return Err(AttachmentError::IvLength { got: iv.len() });
    }
    Ok(aes256_ctr_apply(key.as_slice(), iv.as_slice(), ciphertext))
}

/// A fresh key and IV and the plaintext encrypted with them.
pub struct EncryptedBytes {
    pub ciphertext: Vec<u8>,
    /// The 32-byte AES key.
    pub key: Vec<u8>,
    /// The 16-byte IV: 8 random bytes, then a zero counter.
    pub iv: Vec<u8>,
}

/// Encrypts data for a Matrix encrypted attachment with a random key and a
/// random IV whose counter half is zero.
pub fn encrypt_attachment(plaintext: &[u8]) -> (r: Result<EncryptedBytes, AttachmentError>)
    ensures
        match r {
            Ok(e) => {
                &&& e.key@.len() == 32
                &&& e.iv@.len() == 16
                &&& forall|i: int| 8 <= i < 16 ==> e.iv@[i] == 0
                &&& e.ciphertext@ == aes256_ctr_view(e.key@, e.iv@, plaintext@)
                &&& e.ciphertext@.len() == plaintext@.len()
                &&& aes256_ctr_view(e.key@, e.iv@, e.ciphertext@) == plaintext@
            },
            Err(e) => e == AttachmentError::Random,
        },
{
    let key = match random_bytes(32) {
        Some(k) => k,
        None => return Err(AttachmentError::Random),
    };
    let mut iv = match random_bytes(8) {
        Some(v) => v,
        None => return Err(AttachmentError::Random),
    };
    let mut i: usize = 0;
    while i < 8
        invariant
            i <= 8,
            iv@.len() == 8 + i,
            forall|j: int| 8 <= j < 8 + i ==> iv@[j] == 0,
        decreases 8 - i,
    {
        iv.push(0u8);
        i = i + 1;
    }
    let ciphertext = aes256_ctr_apply(key.as_slice(), iv.as_slice(), plaintext);
    Ok(EncryptedBytes { ciphertext, key, iv })
}

/// An encrypted attachment before upload, with its key material encoded as
/// the Matrix `file` object carries it.
pub struct EncryptedAttachmentData {
    pub ciphertext: Vec<u8>,
    /// Base64url-encoded AES-256 key (JWK `k` field).
    pub key_b64url: String,
    /// Base64-encoded IV.
    pub iv_b64: String,
    /// Unpadded base64-encoded SHA-256 of the ciphertext.
    pub sha256_b64: String,
}

/// Encrypts data and encodes the key, the IV and the SHA-256 of the
/// ciphertext. Decrypting the result with its own key material (hash check
/// included) gives the plaintext back.
pub fn encrypt_attachment_full(plaintext: &[u8]) -> (r: Result<EncryptedAttachmentData, AttachmentError>)
    ensures
        match r {
            Ok(d) => {
                &&& d.ciphertext@.len() == plaintext@.len()
                &&& d.sha256_b64@ == std_b64_encode_view(sha256_view(d.ciphertext@))
                &&& spec_decrypt_attachment(
                    d.ciphertext@,
                    d.key_b64url@,
                    d.iv_b64@,
                    Some(d.sha256_b64@),
                ) == Ok::<Seq<u8>, AttachmentError>(plaintext@)
                &&& exists|key: Seq<u8>, iv: Seq<u8>|
                    {
                        &&& url_safe_b64_decode_view(d.key_b64url@) == Some(key)
                        &&& std_b64_decode_view(d.iv_b64@) == Some(iv)
                        &&& key.len() == 32
                        &&& iv.len() == 16
                        &&& forall|i: int| 8 <= i < 16 ==> iv[i] == 0
                        &&& d.ciphertext@ == aes256_ctr_view(key, iv, plaintext@)
                    }
            },
            Err(e) => e == AttachmentError::Random,
        },
{
    let enc = match encrypt_attachment(plaintext) {
        Ok(e) => e,
        Err(e) => return Err(e),
    };
    let hash = sha256(enc.ciphertext.as_slice());
    let key_b64url = url_safe_b64_encode(enc.key.as_slice());
    let iv_b64 = std_b64_encode(enc.iv.as_slice());
    let sha256_b64 = std_b64_encode(hash.as_slice());
    let d = EncryptedAttachmentData { ciphertext: enc.ciphertext, key_b64url, iv_b64, sha256_b64 };
    assert(url_safe_b64_decode_view(d.key_b64url@) == Some(enc.key@));
    assert(std_b64_decode_view(d.iv_b64@) == Some(enc.iv@));
    Ok(d)
}

/// An encrypted attachment uploaded to the media repository: what the
/// Matrix `file` object of a message holds.
#[derive(Debug, Clone)]
pub struct EncryptedAttachment {
    /// `mxc://` URI of the uploaded ciphertext.
    pub mxc_uri: String,
    pub key_b64url: String,
    pub iv_b64: String,
    pub sha256_b64: String,
}

impl EncryptedAttachment {
    /// The key material of an encrypted upload, with the URI it was
    /// uploaded to.
    pub fn from_upload(mxc_uri: String, data: EncryptedAttachmentData) -> (r: EncryptedAttachment)
        ensures
            r.mxc_uri == mxc_uri,
            r.key_b64url == data.key_b64url,
            r.iv_b64 == data.iv_b64,
            r.sha256_b64 == data.sha256_b64,
    {
        EncryptedAttachment {
            mxc_uri,
            key_b64url: data.key_b64url,
            iv_b64: data.iv_b64,
            sha256_b64: data.sha256_b64,
        }
    }
}

} // verus!
