use vstd::prelude::*;
use vstd::slice::slice_subrange;
use vstd::string::StringSliceAdditionalSpecFns;
use vstd::utf8::{decode_utf8, encode_utf8, valid_utf8};
use aes_gcm::aead::{Aead, NewAead};
use rand_core::RngCore;

verus! {

/// Key length of AES-256-GCM, in bytes.
pub const KEY_LEN: usize = 32;

/// Nonce length of AES-256-GCM, in bytes.
pub const NONCE_LEN: usize = 12;

/// Plaintexts must be shorter than this, in bytes: AES-GCM's 32-bit block
/// counter runs out at 2^36 - 16 bytes.
pub const SEAL_LIMIT: u64 = 68719476720;

/// Ciphertexts (with their tag) must be shorter than this, in bytes.
pub const OPEN_LIMIT: u64 = 68719476736;

/// Length of the authentication tag that follows a ciphertext, in bytes.
pub const TAG_LEN: usize = 16;

/// Why local data could not be sealed or opened.
#[derive(Clone, Copy, PartialEq, Eq, Structural, Debug)]
pub enum CryptoError {
    InvalidKeyLength,
    InvalidNonceLength,
    /// Shorter than a nonce.
    DataTooShort,
    /// Longer than AES-GCM handles.
    DataTooLong,
    /// The operating system's random generator failed.
    RandomnessUnavailable,
    /// Wrong key, or data that was tampered with.
    DecryptionFailed,
    /// The plaintext is not UTF-8.
    InvalidUtf8,
}

/// AES-256-GCM ciphertext (with its tag) of `plaintext` under `key` and `nonce`.
pub uninterp spec fn aes256gcm_seal(key: Seq<u8>, nonce: Seq<u8>, plaintext: Seq<u8>) -> Seq<u8>;

/// AES-256-GCM authenticated decryption: `None` when the tag does not verify.
pub uninterp spec fn aes256gcm_open(key: Seq<u8>, nonce: Seq<u8>, ciphertext: Seq<u8>) -> Option<Seq<u8>>;

/// Relies on `aes_gcm::Aes256Gcm` through `aead::Aead::encrypt`: below the
/// counter limit it succeeds, appending a 16-byte tag to the ciphertext.
#[verifier::external_body]
fn aes_seal(key: &[u8], nonce: &[u8], plaintext: &[u8]) -> (r: Option<Vec<u8>>)
    requires
        key@.len() == KEY_LEN,
        nonce@.len() == NONCE_LEN,
        plaintext@.len() < SEAL_LIMIT,
    ensures
        r is Some,
        r matches Some(c) ==> c@ == aes256gcm_seal(key@, nonce@, plaintext@),
        r matches Some(c) ==> c@.len() == plaintext@.len() + TAG_LEN,
{
    let cipher = aes_gcm::Aes256Gcm::new(aes_gcm::Key::from_slice(key));
    cipher.encrypt(aes_gcm::Nonce::from_slice(nonce), plaintext).ok()
}

/// Relies on `aes_gcm::Aes256Gcm` through `aead::Aead::decrypt`, which undoes
/// `encrypt` under the same key and nonce.
#[verifier::external_body]
fn aes_open(key: &[u8], nonce: &[u8], ciphertext: &[u8]) -> (r: Option<Vec<u8>>)
    requires
        key@.len() == KEY_LEN,
        nonce@.len() == NONCE_LEN,
        ciphertext@.len() < OPEN_LIMIT,
    ensures
        match r {
            Some(p) => aes256gcm_open(key@, nonce@, ciphertext@) == Some(p@),
            None => aes256gcm_open(key@, nonce@, ciphertext@) is None,
        },
        forall|p: Seq<u8>|
            #[trigger] aes256gcm_seal(key@, nonce@, p) == ciphertext@ ==> r is Some && r->Some_0@
                == p,
{
    let cipher = aes_gcm::Aes256Gcm::new(aes_gcm::Key::from_slice(key));
    cipher.decrypt(aes_gcm::Nonce::from_slice(nonce), ciphertext).ok()
}

/// Relies on `rand::rngs::OsRng` (`rand_core::RngCore::try_fill_bytes`):
/// fills the buffer from the operating system's generator, keeping its
/// length; `false` when the generator failed.
#[verifier::external_body]
fn fill_random(buf: &mut Vec<u8>) -> (r: bool)
    ensures
        final(buf)@.len() == old(buf)@.len(),
{
    rand::rngs::OsRng.try_fill_bytes(buf.as_mut_slice()).is_ok()
}

/// Relies on `String::from_utf8`: it accepts exactly the valid UTF-8 byte
/// sequences and decodes them.
#[verifier::external_body]
fn utf8_string(bytes: Vec<u8>) -> (r: Option<String>)
    ensures
        r is Some <==> valid_utf8(bytes@),
        r matches Some(s) ==> s@ == decode_utf8(bytes@),
{
    String::from_utf8(bytes).ok()
}

/// Seals `data` under `key` with a given nonce: the AES-256-GCM ciphertext
/// followed by its tag. The nonce is not part of the result.
pub fn seal_with_nonce(data: &String, key_bytes: &Vec<u8>, nonce: &Vec<u8>) -> (r: Result<Vec<u8>, CryptoError>)
    ensures
        key_bytes@.len() != KEY_LEN ==> r == Err::<Vec<u8>, CryptoError>(CryptoError::InvalidKeyLength),
        key_bytes@.len() == KEY_LEN && nonce@.len() != NONCE_LEN ==> r == Err::<Vec<u8>, CryptoError>(
            CryptoError::InvalidNonceLength,
        ),
        key_bytes@.len() == KEY_LEN && nonce@.len() == NONCE_LEN && encode_utf8(data@).len()
            >= SEAL_LIMIT ==> r == Err::<Vec<u8>, CryptoError>(CryptoError::DataTooLong),
        key_bytes@.len() == KEY_LEN && nonce@.len() == NONCE_LEN && encode_utf8(data@).len()
            < SEAL_LIMIT ==> (r matches Ok(v) && v@ == aes256gcm_seal(
            key_bytes@,
            nonce@,
            encode_utf8(data@),
        ) && v@.len() == encode_utf8(data@).len() + TAG_LEN),
{
    if key_bytes.len() != KEY_LEN {
        return Err(CryptoError::InvalidKeyLength);
    }
    if nonce.len() != NONCE_LEN {
        return Err(CryptoError::InvalidNonceLength);
    }
    let plaintext = data.as_str().as_bytes();
    if plaintext.len() as u64 >= SEAL_LIMIT {
        return Err(CryptoError::DataTooLong);
    }
    match aes_seal(key_bytes.as_slice(), nonce.as_slice(), plaintext) {
        Some(sealed) => Ok(sealed),
        None => Err(CryptoError::DataTooLong),
    }
}

/// Seals `data` under a 32-byte key with a fresh random nonce: the result is
/// the ciphertext followed by its tag; the nonce is not returned.
pub fn encrypt_local_data(data: String, key_bytes: Vec<u8>) -> (r: Result<Vec<u8>, CryptoError>)
    ensures
        key_bytes@.len() != KEY_LEN <==> r == Err::<Vec<u8>, CryptoError>(CryptoError::InvalidKeyLength),
        key_bytes@.len() == KEY_LEN && encode_utf8(data@).len() >= SEAL_LIMIT ==> r == Err::<
            Vec<u8>,
            CryptoError,
        >(CryptoError::DataTooLong),
        key_bytes@.len() == KEY_LEN && encode_utf8(data@).len() < SEAL_LIMIT ==> (r is Ok || r
            == Err::<Vec<u8>, CryptoError>(CryptoError::RandomnessUnavailable)),
        r matches Ok(v) ==> v@.len() == encode_utf8(data@).len() + TAG_LEN && exists|n: Seq<u8>|
            n.len() == NONCE_LEN && v@ == aes256gcm_seal(key_bytes@, n, encode_utf8(data@)),
{
    if key_bytes.len() != KEY_LEN {
        return Err(CryptoError::InvalidKeyLength);
    }
    if data.as_str().as_bytes().len() as u64 >= SEAL_LIMIT {
        return Err(CryptoError::DataTooLong);
    }
    let mut nonce: Vec<u8> = Vec::new();
    while nonce.len() < NONCE_LEN
        invariant
            nonce@.len() <= NONCE_LEN,
        decreases NONCE_LEN - nonce@.len(),
    {
        nonce.push(0);
    }
    if !fill_random(&mut nonce) {
        return Err(CryptoError::RandomnessUnavailable);
    }
    let r = seal_with_nonce(&data, &key_bytes, &nonce);
    if let Ok(v) = &r {
        assert(v@ == aes256gcm_seal(key_bytes@, nonce@, encode_utf8(data@)));
    }
    r
}

/// Turns opened plaintext into text.
pub fn decode_plaintext(opened: Option<Vec<u8>>) -> (r: Result<String, CryptoError>)
    ensures
        match opened {
            None => r == Err::<String, CryptoError>(CryptoError::DecryptionFailed),
            Some(p) => if valid_utf8(p@) {
                r matches Ok(s) && s@ == decode_utf8(p@)
            } else {
                r == Err::<String, CryptoError>(CryptoError::InvalidUtf8)
            },
        },
{
    match opened {
        None => Err(CryptoError::DecryptionFailed),
        Some(p) => match utf8_string(p) {
            Some(s) => Ok(s),
            None => Err(CryptoError::InvalidUtf8),
        },
    }
}

/// What opening `data` under `key` gives: the first twelve bytes are the nonce.
pub open spec fn opened_with(key: Seq<u8>, data: Seq<u8>) -> Option<Seq<u8>> {
    aes256gcm_open(key, nonce_part(data), sealed_part(data))
}

pub open spec fn nonce_part(data: Seq<u8>) -> Seq<u8> {
    data.subrange(0, NONCE_LEN as int)
}

pub open spec fn sealed_part(data: Seq<u8>) -> Seq<u8> {
    data.subrange(NONCE_LEN as int, data.len() as int)
}

/// Opens data laid out as a 12-byte nonce followed by the ciphertext and its
/// tag, under a 32-byte key. Text sealed under that key and nonce opens again.
pub fn decrypt_local_data(encrypted_data: Vec<u8>, key_bytes: Vec<u8>) -> (r: Result<String, CryptoError>)
    ensures
        key_bytes@.len() != KEY_LEN ==> r == Err::<String, CryptoError>(CryptoError::InvalidKeyLength),
        key_bytes@.len() == KEY_LEN && encrypted_data@.len() < NONCE_LEN ==> r == Err::<String, CryptoError>(
            CryptoError::DataTooShort,
        ),
        key_bytes@.len() == KEY_LEN && encrypted_data@.len() >= NONCE_LEN + OPEN_LIMIT ==> r == Err::<
            String,
            CryptoError,
        >(CryptoError::DataTooLong),
        key_bytes@.len() == KEY_LEN && NONCE_LEN <= encrypted_data@.len() < NONCE_LEN + OPEN_LIMIT
            ==> match opened_with(key_bytes@, encrypted_data@) {
            None => r == Err::<String, CryptoError>(CryptoError::DecryptionFailed),
            Some(p) => if valid_utf8(p) {
                r matches Ok(s) && s@ == decode_utf8(p)
            } else {
                r == Err::<String, CryptoError>(CryptoError::InvalidUtf8)
            },
        },
        key_bytes@.len() == KEY_LEN && NONCE_LEN <= encrypted_data@.len() < NONCE_LEN + OPEN_LIMIT
            ==> forall|text: Seq<char>|
            #[trigger] aes256gcm_seal(key_bytes@, nonce_part(encrypted_data@), encode_utf8(text))
                == sealed_part(encrypted_data@) ==> (r matches Ok(s) && s@ == text),
{
    if key_bytes.len() != KEY_LEN {
        return Err(CryptoError::InvalidKeyLength);
    }
    if encrypted_data.len() < NONCE_LEN {
        return Err(CryptoError::DataTooShort);
    }
    if (encrypted_data.len() - NONCE_LEN) as u64 >= OPEN_LIMIT {
        return Err(CryptoError::DataTooLong);
    }
    let all = encrypted_data.as_slice();
    let nonce = slice_subrange(all, 0, NONCE_LEN);
    let ciphertext = slice_subrange(all, NONCE_LEN, all.len());
    let opened = aes_open(key_bytes.as_slice(), nonce, ciphertext);
    let r = decode_plaintext(opened);
    assert forall|text: Seq<char>|
        #[trigger] aes256gcm_seal(key_bytes@, nonce_part(encrypted_data@), encode_utf8(text))
            == sealed_part(encrypted_data@) implies (r matches Ok(s) && s@ == text) by {
        assert(aes256gcm_seal(key_bytes@, nonce@, encode_utf8(text)) == ciphertext@);
        vstd::utf8::encode_utf8_valid_utf8(text);
        vstd::utf8::encode_utf8_decode_utf8(text);
    }
    r
}

} // verus!
