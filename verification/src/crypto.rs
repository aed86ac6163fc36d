//! Encryption of saved states: a key is derived from a passphrase, and a random
//! nonce stands before the ciphertext.

use vstd::prelude::*;

use crate::text;
use crate::text::Chars;

verus! {

/// Bytes of a nonce.
pub const NONCE_BYTES: usize = 12;

/// Bytes that a ciphertext is longer than its plaintext.
pub const TAG_BYTES: usize = 16;

/// Longest plaintext, in bytes.
pub const MAX_PLAINTEXT_BYTES: u64 = 68_719_476_736;

/// The SHA-256 digest of bytes.
pub uninterp spec fn sha256(data: Seq<u8>) -> Seq<u8>;

/// The AES-256-GCM ciphertext, with its tag behind it, of a plaintext under a
/// key and a nonce.
pub uninterp spec fn sealed(key: Seq<u8>, nonce: Seq<u8>, plaintext: Seq<u8>) -> Seq<u8>;

/// The plaintext of an AES-256-GCM ciphertext with its tag, where the tag is
/// the right one.
pub uninterp spec fn opened(key: Seq<u8>, nonce: Seq<u8>, ciphertext: Seq<u8>) -> Option<Seq<u8>>;

/// Why bytes are no UTF-8, as the standard library says it.
pub uninterp spec fn utf8_fault(bytes: Seq<u8>) -> Chars;

/// `aes_gcm::Error`, which says nothing of what went wrong.
#[verifier::external_type_specification]
#[verifier::external_body]
pub struct ExCipherError(aes_gcm::Error);

/// `getrandom::Error`, which names a failure of the system.
#[verifier::external_type_specification]
#[verifier::external_body]
pub struct ExRandomError(getrandom::Error);

/// `sha2::Sha256` digests any bytes into thirty-two; which ones depends on the
/// bytes alone.
#[verifier::external_body]
fn digest(data: &[u8]) -> (r: Vec<u8>)
    ensures
        r@ == sha256(data@),
        r@.len() == 32,
{
    let mut hasher = <sha2::Sha256 as sha2::Digest>::new();
    sha2::Digest::update(&mut hasher, data);
    sha2::Digest::finalize(hasher).to_vec()
}

/// AES-256-GCM encryption, by `aes_gcm::Aes256Gcm`: what it yields depends on
/// key, nonce and plaintext alone, is sixteen bytes longer than the plaintext,
/// and is turned back into the plaintext by the same key and nonce. It fails on
/// a plaintext of more than 2^36 bytes only.
#[verifier::external_body]
fn seal(key: &[u8], nonce: &[u8], plaintext: &[u8]) -> (r: Result<Vec<u8>, aes_gcm::Error>)
    requires
        key@.len() == 32,
        nonce@.len() == NONCE_BYTES,
    ensures
        (r is Ok) == (plaintext@.len() <= MAX_PLAINTEXT_BYTES),
        r is Ok ==> r->Ok_0@ == sealed(key@, nonce@, plaintext@),
        r is Ok ==> r->Ok_0@.len() == plaintext@.len() + TAG_BYTES,
        r is Ok ==> opened(key@, nonce@, r->Ok_0@) == Some(plaintext@),
{
    let cipher = <aes_gcm::Aes256Gcm as aes_gcm::KeyInit>::new_from_slice(key).map_err(
        |_| aes_gcm::Error,
    )?;
    aes_gcm::aead::Aead::encrypt(&cipher, aes_gcm::Nonce::from_slice(nonce), plaintext)
}

/// AES-256-GCM decryption, by `aes_gcm::Aes256Gcm`: whether it succeeds and
/// what it yields depends on key, nonce and ciphertext alone.
#[verifier::external_body]
fn unseal(key: &[u8], nonce: &[u8], ciphertext: &[u8]) -> (r: Result<Vec<u8>, aes_gcm::Error>)
    requires
        key@.len() == 32,
        nonce@.len() == NONCE_BYTES,
    ensures
        (r is Ok) == (opened(key@, nonce@, ciphertext@) is Some),
        r is Ok ==> opened(key@, nonce@, ciphertext@) == Some(r->Ok_0@),
{
    let cipher = <aes_gcm::Aes256Gcm as aes_gcm::KeyInit>::new_from_slice(key).map_err(
        |_| aes_gcm::Error,
    )?;
    aes_gcm::aead::Aead::decrypt(&cipher, aes_gcm::Nonce::from_slice(nonce), ciphertext)
}

/// `getrandom::getrandom` fills a nonce with random bytes. Which bytes, and
/// whether the system has any to give, is not for this module to say.
#[verifier::external_body]
fn random_nonce() -> (r: Result<Vec<u8>, getrandom::Error>)
    ensures
        r is Ok ==> r->Ok_0@.len() == NONCE_BYTES,
{
    let mut nonce = vec![0u8; NONCE_BYTES];
    getrandom::getrandom(&mut nonce)?;
    Ok(nonce)
}

/// The text of a `getrandom::Error`, which the system words.
#[verifier::external_body]
fn random_error_text(error: &getrandom::Error) -> String {
    format!("{}", error)
}

/// `String::from_utf8` takes bytes that are UTF-8 and no others; why it does not
/// take bytes depends on them alone.
#[verifier::external_body]
fn decode_text(bytes: Vec<u8>) -> (r: Result<String, String>)
    ensures
        (r is Ok) == vstd::utf8::valid_utf8(bytes@),
        r is Ok ==> r->Ok_0@ == vstd::utf8::decode_utf8(bytes@),
        r is Err ==> r->Err_0@ == utf8_fault(bytes@),
{
    String::from_utf8(bytes).map_err(|e| e.to_string())
}

/// The key of a passphrase.
pub open spec fn key_of(passphrase: Chars) -> Seq<u8> {
    sha256(vstd::utf8::encode_utf8(passphrase))
}

/// The encrypted form of data, or why there is none.
pub open spec fn encrypted(data: Seq<u8>, passphrase: Chars, nonce: Seq<u8>) -> Result<
    Seq<u8>,
    Chars,
> {
    if data.len() <= MAX_PLAINTEXT_BYTES {
        Ok(nonce + sealed(key_of(passphrase), nonce, data))
    } else {
        Err("Encryption failed: aead::Error"@)
    }
}

/// The data of an encrypted form, or why there is none.
pub open spec fn decrypted(data: Seq<u8>, passphrase: Chars) -> Result<Seq<u8>, Chars> {
    if data.len() < NONCE_BYTES + 1 {
        Err("Ciphertext too short"@)
    } else {
        match opened(
            key_of(passphrase),
            data.take(NONCE_BYTES as int),
            data.skip(NONCE_BYTES as int),
        ) {
            Some(plaintext) => Ok(plaintext),
            None => Err("Decryption failed: aead::Error"@),
        }
    }
}

/// The text of an encrypted form, or why there is none.
pub open spec fn decrypted_text(data: Seq<u8>, passphrase: Chars) -> Result<Chars, Chars> {
    match decrypted(data, passphrase) {
        Err(e) => Err(e),
        Ok(bytes) => if vstd::utf8::valid_utf8(bytes) {
            Ok(vstd::utf8::decode_utf8(bytes))
        } else {
            Err("Decrypted state is not valid UTF-8: "@ + utf8_fault(bytes))
        },
    }
}

/// Model of a result that is bytes.
pub open spec fn bytes_outcome(r: Result<Vec<u8>, String>) -> Result<Seq<u8>, Chars> {
    match r {
        Ok(bytes) => Ok(bytes@),
        Err(message) => Err(message@),
    }
}

/// Encrypts data under a passphrase with a given nonce. What comes out is
/// decrypted to the data by the same passphrase.
pub fn encrypt_with(data: &[u8], key_str: &str, nonce: Vec<u8>) -> (r: Result<Vec<u8>, String>)
    requires
        nonce.len() == NONCE_BYTES,
    ensures
        bytes_outcome(r) == encrypted(data@, key_str@, nonce@),
        r matches Ok(out) ==> decrypted(out@, key_str@) == Ok::<Seq<u8>, Chars>(data@),
{
    let key = digest(key_str.as_bytes());
    match seal(key.as_slice(), nonce.as_slice(), data) {
        Err(_) => Err("Encryption failed: aead::Error".to_owned()),
        Ok(ciphertext) => {
            let ghost head = nonce@;
            let ghost tail = ciphertext@;
            let mut out = nonce;
            let mut rest = ciphertext;
            out.append(&mut rest);
            proof {
                assert(out@ == head + tail);
                assert(out@.take(NONCE_BYTES as int) =~= head);
                assert(out@.skip(NONCE_BYTES as int) =~= tail);
            }
            Ok(out)
        },
    }
}

/// Encrypts data under a passphrase with a random nonce. What comes out is
/// decrypted to the data by the same passphrase. It can fail where the system
/// has no random bytes to give.
pub fn encrypt_data(data: &[u8], key_str: &str) -> (r: Result<Vec<u8>, String>)
    ensures
        match r {
            Ok(out) => decrypted(out@, key_str@) == Ok::<Seq<u8>, Chars>(data@) && exists|
                nonce: Seq<u8>,
            |
                nonce.len() == NONCE_BYTES && #[trigger] encrypted(data@, key_str@, nonce) == Ok::<
                    Seq<u8>,
                    Chars,
                >(out@),
            Err(message) => "Failed to generate nonce: "@.is_prefix_of(message@) || (data@.len()
                > MAX_PLAINTEXT_BYTES && message@ == "Encryption failed: aead::Error"@),
        },
{
    match random_nonce() {
        Err(e) => {
            let message = "Failed to generate nonce: ".to_owned().concat(
                random_error_text(&e).as_str(),
            );
            assert("Failed to generate nonce: "@ =~= message@.take(
                "Failed to generate nonce: "@.len() as int,
            ));
            Err(message)
        },
        Ok(nonce) => encrypt_with(data, key_str, nonce),
    }
}

/// Decrypts what was encrypted under a passphrase.
pub fn decrypt_data(data: &[u8], key_str: &str) -> (r: Result<Vec<u8>, String>)
    ensures
        bytes_outcome(r) == decrypted(data@, key_str@),
{
    if data.len() < NONCE_BYTES + 1 {
        return Err("Ciphertext too short".to_owned());
    }
    let nonce = vstd::slice::slice_subrange(data, 0, NONCE_BYTES);
    let ciphertext = vstd::slice::slice_subrange(data, NONCE_BYTES, data.len());
    proof {
        assert(nonce@ =~= data@.take(NONCE_BYTES as int));
        assert(ciphertext@ =~= data@.skip(NONCE_BYTES as int));
    }
    let key = digest(key_str.as_bytes());
    match unseal(key.as_slice(), nonce, ciphertext) {
        Ok(plaintext) => Ok(plaintext),
        Err(_) => Err("Decryption failed: aead::Error".to_owned()),
    }
}

/// Decrypts a text that was encrypted under a passphrase.
pub fn decrypt_text(data: &[u8], key_str: &str) -> (r: Result<String, String>)
    ensures
        text::outcome(r) == decrypted_text(data@, key_str@),
{
    match decrypt_data(data, key_str) {
        Err(e) => Err(e),
        Ok(bytes) => match decode_text(bytes) {
            Ok(text) => Ok(text),
            Err(fault) => Err(
                "Decrypted state is not valid UTF-8: ".to_owned().concat(fault.as_str()),
            ),
        },
    }
}

} // verus!
