use vstd::prelude::*;
use vstd::utf8::*;
use aes_gcm::aead::{Aead, AeadCore, KeyInit, OsRng};
use aes_gcm::{Aes256Gcm, Key, Nonce};
use base64::Engine;
use rand::RngCore;

verus! {

/// Longest plaintext, in bytes, that AES-256-GCM accepts (`aes_gcm::P_MAX`, 2^36).
pub const AES_GCM_MAX_PLAINTEXT: u64 = 0x10_0000_0000;

#[verifier::external_type_specification]
#[verifier::external_body]
pub struct ExAeadError(aes_gcm::aead::Error);

#[verifier::external_type_specification]
#[verifier::external_body]
pub struct ExDecodeError(base64::DecodeError);

#[verifier::external_type_specification]
#[verifier::external_body]
pub struct ExFromUtf8Error(std::string::FromUtf8Error);

/// The AES-256-GCM ciphertext (with its 16-byte tag appended) of `plaintext` under `key` and
/// `nonce`, with no associated data.
pub uninterp spec fn aes256gcm_seal(key: Seq<u8>, nonce: Seq<u8>, plaintext: Seq<u8>) -> Seq<u8>;

/// What AES-256-GCM decryption of `ciphertext` under `key` and `nonce` gives: the plaintext, or
/// `None` where the tag does not authenticate the message.
pub uninterp spec fn aes256gcm_open(key: Seq<u8>, nonce: Seq<u8>, ciphertext: Seq<u8>) -> Option<Seq<u8>>;

/// The character of the standard base64 alphabet (RFC 4648, section 4) for the 6-bit value `v`.
pub open spec fn base64_symbol(v: int) -> char {
    if v < 26 {
        (65 + v) as char
    } else if v < 52 {
        (97 + (v - 26)) as char
    } else if v < 62 {
        (48 + (v - 52)) as char
    } else if v == 62 {
        '+'
    } else {
        '/'
    }
}

/// The standard, padded base64 text of `bytes` (RFC 4648, section 4): each group of three bytes
/// becomes four symbols of six bits each; a final group of one or two bytes is filled with zero
/// bits and padded with `=` to four characters.
pub open spec fn base64_encode_spec(bytes: Seq<u8>) -> Seq<char>
    decreases bytes.len(),
{
    if bytes.len() == 0 {
        Seq::empty()
    } else if bytes.len() == 1 {
        seq![base64_symbol((bytes[0] as int) / 4), base64_symbol(((bytes[0] as int) % 4) * 16), '=', '=']
    } else if bytes.len() == 2 {
        seq![
            base64_symbol((bytes[0] as int) / 4),
            base64_symbol(((bytes[0] as int) % 4) * 16 + (bytes[1] as int) / 16),
            base64_symbol(((bytes[1] as int) % 16) * 4),
            '=',
        ]
    } else {
        seq![
            base64_symbol((bytes[0] as int) / 4),
            base64_symbol(((bytes[0] as int) % 4) * 16 + (bytes[1] as int) / 16),
            base64_symbol(((bytes[1] as int) % 16) * 4 + (bytes[2] as int) / 64),
            base64_symbol((bytes[2] as int) % 64),
        ] + base64_encode_spec(bytes.skip(3))
    }
}

/// The bytes that the standard, padded base64 text `text` stands for, `None` where it is not
/// valid base64.
pub uninterp spec fn base64_decode_spec(text: Seq<char>) -> Option<Seq<u8>>;

/// Whether `s` has the shape of a hyphenated UUID as `uuid::Uuid`'s `Display` writes it:
/// 36 characters, lowercase hexadecimal digits in groups of 8-4-4-4-12 separated by `-`.
pub open spec fn is_hyphenated_uuid(s: Seq<char>) -> bool {
    &&& s.len() == 36
    &&& forall|i: int|
        0 <= i < 36 ==> if i == 8 || i == 13 || i == 18 || i == 23 {
            #[trigger] s[i] == '-'
        } else {
            ('0' <= s[i] && s[i] <= '9') || ('a' <= s[i] && s[i] <= 'f')
        }
}

/// Encrypts with `aes_gcm::Aes256Gcm` (`aead::Aead::encrypt`, no associated data).
/// Trusted: the call fails exactly when the plaintext is longer than `aes_gcm::P_MAX`, as the
/// crate's source checks; otherwise it gives the named sealing of key, nonce and plaintext, which
/// is the plaintext's length plus the 16-byte tag.
#[verifier::external_body]
pub(crate) fn aes256gcm_encrypt(key: &[u8; 32], nonce: &[u8], plaintext: &[u8]) -> (r: Result<
    Vec<u8>,
    aes_gcm::aead::Error,
>)
    requires
        nonce@.len() == 12,
    ensures
        r is Ok <==> plaintext@.len() <= AES_GCM_MAX_PLAINTEXT,
        r matches Ok(c) ==> c@ == aes256gcm_seal(key@, nonce@, plaintext@) && c@.len()
            == plaintext@.len() + 16,
{
    let cipher = Aes256Gcm::new(Key::<Aes256Gcm>::from_slice(key));
    cipher.encrypt(Nonce::from_slice(nonce), plaintext)
}

/// Decrypts with `aes_gcm::Aes256Gcm` (`aead::Aead::decrypt`, no associated data).
/// Trusted: the result is the named opening of key, nonce and ciphertext; a ciphertext shorter
/// than the 16-byte tag is refused and a success is 16 bytes shorter than the ciphertext, as the
/// crate's source shows; and opening what was sealed under the same key and nonce gives the
/// plaintext back (the cipher's correctness).
#[verifier::external_body]
pub(crate) fn aes256gcm_decrypt(key: &[u8; 32], nonce: &[u8], ciphertext: &[u8]) -> (r: Result<
    Vec<u8>,
    aes_gcm::aead::Error,
>)
    requires
        nonce@.len() == 12,
    ensures
        r is Ok <==> aes256gcm_open(key@, nonce@, ciphertext@) is Some,
        r matches Ok(p) ==> aes256gcm_open(key@, nonce@, ciphertext@) == Some(p@),
        ciphertext@.len() < 16 ==> r is Err,
        r matches Ok(p) ==> p@.len() + 16 == ciphertext@.len(),
        forall|p: Seq<u8>| #[trigger] aes256gcm_seal(key@, nonce@, p) == ciphertext@ && p.len() <= AES_GCM_MAX_PLAINTEXT ==> r is Ok && r->Ok_0@ == p,
{
    let cipher = Aes256Gcm::new(Key::<Aes256Gcm>::from_slice(key));
    cipher.decrypt(Nonce::from_slice(nonce), ciphertext)
}

/// The text of an `aead::Error` (its `Display`). Trusted: the crate writes `aead::Error`.
#[verifier::external_body]
pub(crate) fn aead_error_text(e: &aes_gcm::aead::Error) -> (s: String)
    ensures
        s@ == "aead::Error"@,
{
    e.to_string()
}

/// `base64::engine::general_purpose::STANDARD.encode`. Trusted: the result is the standard,
/// padded encoding of the bytes that `base64_encode_spec` defines; the bound is the one under which the crate computes the output length
/// without overflow (it panics beyond it).
#[verifier::external_body]
pub(crate) fn base64_encode(bytes: &[u8]) -> (r: String)
    requires
        (bytes@.len() + 2) / 3 * 4 <= usize::MAX,
    ensures
        r@ == base64_encode_spec(bytes@),
{
    base64::engine::general_purpose::STANDARD.encode(bytes)
}

/// `base64::engine::general_purpose::STANDARD.decode`. Trusted: the result is the named
/// decoding of the text, and decoding what was encoded gives the bytes back.
#[verifier::external_body]
pub(crate) fn base64_decode(text: &str) -> (r: Result<Vec<u8>, base64::DecodeError>)
    ensures
        r is Ok <==> base64_decode_spec(text@) is Some,
        r matches Ok(b) ==> base64_decode_spec(text@) == Some(b@),
        forall|b: Seq<u8>| #[trigger] base64_encode_spec(b) == text@ ==> r is Ok && r->Ok_0@ == b,
{
    base64::engine::general_purpose::STANDARD.decode(text)
}

/// `String::from_utf8`. Trusted: it succeeds exactly on valid UTF-8 and then holds the
/// characters that the bytes encode, as std documents.
#[verifier::external_body]
pub(crate) fn string_from_utf8(bytes: Vec<u8>) -> (r: Result<String, std::string::FromUtf8Error>)
    ensures
        r is Ok <==> valid_utf8(bytes@),
        r matches Ok(s) ==> s@ == decode_utf8(bytes@),
{
    String::from_utf8(bytes)
}

/// `rand::thread_rng().next_u32()`. Nothing is promised of the value.
#[verifier::external_body]
pub(crate) fn random_u32() -> u32 {
    rand::thread_rng().next_u32()
}

/// Thirty-two bytes from `rand::thread_rng().fill_bytes`. Nothing is promised of them.
#[verifier::external_body]
pub(crate) fn random_key_bytes() -> [u8; 32] {
    let mut key = [0u8; 32];
    rand::thread_rng().fill_bytes(&mut key);
    key
}

/// `Aes256Gcm::generate_nonce(&mut OsRng)`. Trusted: twelve bytes (the cipher's nonce size);
/// nothing is promised of their values.
#[verifier::external_body]
pub(crate) fn random_nonce() -> (r: Vec<u8>)
    ensures
        r@.len() == 12,
{
    Aes256Gcm::generate_nonce(&mut OsRng).to_vec()
}

/// `uuid::Uuid::new_v4().to_string()`. Trusted: the hyphenated form that the crate's `Display`
/// writes; the value itself is random and nothing more is promised of it.
#[verifier::external_body]
pub(crate) fn new_uuid_text() -> (r: String)
    ensures
        is_hyphenated_uuid(r@),
{
    uuid::Uuid::new_v4().to_string()
}

} // verus!
