use vstd::prelude::*;
use vstd::utf8::*;
use crate::foreign::{
    aead_error_text, aes256gcm_decrypt, aes256gcm_encrypt, aes256gcm_open, aes256gcm_seal,
    base64_decode, base64_decode_spec, base64_encode, base64_encode_spec, random_key_bytes,
    random_nonce, random_u32, string_from_utf8, AES_GCM_MAX_PLAINTEXT,
};
use crate::text::{append_bytes, chars_of, join2, push_char, result_view};

verus! {

/// Length of a generated password.
pub const PASSWORD_LENGTH: usize = 24;

/// Number of characters that a generated password draws from.
pub const PASSWORD_CHARSET_LEN: u32 = 76;

/// The characters that a generated password draws from.
pub open spec fn password_charset() -> Seq<char> {
    "ABCDEFGHIJKLMNOPQRSTUVWXYZabcdefghijklmnopqrstuvwxyz0123456789!@#$%^&*()-_=+"@
}

/// The password that the random draws `draws` select: character `i` is the charset entry at
/// `draws[i]` modulo the charset's size.
pub open spec fn password_for_draws(draws: Seq<u32>) -> Seq<char> {
    Seq::new(draws.len(), |i: int| password_charset()[(draws[i] % PASSWORD_CHARSET_LEN) as int])
}

/// The bytes of a sealed secret: the nonce followed by the AES-256-GCM ciphertext (tag included).
pub open spec fn sealed_bytes(key: Seq<u8>, nonce: Seq<u8>, plaintext: Seq<u8>) -> Seq<u8> {
    nonce + aes256gcm_seal(key, nonce, plaintext)
}

/// The stored form of a secret: the base64 text of its sealed bytes.
pub open spec fn sealed_payload(key: Seq<u8>, nonce: Seq<u8>, plaintext: Seq<u8>) -> Seq<char> {
    base64_encode_spec(sealed_bytes(key, nonce, plaintext))
}

/// Whether a plaintext of `n` bytes can be sealed and encoded without exceeding the machine's
/// address range (or is too long for the cipher, which then refuses it).
pub open spec fn payload_encodable(n: nat) -> bool {
    n > AES_GCM_MAX_PLAINTEXT || (n + 30) / 3 * 4 <= usize::MAX
}

/// What decrypting the stored payload `text` under `key` gives, with the error text of each step.
pub open spec fn decrypt_outcome(key: Seq<u8>, text: Seq<char>) -> Result<Seq<char>, Seq<char>> {
    match base64_decode_spec(text) {
        None => Err("Failed to decode base64 payload"@),
        Some(b) => if b.len() < 12 {
            Err("Invalid encrypted payload length"@)
        } else {
            if b.len() < 28 {
                Err("Decryption failed: "@ + "aead::Error"@)
            } else {
            match aes256gcm_open(key, b.take(12), b.skip(12)) {
                None => Err("Decryption failed: "@ + "aead::Error"@),
                Some(p) => if valid_utf8(p) {
                    Ok(decode_utf8(p))
                } else {
                    Err("Decrypted data is not valid UTF-8"@)
                },
            }
            }
        },
    }
}

/// Holds the 32-byte master key under which secrets are sealed.
pub struct VaultManager {
    master_key: [u8; 32],
}

/// The password that `draws` select (see `password_for_draws`).
pub fn password_from_draws(draws: &[u32]) -> (r: String)
    ensures
        r@ == password_for_draws(draws@),
{
    let charset = chars_of("ABCDEFGHIJKLMNOPQRSTUVWXYZabcdefghijklmnopqrstuvwxyz0123456789!@#$%^&*()-_=+");
    proof {
        reveal_strlit("ABCDEFGHIJKLMNOPQRSTUVWXYZabcdefghijklmnopqrstuvwxyz0123456789!@#$%^&*()-_=+");
    }
    assert(charset@.len() == 76);
    let mut r = String::new();
    let mut i: usize = 0;
    while i < draws.len()
        invariant
            i <= draws.len(),
            charset@ == password_charset(),
            charset@.len() == 76,
            r@ == password_for_draws(draws@.take(i as int)),
        decreases draws.len() - i,
    {
        let idx = (draws[i] % PASSWORD_CHARSET_LEN) as usize;
        push_char(&mut r, charset[idx]);
        assert(draws@.take(i + 1).drop_last() == draws@.take(i as int));
        assert(r@ == password_for_draws(draws@.take(i + 1)));
        i = i + 1;
    }
    assert(draws@.take(draws.len() as int) == draws@);
    r
}

/// Decodes a base64 master key; `None` unless it decodes to exactly 32 bytes.
pub fn decode_master_key(encoded: &str) -> (r: Option<[u8; 32]>)
    ensures
        r is Some <==> (base64_decode_spec(encoded@) matches Some(b) && b.len() == 32),
        r matches Some(k) ==> base64_decode_spec(encoded@) == Some(k@),
        forall|k: Seq<u8>|
            k.len() == 32 && #[trigger] base64_encode_spec(k) == encoded@ ==> r is Some && r->0@ == k,
{
    match base64_decode(encoded) {
        Err(_) => None,
        Ok(decoded) => {
            if decoded.len() == 32 {
                let mut key = [0u8; 32];
                let mut i: usize = 0;
                while i < 32
                    invariant
                        i <= 32,
                        decoded@.len() == 32,
                        forall|j: int| 0 <= j < i ==> key@[j] == decoded@[j],
                    decreases 32 - i,
                {
                    key[i] = decoded[i];
                    i = i + 1;
                }
                assert(key@ == decoded@);
                Some(key)
            } else {
                None
            }
        },
    }
}

/// A 32-byte key that `text` encodes, if it decodes to exactly that.
pub open spec fn decoded_key(text: Seq<char>) -> Option<Seq<u8>> {
    match base64_decode_spec(text) {
        Some(b) => if b.len() == 32 {
            Some(b)
        } else {
            None
        },
        None => None,
    }
}

/// The master key to use, from the value kept in the OS keyring and, failing that, the value of
/// the fallback environment variable; `None` when neither holds a valid key (a new key is then
/// generated).
pub fn master_key_from_sources(keyring_value: Option<&str>, env_value: Option<&str>) -> (r: Option<[u8; 32]>)
    ensures
        r matches Some(k) ==> match keyring_value {
            Some(t) if decoded_key(t@) is Some => decoded_key(t@) == Some(k@),
            _ => env_value matches Some(t) && decoded_key(t@) == Some(k@),
        },
        r is None ==> (keyring_value matches Some(t) ==> decoded_key(t@) is None) && (
        env_value matches Some(t) ==> decoded_key(t@) is None),
        forall|k: Seq<u8>|
            k.len() == 32 && (keyring_value matches Some(t) && #[trigger] base64_encode_spec(k) == t@)
                ==> r is Some && r->0@ == k,
{
    if let Some(t) = keyring_value {
        if let Some(k) = decode_master_key(t) {
            return Some(k);
        }
    }
    if let Some(t) = env_value {
        if let Some(k) = decode_master_key(t) {
            return Some(k);
        }
    }
    None
}

/// The base64 text under which a master key is stored.
pub fn encode_master_key(key: &[u8; 32]) -> (r: String)
    ensures
        r@ == base64_encode_spec(key@),
{
    base64_encode(key.as_slice())
}

/// A fresh random master key.
pub fn new_master_key() -> [u8; 32] {
    random_key_bytes()
}

impl VaultManager {
    /// The master key.
    pub closed spec fn key(&self) -> Seq<u8> {
        self.master_key@
    }

    /// A vault sealing under `key`.
    pub fn from_master_key(key: [u8; 32]) -> (v: Self)
        ensures
            v.key() == key@,
    {
        VaultManager { master_key: key }
    }

    /// Seals `plaintext` under the master key and the given 12-byte nonce and encodes the nonce
    /// and ciphertext as base64.
    pub fn encrypt_with_nonce(&self, plaintext: &str, nonce: &[u8]) -> (r: Result<String, String>)
        requires
            nonce@.len() == 12,
            payload_encodable(encode_utf8(plaintext@).len()),
        ensures
            r is Ok <==> encode_utf8(plaintext@).len() <= AES_GCM_MAX_PLAINTEXT,
            r matches Ok(s) ==> s@ == sealed_payload(self.key(), nonce@, encode_utf8(plaintext@)),
            r is Ok ==> sealed_bytes(self.key(), nonce@, encode_utf8(plaintext@)).len() == 12
                + encode_utf8(plaintext@).len() + 16,
            r matches Err(e) ==> e@ == "Encryption failed: "@ + "aead::Error"@,
    {
        let bytes = plaintext.as_bytes();
        match aes256gcm_encrypt(&self.master_key, nonce, bytes) {
            Err(e) => {
                let t = aead_error_text(&e);
                Err(join2("Encryption failed: ", t.as_str()))
            },
            Ok(ciphertext) => {
                let mut payload: Vec<u8> = Vec::new();
                append_bytes(&mut payload, nonce);
                append_bytes(&mut payload, ciphertext.as_slice());
                assert(payload@ == nonce@ + ciphertext@);
                Ok(base64_encode(payload.as_slice()))
            },
        }
    }

    /// Seals `plaintext` under the master key with a fresh random nonce.
    pub fn encrypt_string(&self, plaintext: &str) -> (r: Result<String, String>)
        requires
            payload_encodable(encode_utf8(plaintext@).len()),
        ensures
            r is Ok <==> encode_utf8(plaintext@).len() <= AES_GCM_MAX_PLAINTEXT,
            r matches Ok(s) ==> exists|nonce: Seq<u8>|
                nonce.len() == 12 && s@ == #[trigger] sealed_payload(
                    self.key(),
                    nonce,
                    encode_utf8(plaintext@),
                ) && sealed_bytes(self.key(), nonce, encode_utf8(plaintext@)).len() == 12
                    + encode_utf8(plaintext@).len() + 16,
            r matches Err(e) ==> e@ == "Encryption failed: "@ + "aead::Error"@,
    {
        let nonce = random_nonce();
        self.encrypt_with_nonce(plaintext, nonce.as_slice())
    }

    /// Opens a payload that `encrypt_string` produced.
    pub fn decrypt_string(&self, encrypted_payload: &str) -> (r: Result<String, String>)
        ensures
            result_view(&r) == decrypt_outcome(self.key(), encrypted_payload@),
            r matches Ok(s) ==> (base64_decode_spec(encrypted_payload@) matches Some(b) && encode_utf8(s@).len()
                + 28 == b.len()),
            forall|nonce: Seq<u8>, p: Seq<char>|
                #[trigger] sealed_payload(self.key(), nonce, encode_utf8(p)) == encrypted_payload@
                    && nonce.len() == 12 && encode_utf8(p).len() <= AES_GCM_MAX_PLAINTEXT
                    ==> r is Ok && r->Ok_0@ == p,
    {
        let decoded = match base64_decode(encrypted_payload) {
            Ok(d) => d,
            Err(_) => {
                return Err("Failed to decode base64 payload".to_owned());
            },
        };
        if decoded.len() < 12 {
            return Err("Invalid encrypted payload length".to_owned());
        }
        let (nonce, ciphertext) = decoded.as_slice().split_at(12);
        assert(nonce@ == decoded@.take(12));
        assert(ciphertext@ == decoded@.skip(12));
        proof {
            assert forall|n: Seq<u8>, p: Seq<char>|
                #[trigger] sealed_payload(self.key(), n, encode_utf8(p)) == encrypted_payload@
                    && n.len() == 12 implies n == nonce@ && aes256gcm_seal(self.key(), n, encode_utf8(p)) == ciphertext@ by {
                let b = sealed_bytes(self.key(), n, encode_utf8(p));
                assert(base64_encode_spec(b) == encrypted_payload@);
                assert(decoded@ == b);
                assert(b.take(12) == n);
                assert(b.skip(12) == aes256gcm_seal(self.key(), n, encode_utf8(p)));
            }
        }
        match aes256gcm_decrypt(&self.master_key, nonce, ciphertext) {
            Err(e) => {
                let t = aead_error_text(&e);
                Err(join2("Decryption failed: ", t.as_str()))
            },
            Ok(plain) => {
                let ghost pb = plain@;
                match string_from_utf8(plain) {
                    Ok(s) => {
                        proof {
                            decode_utf8_encode_utf8(pb);
                            assert forall|n: Seq<u8>, p: Seq<char>|
                                #[trigger] sealed_payload(self.key(), n, encode_utf8(p)) == encrypted_payload@
                                    && n.len() == 12 && encode_utf8(p).len() <= AES_GCM_MAX_PLAINTEXT
                                    implies s@ == p by {
                                assert(aes256gcm_seal(self.key(), nonce@, encode_utf8(p)) == ciphertext@);
                                assert(pb == encode_utf8(p));
                                encode_utf8_decode_utf8(p);
                            }
                        }
                        Ok(s)
                    },
                    Err(_) => {
                        proof {
                            assert forall|n: Seq<u8>, p: Seq<char>|
                                #[trigger] sealed_payload(self.key(), n, encode_utf8(p)) == encrypted_payload@
                                    && n.len() == 12 && encode_utf8(p).len() <= AES_GCM_MAX_PLAINTEXT
                                    implies false by {
                                assert(aes256gcm_seal(self.key(), nonce@, encode_utf8(p)) == ciphertext@);
                                assert(pb == encode_utf8(p));
                                encode_utf8_valid_utf8(p);
                            }
                        }
                        Err("Decrypted data is not valid UTF-8".to_owned())
                    },
                }
            },
        }
    }

    /// A random 24-character password drawn from `password_charset`.
    pub fn generate_secure_password(&self) -> (r: String)
        ensures
            r@.len() == PASSWORD_LENGTH,
            forall|i: int| 0 <= i < r@.len() ==> password_charset().contains(#[trigger] r@[i]),
            exists|draws: Seq<u32>| r@ == #[trigger] password_for_draws(draws),
            is_ascii_chars(r@),
            encode_utf8(r@).len() == PASSWORD_LENGTH,
    {
        let mut draws: Vec<u32> = Vec::new();
        let mut i: usize = 0;
        while i < PASSWORD_LENGTH
            invariant
                i <= PASSWORD_LENGTH,
                draws@.len() == i,
            decreases PASSWORD_LENGTH - i,
        {
            draws.push(random_u32());
            i = i + 1;
        }
        let r = password_from_draws(draws.as_slice());
        proof {
            reveal_strlit("ABCDEFGHIJKLMNOPQRSTUVWXYZabcdefghijklmnopqrstuvwxyz0123456789!@#$%^&*()-_=+");
            assert forall|i: int| 0 <= i < r@.len() implies password_charset().contains(#[trigger] r@[i]) by {
                let k = (draws@[i] % PASSWORD_CHARSET_LEN) as int;
                assert(password_charset()[k] == r@[i]);
            }
            assert(is_ascii_chars(password_charset()));
            assert(is_ascii_chars(r@)) by {
                assert forall|i: int| 0 <= i < r@.len() implies '\0' <= #[trigger] r@[i] <= '\u{7f}' by {
                    let k = (draws@[i] % PASSWORD_CHARSET_LEN) as int;
                    assert(password_charset()[k] == r@[i]);
                }
            }
            is_ascii_chars_encode_utf8(r@);
        }
        r
    }
}

} // verus!
