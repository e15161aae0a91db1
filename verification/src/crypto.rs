//! Secrets at rest and in sessions: AES-256-GCM sealing of shared device
//! passwords, Argon2 password hashes, session tokens and their SHA-256 digests.

use aes_gcm::aead::{Aead, KeyInit, OsRng};
use aes_gcm::{Aes256Gcm, Key, Nonce};
use argon2::password_hash::{PasswordHash, PasswordHasher, PasswordVerifier, SaltString};
use argon2::Argon2;
use rand::RngCore;
use sha2::{Digest, Sha256};
use vstd::prelude::*;
use vstd::utf8::{decode_utf8, encode_utf8, encode_utf8_decode_utf8, encode_utf8_valid_utf8, valid_utf8};

use crate::encoding::{
    base64_decode, base64_decode_spec, base64_encode, base64_encode_spec, concat_bytes,
    hex_lower, hex_lower_spec, is_base64, is_lower_hex_char, lemma_hex_lower_form, lemma_base64_nonempty, slice_bytes, utf8_to_string,
};
use crate::text::byte_len;

verus! {

broadcast use vstd::string::group_string_axioms;

/// The SHA-256 digest of a byte string.
pub uninterp spec fn sha256(data: Seq<u8>) -> Seq<u8>;

/// The AES-256-GCM ciphertext, tag appended, of `plaintext` under `key` and `nonce`
/// with no associated data.
pub uninterp spec fn aes256gcm_seal(key: Seq<u8>, nonce: Seq<u8>, plaintext: Seq<u8>) -> Seq<u8>;

/// The AES-256-GCM opening of `ciphertext` (tag appended) under `key` and `nonce`:
/// the plaintext, or `None` where the tag does not authenticate it.
pub uninterp spec fn aes256gcm_open(
    key: Seq<u8>,
    nonce: Seq<u8>,
    ciphertext: Seq<u8>,
) -> Option<Seq<u8>>;

/// Whether the PHC string `encoded_hash` parses and Argon2 accepts `password` for it.
pub uninterp spec fn argon2_verifies(password: Seq<char>, encoded_hash: Seq<char>) -> bool;

/// Whether a text begins with `$`, as every PHC string does.
pub open spec fn starts_with_dollar(s: Seq<char>) -> bool {
    s.len() > 0 && s[0] == '$'
}

/// The largest plaintext, in bytes, that AES-GCM seals (`aes_gcm::P_MAX`).
pub open spec fn aes_gcm_max_plaintext() -> nat {
    68719476736
}

/// The length in bytes of the random nonce that precedes each sealed password.
pub open spec fn nonce_len() -> nat {
    12
}

/// `Sha256::digest` of the sha2 crate: the 32-byte digest of the data.
#[verifier::external_body]
fn sha256_digest(data: &[u8]) -> (res: Vec<u8>)
    ensures
        res@ == sha256(data@),
        res@.len() == 32,
{
    Sha256::digest(data).to_vec()
}

/// `RngCore::fill_bytes` on the operating system's generator: `n` random bytes.
/// Nothing is said of their values.
#[verifier::external_body]
fn os_random_bytes(n: usize) -> (res: Vec<u8>)
    ensures
        res@.len() == n,
{
    let mut bytes = vec![0u8; n];
    OsRng.fill_bytes(&mut bytes);
    bytes
}

/// `Aead::encrypt` of `Aes256Gcm` with no associated data: fails exactly when the
/// plaintext is longer than `aes_gcm::P_MAX`, else appends the 16-byte tag.
#[verifier::external_body]
fn aes256gcm_encrypt(key: &[u8], nonce: &[u8], plaintext: &[u8]) -> (res: Option<Vec<u8>>)
    requires
        key@.len() == 32,
        nonce@.len() == nonce_len(),
    ensures
        res is Some <==> plaintext@.len() <= aes_gcm_max_plaintext(),
        res is Some ==> res->Some_0@ == aes256gcm_seal(key@, nonce@, plaintext@),
        res is Some ==> res->Some_0@.len() == plaintext@.len() + 16,
{
    Aes256Gcm::new(Key::<Aes256Gcm>::from_slice(key)).encrypt(Nonce::from_slice(nonce), plaintext).ok()
}

/// `Aead::decrypt` of `Aes256Gcm` with no associated data. A ciphertext that sealing
/// produced under the same key and nonce opens to the plaintext that was sealed.
#[verifier::external_body]
fn aes256gcm_decrypt(key: &[u8], nonce: &[u8], ciphertext: &[u8]) -> (res: Option<Vec<u8>>)
    requires
        key@.len() == 32,
        nonce@.len() == nonce_len(),
    ensures
        res is None <==> aes256gcm_open(key@, nonce@, ciphertext@) is None,
        res is Some ==> aes256gcm_open(key@, nonce@, ciphertext@) == Some(res->Some_0@),
        forall|p: Seq<u8>|
            p.len() <= aes_gcm_max_plaintext() && ciphertext@ == #[trigger] aes256gcm_seal(
                key@,
                nonce@,
                p,
            ) ==> (res is Some && res->Some_0@ == p),
{
    Aes256Gcm::new(Key::<Aes256Gcm>::from_slice(key)).decrypt(Nonce::from_slice(nonce), ciphertext).ok()
}

/// The longest password, in bytes, that Argon2 hashes (`argon2::MAX_PWD_LEN`).
pub open spec fn argon2_max_password() -> nat {
    0xFFFFFFFF
}

/// `PasswordHasher::hash_password` of `Argon2::default()` (Argon2id) under a salt
/// from `SaltString::generate` with the operating system's generator, rendered as a
/// PHC string. The generated salt is always valid, so it fails exactly on a password
/// longer than `argon2::MAX_PWD_LEN`. A hash that it returns starts `$argon2id$`
/// and verifies the password it was computed from. Which salt is random.
#[verifier::external_body]
fn argon2_hash_fresh(password: &str) -> (res: Option<String>)
    ensures
        res is Some <==> byte_len(password@) <= argon2_max_password(),
        res is Some ==> argon2_verifies(password@, res->Some_0@),
        res is Some ==> res->Some_0@.len() >= 10 && res->Some_0@.take(10) == "$argon2id$"@,
{
    let salt = SaltString::generate(&mut OsRng);
    match Argon2::default().hash_password(password.as_bytes(), &salt) {
        Ok(hash) => Some(hash.to_string()),
        Err(_) => None,
    }
}

/// `PasswordHash::new` followed by `PasswordVerifier::verify_password` of
/// `Argon2::default()`; a string that does not parse verifies nothing. The parser
/// refuses an empty string and one whose first `$`-separated field is not empty,
/// so a string that does not begin with `$` verifies no password.
#[verifier::external_body]
fn argon2_check(password: &str, encoded_hash: &str) -> (res: bool)
    ensures
        res == argon2_verifies(password@, encoded_hash@),
        !starts_with_dollar(encoded_hash@) ==> !res,
{
    match PasswordHash::new(encoded_hash) {
        Ok(hash) => Argon2::default().verify_password(password.as_bytes(), &hash).is_ok(),
        Err(_) => false,
    }
}

/// Why a cryptographic operation did not complete.
#[derive(Debug, Clone, Copy, PartialEq, Eq, Structural)]
pub enum CryptoError {
    /// The master key is not standard Base64.
    KeyNotBase64,
    /// The master key does not decode to exactly 32 bytes.
    KeyWrongLength,
    /// The password is too long to seal.
    EncryptionFailed,
    /// A stored password is not standard Base64.
    StoredNotBase64,
    /// A stored password is too short to hold a nonce and a ciphertext.
    StoredTruncated,
    /// A stored password does not authenticate under the master key.
    DecryptionFailed,
    /// A stored password opens to bytes that are not UTF-8.
    StoredNotUtf8,
    /// Argon2 did not hash the password.
    HashingFailed,
}

/// Whether `stored` is a sealing of `plaintext` under `key`: empty for an empty
/// plaintext, else the Base64 of a 12-byte nonce followed by the AES-256-GCM
/// ciphertext of the plaintext's UTF-8 bytes under that nonce.
pub open spec fn sealed(key: Seq<u8>, plaintext: Seq<char>, stored: Seq<char>) -> bool {
    if plaintext.len() == 0 {
        stored.len() == 0
    } else {
        exists|nonce: Seq<u8>| #[trigger] sealed_with(key, plaintext, stored, nonce)
    }
}

/// Whether `stored` is the sealing of the non-empty `plaintext` under `key` and `nonce`.
pub open spec fn sealed_with(key: Seq<u8>, plaintext: Seq<char>, stored: Seq<char>, nonce: Seq<u8>) -> bool {
    let bytes = encode_utf8(plaintext);
    let ct = aes256gcm_seal(key, nonce, bytes);
    &&& nonce.len() == nonce_len()
    &&& bytes.len() <= aes_gcm_max_plaintext()
    &&& ct.len() == bytes.len() + 16
    &&& stored == base64_encode_spec(nonce + ct)
}

/// A sealing of a non-empty plaintext is the non-empty Base64 of more than 12 bytes:
/// its nonce, then the ciphertext. Gives the nonce.
proof fn lemma_sealed_nonce(key: Seq<u8>, plaintext: Seq<char>, stored: Seq<char>) -> (nonce: Seq<
    u8,
>)
    requires
        sealed(key, plaintext, stored),
        plaintext.len() > 0,
    ensures
        sealed_with(key, plaintext, stored, nonce),
        base64_encode_spec(nonce + aes256gcm_seal(key, nonce, encode_utf8(plaintext))) == stored,
        (nonce + aes256gcm_seal(key, nonce, encode_utf8(plaintext))).len() > nonce_len(),
        stored.len() > 0,
{
    let nonce = choose|nonce: Seq<u8>| #[trigger] sealed_with(key, plaintext, stored, nonce);
    lemma_base64_nonempty(nonce + aes256gcm_seal(key, nonce, encode_utf8(plaintext)));
    nonce
}

/// What opening a stored password under `key` gives.
pub open spec fn unseal(key: Seq<u8>, stored: Seq<char>) -> Result<Seq<char>, CryptoError> {
    if stored.len() == 0 {
        Ok(seq![])
    } else if !is_base64(stored) {
        Err(CryptoError::StoredNotBase64)
    } else {
        let bytes = base64_decode_spec(stored);
        if bytes.len() <= nonce_len() {
            Err(CryptoError::StoredTruncated)
        } else {
            match aes256gcm_open(key, bytes.take(12), bytes.skip(12)) {
                None => Err(CryptoError::DecryptionFailed),
                Some(plain) => if valid_utf8(plain) {
                    Ok(decode_utf8(plain))
                } else {
                    Err(CryptoError::StoredNotUtf8)
                },
            }
        }
    }
}

/// The master key of the service; it seals the shared device passwords.
pub struct Crypto {
    key: Vec<u8>,
}

impl View for Crypto {
    type V = Seq<u8>;

    /// The 32 key bytes.
    closed spec fn view(&self) -> Seq<u8> {
        self.key@
    }
}

impl Crypto {
    #[verifier::type_invariant]
    closed spec fn key_is_256_bits(self) -> bool {
        self.key@.len() == 32
    }

    /// Reads the master key from its standard Base64 form; it must be 32 bytes.
    pub fn new(master_key_base64: &str) -> (res: Result<Crypto, CryptoError>)
        ensures
            !is_base64(master_key_base64@) ==> res == Err::<Crypto, CryptoError>(
                CryptoError::KeyNotBase64,
            ),
            is_base64(master_key_base64@) && base64_decode_spec(master_key_base64@).len() != 32
                ==> res == Err::<Crypto, CryptoError>(CryptoError::KeyWrongLength),
            is_base64(master_key_base64@) && base64_decode_spec(master_key_base64@).len() == 32
                ==> (res matches Ok(c) && c@ == base64_decode_spec(master_key_base64@)),
    {
        match base64_decode(master_key_base64) {
            None => Err(CryptoError::KeyNotBase64),
            Some(key) => {
                proof {
                    let b = base64_decode_spec(master_key_base64@);
                    assert(base64_encode_spec(key@) == master_key_base64@);
                    assert(base64_encode_spec(b) == master_key_base64@);
                }
                if key.len() != 32 {
                    Err(CryptoError::KeyWrongLength)
                } else {
                    Ok(Crypto { key })
                }
            },
        }
    }

    /// Seals a password for storage; the empty password is stored as the empty string.
    pub fn encrypt(&self, plaintext: &str) -> (res: Result<String, CryptoError>)
        ensures
            res is Err <==> byte_len(plaintext@) > aes_gcm_max_plaintext(),
            res matches Ok(stored) ==> sealed(self@, plaintext@, stored@),
            res matches Err(e) ==> e == CryptoError::EncryptionFailed,
    {
        proof {
            use_type_invariant(self);
        }
        if plaintext.is_empty() {
            assert(encode_utf8(plaintext@) =~= seq![]);
            return Ok(String::new());
        }
        let nonce = os_random_bytes(12);
        let bytes = plaintext.as_bytes();
        match aes256gcm_encrypt(self.key.as_slice(), nonce.as_slice(), bytes) {
            None => Err(CryptoError::EncryptionFailed),
            Some(ciphertext) => {
                let encoded = concat_bytes(nonce.as_slice(), ciphertext.as_slice());
                let stored = base64_encode(encoded.as_slice());
                assert(sealed_with(self@, plaintext@, stored@, nonce@));
                Ok(stored)
            },
        }
    }

    /// Opens a stored password. What `encrypt` sealed opens to what was sealed.
    pub fn decrypt(&self, encrypted: &str) -> (res: Result<String, CryptoError>)
        ensures
            res matches Ok(p) ==> unseal(self@, encrypted@) == Ok::<Seq<char>, CryptoError>(p@),
            res matches Err(e) ==> unseal(self@, encrypted@) == Err::<Seq<char>, CryptoError>(e),
            forall|p: Seq<char>|
                #[trigger] sealed(self@, p, encrypted@) ==> (res matches Ok(q) && q@ == p),
    {
        proof {
            use_type_invariant(self);
        }
        let ghost key = self@;
        if encrypted.is_empty() {
            proof {
                assert forall|p: Seq<char>| #[trigger] sealed(self@, p, encrypted@) implies p.len()
                    == 0 by {
                    if p.len() > 0 {
                        lemma_sealed_nonce(key, p, encrypted@);
                    }
                }
            }
            return Ok(String::new());
        }
        let decoded = base64_decode(encrypted);
        let encoded = match decoded {
            None => {
                proof {
                    assert forall|p: Seq<char>| !#[trigger] sealed(key, p, encrypted@) by {
                        if sealed(key, p, encrypted@) && p.len() > 0 {
                            lemma_sealed_nonce(key, p, encrypted@);
                        }
                    }
                }
                return Err(CryptoError::StoredNotBase64);
            },
            Some(encoded) => encoded,
        };
        proof {
            assert(base64_encode_spec(encoded@) == encrypted@);
            assert(base64_encode_spec(base64_decode_spec(encrypted@)) == encrypted@);
            assert(encoded@ == base64_decode_spec(encrypted@));
        }
        if encoded.len() <= 12 {
            proof {
                assert forall|p: Seq<char>| !#[trigger] sealed(key, p, encrypted@) by {
                    if sealed(key, p, encrypted@) && p.len() > 0 {
                        lemma_sealed_nonce(key, p, encrypted@);
                    }
                }
            }
            return Err(CryptoError::StoredTruncated);
        }
        let nonce = slice_bytes(encoded.as_slice(), 0, 12);
        let ciphertext = slice_bytes(encoded.as_slice(), 12, encoded.len());
        proof {
            assert(nonce@ =~= encoded@.take(12));
            assert(ciphertext@ =~= encoded@.skip(12));
        }
        let opened = aes256gcm_decrypt(self.key.as_slice(), nonce.as_slice(), ciphertext.as_slice());
        proof {
            assert forall|p: Seq<char>| #[trigger] sealed(key, p, encrypted@) implies (opened is Some
                && opened->Some_0@ == encode_utf8(p)) by {
                let n = lemma_sealed_nonce(key, p, encrypted@);
                let ct = aes256gcm_seal(key, n, encode_utf8(p));
                assert(encoded@ == n + ct);
                assert(nonce@ =~= n);
                assert(ciphertext@ =~= ct);
            }
        }
        match opened {
            None => Err(CryptoError::DecryptionFailed),
            Some(plain) => {
                let ghost plain_bytes = plain@;
                match utf8_to_string(plain) {
                    None => {
                        proof {
                            assert forall|p: Seq<char>| !#[trigger] sealed(key, p, encrypted@) by {
                                if sealed(key, p, encrypted@) {
                                    encode_utf8_valid_utf8(p);
                                }
                            }
                        }
                        Err(CryptoError::StoredNotUtf8)
                    },
                    Some(text) => {
                        proof {
                            assert forall|p: Seq<char>| #[trigger]
                                sealed(key, p, encrypted@) implies text@ == p by {
                                encode_utf8_decode_utf8(p);
                            }
                        }
                        Ok(text)
                    },
                }
            },
        }
    }
}

/// Hashes a password with Argon2id under a fresh random salt. It succeeds on every
/// password of at most `argon2::MAX_PWD_LEN` bytes; the hash it returns is a PHC
/// string that verifies the password (`verify_password` returns `true` for the pair).
pub fn hash_password(password: &str) -> (res: Result<String, CryptoError>)
    ensures
        res is Ok <==> byte_len(password@) <= argon2_max_password(),
        res matches Ok(h) ==> argon2_verifies(password@, h@),
        res matches Ok(h) ==> h@.len() >= 10 && h@.take(10) == "$argon2id$"@,
        res matches Err(e) ==> e == CryptoError::HashingFailed,
{
    match argon2_hash_fresh(password) {
        Some(hash) => Ok(hash),
        None => Err(CryptoError::HashingFailed),
    }
}

/// Whether `password` matches the Argon2 PHC string `encoded_hash`; a string that
/// is not a PHC hash matches nothing: one that is empty or does not begin with `$`
/// is answered `false`.
pub fn verify_password(password: &str, encoded_hash: &str) -> (res: bool)
    ensures
        res == argon2_verifies(password@, encoded_hash@),
        !starts_with_dollar(encoded_hash@) ==> !res,
{
    argon2_check(password, encoded_hash)
}

/// A fresh session token: the standard Base64 of 32 random bytes.
pub fn new_session_token() -> (res: String)
    ensures
        exists|b: Seq<u8>| b.len() == 32 && res@ == #[trigger] base64_encode_spec(b),
{
    let token = os_random_bytes(32);
    base64_encode(token.as_slice())
}

/// The lowercase hexadecimal SHA-256 of a token's UTF-8 bytes, as sessions and
/// device share tokens are stored.
pub fn token_hash(token: &str) -> (res: String)
    ensures
        res@ == hex_lower_spec(sha256(encode_utf8(token@))),
        res@.len() == 64,
        forall|i: int| 0 <= i < 64 ==> is_lower_hex_char(#[trigger] res@[i]),
{
    let digest = sha256_digest(token.as_bytes());
    let res = hex_lower(digest.as_slice());
    proof {
        lemma_hex_lower_form(digest@);
    }
    res
}

} // verus!
