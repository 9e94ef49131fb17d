//! The crypto vault: authenticated encryption of stored texts under one
//! 256-bit key, as self-contained printable tokens.
//!
//! A token is `base64(nonce ‖ ciphertext ‖ tag)` with a fresh 96-bit nonce
//! for every encryption (AES-256-GCM, no associated data).

use vstd::prelude::*;
use vstd::utf8::{decode_utf8, encode_utf8, valid_utf8};
use aes_gcm::aead::rand_core::RngCore;
use aes_gcm::aead::{Aead, OsRng};
use aes_gcm::{Aes256Gcm, Key, KeyInit, Nonce};
use base64::engine::general_purpose;
use base64::Engine;

verus! {

broadcast use vstd::utf8::group_utf8_lib;

/// Bytes of key material.
pub const KEY_SIZE: usize = 32;

/// Bytes of nonce at the head of every token.
pub const NONCE_SIZE: usize = 12;

/// The longest plaintext, in bytes, that AES-GCM accepts.
pub const PLAIN_MAX: u64 = 68719476736;

/// AES-256-GCM ciphertext with tag of `plain` under `key` and `nonce`.
pub uninterp spec fn aead_sealed(key: Seq<u8>, nonce: Seq<u8>, plain: Seq<u8>) -> Seq<u8>;

/// AES-256-GCM decryption of `sealed` under `key` and `nonce`: the plaintext,
/// or `None` where the tag does not authenticate.
pub uninterp spec fn aead_opened(key: Seq<u8>, nonce: Seq<u8>, sealed: Seq<u8>) -> Option<Seq<u8>>;

/// Standard (padded) base64 text of `b`.
pub uninterp spec fn base64_of(b: Seq<u8>) -> Seq<char>;

/// Bytes that a standard base64 text stands for, or `None` where it is not one.
pub uninterp spec fn base64_decoded(s: Seq<char>) -> Option<Seq<u8>>;

/// Relies on aes_gcm's Aes256Gcm::encrypt with a 32-byte key and a 12-byte
/// nonce: it fails only on a plaintext longer than `PLAIN_MAX` bytes, appends
/// a 16-byte tag to the ciphertext, and Aes256Gcm::decrypt gives back the
/// plaintext of what it produced.
#[verifier::external_body]
fn aead_seal(key: &[u8], nonce: &[u8], plain: &[u8]) -> (r: Option<Vec<u8>>)
    requires
        key@.len() == KEY_SIZE,
        nonce@.len() == NONCE_SIZE,
    ensures
        r is Some <==> plain@.len() <= PLAIN_MAX,
        r matches Some(c) ==> c@.len() == plain@.len() + 16,
        r matches Some(c) ==> c@ == aead_sealed(key@, nonce@, plain@) && aead_opened(
            key@,
            nonce@,
            c@,
        ) == Some(plain@),
{
    let cipher = Aes256Gcm::new(Key::<Aes256Gcm>::from_slice(key));
    cipher.encrypt(Nonce::from_slice(nonce), plain).ok()
}

/// Relies on aes_gcm's Aes256Gcm::decrypt with a 32-byte key and a 12-byte
/// nonce: the plaintext, or an error where the tag does not authenticate.
#[verifier::external_body]
fn aead_open(key: &[u8], nonce: &[u8], sealed: &[u8]) -> (r: Option<Vec<u8>>)
    requires
        key@.len() == KEY_SIZE,
        nonce@.len() == NONCE_SIZE,
    ensures
        r matches Some(p) ==> aead_opened(key@, nonce@, sealed@) == Some(p@),
        r is None ==> aead_opened(key@, nonce@, sealed@) is None,
{
    let cipher = Aes256Gcm::new(Key::<Aes256Gcm>::from_slice(key));
    cipher.decrypt(Nonce::from_slice(nonce), sealed).ok()
}

/// Relies on OsRng::try_fill_bytes (rand_core, through aes_gcm): `n` bytes
/// from the operating system's generator, or nothing where it fails.
#[verifier::external_body]
fn random_bytes(n: usize) -> (r: Option<Vec<u8>>)
    ensures
        r matches Some(b) ==> b@.len() == n,
{
    let mut b = vec![0u8; n];
    match OsRng.try_fill_bytes(&mut b) {
        Ok(()) => Some(b),
        Err(_) => None,
    }
}

/// Relies on base64's STANDARD engine `encode`; its `decode` gives the bytes back.
#[verifier::external_body]
pub(crate) fn base64_encode(b: &[u8]) -> (r: String)
    ensures
        r@ == base64_of(b@),
        base64_decoded(r@) == Some(b@),
{
    general_purpose::STANDARD.encode(b)
}

/// Relies on base64's STANDARD engine `decode`, which fails on text that is
/// not canonical padded base64.
#[verifier::external_body]
fn base64_decode(s: &str) -> (r: Option<Vec<u8>>)
    ensures
        r matches Some(b) ==> base64_decoded(s@) == Some(b@),
        r is None ==> base64_decoded(s@) is None,
{
    general_purpose::STANDARD.decode(s).ok()
}

/// Relies on String::from_utf8, which fails exactly on bytes that are not UTF-8.
#[verifier::external_body]
fn utf8_text(b: Vec<u8>) -> (r: Option<String>)
    ensures
        r is Some <==> valid_utf8(b@),
        r matches Some(s) ==> s@ == decode_utf8(b@),
{
    String::from_utf8(b).ok()
}

/// The token that sealing `plain` under `key` with `nonce` gives.
pub open spec fn sealed_token(key: Seq<u8>, nonce: Seq<u8>, plain: Seq<char>) -> Seq<char> {
    base64_of(nonce + aead_sealed(key, nonce, encode_utf8(plain)))
}

/// The text that `token` opens to under `key`, or `None` where the token is
/// malformed (not base64, too short), does not authenticate, or does not
/// decrypt to UTF-8.
pub open spec fn opened_text(key: Seq<u8>, token: Seq<char>) -> Option<Seq<char>> {
    match base64_decoded(token) {
        None => None,
        Some(b) => if b.len() < NONCE_SIZE {
            None
        } else {
            match aead_opened(key, b.subrange(0, NONCE_SIZE as int), b.subrange(NONCE_SIZE as int, b.len() as int)) {
                None => None,
                Some(p) => if valid_utf8(p) {
                    Some(decode_utf8(p))
                } else {
                    None
                },
            }
        },
    }
}

/// Why the vault could not do its work.
#[derive(Clone, Copy, Debug, PartialEq, Eq, Structural)]
pub enum CryptoError {
    /// No nonce could be drawn, or the plaintext is too long to seal.
    Encryption,
    /// The token is malformed, does not authenticate, or is not UTF-8 inside.
    Integrity,
}

/// The key, loaded once and shared by everything that encrypts or decrypts.
pub struct Vault {
    key: Vec<u8>,
}

impl Vault {
    #[verifier::type_invariant]
    spec fn key_is_full(&self) -> bool {
        self.key@.len() == KEY_SIZE
    }

    /// The key material.
    pub closed spec fn key(&self) -> Seq<u8> {
        self.key@
    }

    /// A vault over the given key material; `None` unless it is 32 bytes long.
    pub fn from_key(key: Vec<u8>) -> (r: Option<Vault>)
        ensures
            r is Some <==> key@.len() == KEY_SIZE,
            r matches Some(v) ==> v.key() == key@,
    {
        if key.len() == KEY_SIZE {
            Some(Vault { key })
        } else {
            None
        }
    }

    /// A vault over a fresh random key; `None` where the generator fails.
    pub fn generate() -> (r: Option<Vault>)
        ensures
            r matches Some(v) ==> v.key().len() == KEY_SIZE,
    {
        match random_bytes(KEY_SIZE) {
            Some(key) => Some(Vault { key }),
            None => None,
        }
    }

    /// The key material, to be kept where the next process start finds it.
    pub fn key_bytes(&self) -> (r: &Vec<u8>)
        ensures
            r@ == self.key(),
    {
        &self.key
    }

    /// Seals `plain` with the given nonce. This fails only on a text longer
    /// than `PLAIN_MAX` bytes.
    pub fn seal_with_nonce(&self, plain: &str, nonce: &[u8]) -> (r: Result<String, CryptoError>)
        requires
            nonce@.len() == NONCE_SIZE,
        ensures
            r is Ok <==> encode_utf8(plain@).len() <= PLAIN_MAX,
            r matches Err(e) ==> e == CryptoError::Encryption,
            r matches Ok(t) ==> t@ == sealed_token(self.key(), nonce@, plain@),
            r matches Ok(t) ==> opened_text(self.key(), t@) == Some(plain@),
    {
        proof {
            use_type_invariant(self);
        }
        let bytes = plain.as_bytes();
        match aead_seal(self.key.as_slice(), nonce, bytes) {
            None => Err(CryptoError::Encryption),
            Some(sealed) => {
                let mut out: Vec<u8> = Vec::new();
                let mut i: usize = 0;
                while i < nonce.len()
                    invariant
                        i <= nonce@.len(),
                        out@ == nonce@.subrange(0, i as int),
                    decreases nonce@.len() - i,
                {
                    out.push(nonce[i]);
                    i = i + 1;
                }
                let mut j: usize = 0;
                while j < sealed.len()
                    invariant
                        j <= sealed@.len(),
                        out@ == nonce@ + sealed@.subrange(0, j as int),
                    decreases sealed@.len() - j,
                {
                    out.push(sealed[j]);
                    j = j + 1;
                }
                let token = base64_encode(out.as_slice());
                proof {
                    let b = out@;
                    assert(nonce@.subrange(0, nonce@.len() as int) == nonce@);
                    assert(sealed@.subrange(0, sealed@.len() as int) == sealed@);
                    assert(b.subrange(0, NONCE_SIZE as int) == nonce@);
                    assert(b.subrange(NONCE_SIZE as int, b.len() as int) == sealed@);
                }
                Ok(token)
            },
        }
    }

    /// Encrypts `plain` under a fresh random nonce. On success the token opens
    /// to `plain` again; it fails where no nonce can be drawn or the text is
    /// longer than `PLAIN_MAX` bytes.
    pub fn encrypt(&self, plain: &str) -> (r: Result<String, CryptoError>)
        ensures
            encode_utf8(plain@).len() > PLAIN_MAX ==> r is Err,
            r matches Err(e) ==> e == CryptoError::Encryption,
            r matches Ok(t) ==> exists|n: Seq<u8>|
                n.len() == NONCE_SIZE && t@ == #[trigger] sealed_token(self.key(), n, plain@),
            r matches Ok(t) ==> opened_text(self.key(), t@) == Some(plain@),
    {
        match random_bytes(NONCE_SIZE) {
            None => Err(CryptoError::Encryption),
            Some(nonce) => self.seal_with_nonce(plain, nonce.as_slice()),
        }
    }

    /// Decrypts a token back to its text; `Integrity` where it is malformed or
    /// does not authenticate under this vault's key.
    pub fn decrypt(&self, token: &str) -> (r: Result<String, CryptoError>)
        ensures
            r matches Ok(p) ==> opened_text(self.key(), token@) == Some(p@),
            r is Err ==> opened_text(self.key(), token@) is None,
            r matches Err(e) ==> e == CryptoError::Integrity,
    {
        proof {
            use_type_invariant(self);
        }
        let bytes = match base64_decode(token) {
            Some(b) => b,
            None => return Err(CryptoError::Integrity),
        };
        if bytes.len() < NONCE_SIZE {
            return Err(CryptoError::Integrity);
        }
        let (nonce, sealed) = bytes.as_slice().split_at(NONCE_SIZE);
        match aead_open(self.key.as_slice(), nonce, sealed) {
            None => Err(CryptoError::Integrity),
            Some(plain) => match utf8_text(plain) {
                Some(s) => Ok(s),
                None => Err(CryptoError::Integrity),
            },
        }
    }
}

} // verus!
