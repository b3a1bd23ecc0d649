//! The cryptographic and encoding primitives that the envelope is built
//! from. Each one is provided by an established implementation and is
//! called here through a small function whose contract is taken on trust.
//! Where the outcome of a primitive is a function of its arguments alone it
//! is given a name, so that the contracts of the verified code can speak of
//! it exactly.

use argon2::{Algorithm, Argon2, Params, Version};
use base64::engine::general_purpose;
use base64::Engine;
use chacha20poly1305::aead::Aead;
use chacha20poly1305::{ChaCha20Poly1305, Key, KeyInit, Nonce};
use rand::RngCore;
use vstd::prelude::*;
use vstd::utf8::{decode_utf8, valid_utf8};

verus! {

/// Length in bytes of the derived key.
pub const KEY_LEN: usize = 32;

/// Length in bytes of the random salt.
pub const SALT_LEN: usize = 16;

/// Length in bytes of the random nonce.
pub const NONCE_LEN: usize = 12;

/// Length in bytes of the authentication tag that ends a ciphertext.
pub const TAG_LEN: usize = 16;

/// The longest password, in bytes, that the key-derivation function takes.
pub const MAX_PASSWORD_LEN: usize = 0xFFFF_FFFF;

/// The most memory, in KiB, that one key derivation may take (2 GiB).
pub const MAX_KDF_MEMORY: u32 = 2_097_152;

/// The number of 64-byte blocks at which the cipher refuses a message.
pub const MAX_CIPHER_BLOCKS: usize = 0xFFFF_FFFF;

/// What a call that may fail returned, with the view in place of the bytes.
pub open spec fn opt_bytes(v: Option<Vec<u8>>) -> Option<Seq<u8>> {
    match v {
        Some(b) => Some(b@),
        None => None,
    }
}

/// The costs that the key-derivation function accepts: at least 8 KiB of
/// memory and 8 KiB per lane, at least one pass, and between 1 and
/// 2^24 - 1 lanes.
pub open spec fn kdf_accepts(m_cost: u32, t_cost: u32, p_cost: u32) -> bool {
    &&& 1 <= p_cost <= 0xFF_FFFF
    &&& 8 <= m_cost
    &&& 8 * p_cost <= m_cost
    &&& 1 <= t_cost
}

/// The 32-byte Argon2id (version 0x13) hash of `password` under `salt` and
/// the given costs, without secret key or associated data.
pub uninterp spec fn argon2id_key(
    password: Seq<u8>,
    salt: Seq<u8>,
    m_cost: u32,
    t_cost: u32,
    p_cost: u32,
) -> Seq<u8>;

/// The ChaCha20-Poly1305 ciphertext of `plaintext` under `key` and `nonce`,
/// with empty associated data and the tag appended.
pub uninterp spec fn chacha20poly1305_seal(key: Seq<u8>, nonce: Seq<u8>, plaintext: Seq<u8>) -> Seq<
    u8,
>;

/// What ChaCha20-Poly1305 decryption of `sealed` under `key` and `nonce`
/// gives: the plaintext, or nothing where the tag does not verify.
pub uninterp spec fn chacha20poly1305_open(key: Seq<u8>, nonce: Seq<u8>, sealed: Seq<u8>) -> Option<
    Seq<u8>,
>;

/// The padded base64 text of `bytes` in the standard alphabet.
pub uninterp spec fn base64_encode(bytes: Seq<u8>) -> Seq<char>;

/// The bytes that `text` stands for in padded standard base64, or nothing
/// where `text` is not such an encoding.
pub uninterp spec fn base64_decode(text: Seq<char>) -> Option<Seq<u8>>;

/// Calls `Argon2::hash_password_into` of the `argon2` crate, with algorithm
/// Argon2id, version 0x13 and a 32-byte output.
///
/// Trusted: the call succeeds exactly when the password has at most
/// 2^32 - 1 bytes and the salt between 8 and 2^32 - 1, and the key is the
/// named hash of the arguments. The costs must be ones that `Params::new`
/// accepts, and the memory within what this library allows itself.
#[verifier::external_body]
pub(crate) fn derive_key(
    password: &[u8],
    salt: &[u8],
    m_cost: u32,
    t_cost: u32,
    p_cost: u32,
) -> (key: Option<Vec<u8>>)
    requires
        kdf_accepts(m_cost, t_cost, p_cost),
        m_cost <= MAX_KDF_MEMORY,
    ensures
        key is Some <==> (password@.len() <= MAX_PASSWORD_LEN && 8 <= salt@.len() && salt@.len()
            <= 0xFFFF_FFFF),
        key matches Some(k) ==> k@.len() == KEY_LEN,
        key matches Some(k) ==> k@ == argon2id_key(password@, salt@, m_cost, t_cost, p_cost),
{
    let params = Params::new(m_cost, t_cost, p_cost, None).ok()?;
    let kdf = Argon2::new(Algorithm::Argon2id, Version::V0x13, params);
    let mut key = vec![0u8; KEY_LEN];
    kdf.hash_password_into(password, salt, &mut key).ok()?;
    Some(key)
}

/// Calls `Aead::encrypt` of `ChaCha20Poly1305` (crate `chacha20poly1305`)
/// with empty associated data.
///
/// Trusted: the call succeeds exactly when the plaintext has fewer than
/// 2^32 - 1 blocks of 64 bytes; the ciphertext is the named one, is 16
/// bytes longer than the plaintext, and decrypts to the plaintext under
/// the same key and nonce.
#[verifier::external_body]
pub(crate) fn aead_seal(key: &[u8], nonce: &[u8], plaintext: &[u8]) -> (sealed: Option<Vec<u8>>)
    requires
        key@.len() == KEY_LEN,
        nonce@.len() == NONCE_LEN,
    ensures
        sealed is Some <==> plaintext@.len() / 64 < MAX_CIPHER_BLOCKS,
        sealed matches Some(c) ==> c@ == chacha20poly1305_seal(key@, nonce@, plaintext@),
        sealed matches Some(c) ==> c@.len() == plaintext@.len() + TAG_LEN,
        sealed matches Some(c) ==> chacha20poly1305_open(key@, nonce@, c@) == Some(plaintext@),
{
    let cipher = ChaCha20Poly1305::new(Key::from_slice(key));
    cipher.encrypt(Nonce::from_slice(nonce), plaintext).ok()
}

/// Calls `Aead::decrypt` of `ChaCha20Poly1305` (crate `chacha20poly1305`)
/// with empty associated data.
///
/// Trusted: the outcome is the named one, and an input shorter than the
/// 16-byte tag is refused.
#[verifier::external_body]
pub(crate) fn aead_open(key: &[u8], nonce: &[u8], sealed: &[u8]) -> (opened: Option<Vec<u8>>)
    requires
        key@.len() == KEY_LEN,
        nonce@.len() == NONCE_LEN,
    ensures
        opt_bytes(opened) == chacha20poly1305_open(key@, nonce@, sealed@),
        sealed@.len() < TAG_LEN ==> opened is None,
{
    let cipher = ChaCha20Poly1305::new(Key::from_slice(key));
    cipher.decrypt(Nonce::from_slice(nonce), sealed).ok()
}

/// Calls `Engine::encode` of `general_purpose::STANDARD` (crate `base64`).
///
/// Trusted: the text is the named encoding, and decoding it gives the
/// bytes back. The encoded length must fit in `usize`.
#[verifier::external_body]
pub(crate) fn encode_base64(bytes: &[u8]) -> (text: String)
    requires
        (bytes@.len() + 2) / 3 * 4 <= usize::MAX,
    ensures
        text@ == base64_encode(bytes@),
        base64_decode(text@) == Some(bytes@),
{
    general_purpose::STANDARD.encode(bytes)
}

/// Calls `Engine::decode` of `general_purpose::STANDARD` (crate `base64`).
///
/// Trusted: the outcome is the named one.
#[verifier::external_body]
pub(crate) fn decode_base64(text: &str) -> (bytes: Option<Vec<u8>>)
    ensures
        opt_bytes(bytes) == base64_decode(text@),
{
    general_purpose::STANDARD.decode(text).ok()
}

/// Calls `RngCore::fill_bytes` on the thread-local generator of the `rand`
/// crate. Nothing is promised of the bytes.
#[verifier::external_body]
pub(crate) fn random_bytes<const N: usize>() -> (out: [u8; N]) {
    let mut out = [0u8; N];
    rand::rng().fill_bytes(&mut out);
    out
}

/// `String::push` appends one character to the string.
pub assume_specification[ String::push ](s: &mut String, c: char)
    ensures
        final(s)@ == old(s)@.push(c),
;

/// Calls `String::from_utf8`.
///
/// Trusted: the call succeeds exactly on valid UTF-8, and the string then
/// holds the characters that the bytes encode.
#[verifier::external_body]
pub(crate) fn string_from_utf8(bytes: Vec<u8>) -> (text: Option<String>)
    ensures
        text is Some <==> valid_utf8(bytes@),
        text matches Some(s) ==> s@ == decode_utf8(bytes@),
{
    String::from_utf8(bytes).ok()
}

} // verus!
