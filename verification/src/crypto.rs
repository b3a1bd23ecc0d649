//! Sealing and opening of the envelope: a key is derived from the password
//! and a fresh salt, and the plaintext is encrypted and authenticated under
//! that key and a fresh nonce. Nothing is kept between calls.

use crate::error::EnvLockError;
use crate::meta::{checked, Argon2Config, Meta, MetaView, SUPPORTED_VERSION};
use crate::primitives::{
    aead_open, aead_seal, argon2id_key, base64_encode, chacha20poly1305_open,
    chacha20poly1305_seal, derive_key, encode_base64, opt_bytes, random_bytes,
    string_from_utf8, MAX_CIPHER_BLOCKS, MAX_PASSWORD_LEN, NONCE_LEN, SALT_LEN, TAG_LEN,
};
use vstd::prelude::*;
use vstd::utf8::{decode_utf8, encode_utf8, valid_utf8};

verus! {

/// An envelope and its metadata, or a failure, with views in place of the
/// values.
pub open spec fn sealed_view(r: Result<(Vec<u8>, Meta), EnvLockError>) -> Result<
    (Seq<u8>, MetaView),
    EnvLockError,
> {
    match r {
        Ok((c, m)) => Ok((c@, m@)),
        Err(e) => Err(e),
    }
}

/// A text, or a failure, with the view in place of the string.
pub open spec fn text_view(r: Result<String, EnvLockError>) -> Result<Seq<char>, EnvLockError> {
    match r {
        Ok(s) => Ok(s@),
        Err(e) => Err(e),
    }
}

/// Whether a plaintext and a password are within the limits of the
/// primitives: a password of at most 2^32 - 1 bytes, and a plaintext of
/// fewer than 2^32 - 1 blocks of 64 bytes.
pub open spec fn sealable(plaintext: Seq<char>, password: Seq<char>) -> bool {
    &&& encode_utf8(password).len() <= MAX_PASSWORD_LEN
    &&& encode_utf8(plaintext).len() / 64 < MAX_CIPHER_BLOCKS
}

/// What sealing `plaintext` under `password` gives once the salt and the
/// nonce are drawn.
pub open spec fn seal_outcome(
    plaintext: Seq<char>,
    password: Seq<char>,
    salt: Seq<u8>,
    nonce: Seq<u8>,
) -> Result<(Seq<u8>, MetaView), EnvLockError> {
    let costs = Argon2Config::standard();
    if encode_utf8(password).len() > MAX_PASSWORD_LEN {
        Err(EnvLockError::KeyDerivationFailed)
    } else if encode_utf8(plaintext).len() / 64 >= MAX_CIPHER_BLOCKS {
        Err(EnvLockError::EncryptionFailed)
    } else {
        let key = argon2id_key(
            encode_utf8(password),
            salt,
            costs.m_cost,
            costs.t_cost,
            costs.p_cost,
        );
        Ok(
            (
                chacha20poly1305_seal(key, nonce, encode_utf8(plaintext)),
                MetaView {
                    version: SUPPORTED_VERSION,
                    salt: base64_encode(salt),
                    nonce: base64_encode(nonce),
                    argon2: costs,
                },
            ),
        )
    }
}

/// The text that the outcome of the authenticated decryption stands for: a
/// tag that does not verify is a decryption error, and bytes that are not
/// UTF-8 are a format error.
pub open spec fn opened_text(opened: Option<Seq<u8>>) -> Result<Seq<char>, EnvLockError> {
    match opened {
        None => Err(EnvLockError::DecryptionError),
        Some(bytes) => if valid_utf8(bytes) {
            Ok(decode_utf8(bytes))
        } else {
            Err(EnvLockError::InvalidUtf8)
        },
    }
}

/// What opening `ciphertext` under `password` and `meta` gives. The
/// metadata is checked first, so that no key is derived for metadata that
/// is refused.
pub open spec fn open_outcome(ciphertext: Seq<u8>, password: Seq<char>, meta: MetaView) -> Result<
    Seq<char>,
    EnvLockError,
> {
    match checked(meta) {
        Err(e) => Err(e),
        Ok((salt, nonce)) => if encode_utf8(password).len() > MAX_PASSWORD_LEN {
            Err(EnvLockError::KeyDerivationFailed)
        } else {
            let key = argon2id_key(
                encode_utf8(password),
                salt,
                meta.argon2.m_cost,
                meta.argon2.t_cost,
                meta.argon2.p_cost,
            );
            opened_text(chacha20poly1305_open(key, nonce, ciphertext))
        },
    }
}

/// Opening hands out nothing that the cipher has not authenticated: where
/// it gives a text, the metadata was usable, and the ciphertext verified
/// under the key derived from this password and decrypted to the bytes of
/// that text.
pub proof fn lemma_open_is_authenticated(
    ciphertext: Seq<u8>,
    password: Seq<char>,
    meta: MetaView,
    text: Seq<char>,
)
    requires
        open_outcome(ciphertext, password, meta) == Ok::<Seq<char>, EnvLockError>(text),
    ensures
        meta.version == SUPPORTED_VERSION,
        checked(meta) matches Ok((salt, nonce)) && chacha20poly1305_open(
            argon2id_key(
                encode_utf8(password),
                salt,
                meta.argon2.m_cost,
                meta.argon2.t_cost,
                meta.argon2.p_cost,
            ),
            nonce,
            ciphertext,
        ) == Some(encode_utf8(text)),
{
    let (salt, nonce) = checked(meta)->Ok_0;
    let key = argon2id_key(
        encode_utf8(password),
        salt,
        meta.argon2.m_cost,
        meta.argon2.t_cost,
        meta.argon2.p_cost,
    );
    let bytes = chacha20poly1305_open(key, nonce, ciphertext)->Some_0;
    vstd::utf8::decode_utf8_encode_utf8(bytes);
}

/// Turns the outcome of the authenticated decryption into the plaintext.
pub fn plaintext_from_opened(opened: Option<Vec<u8>>) -> (r: Result<String, EnvLockError>)
    ensures
        text_view(r) == opened_text(opt_bytes(opened)),
{
    match opened {
        None => Err(EnvLockError::DecryptionError),
        Some(bytes) => match string_from_utf8(bytes) {
            Some(text) => Ok(text),
            None => Err(EnvLockError::InvalidUtf8),
        },
    }
}

/// Seals `plaintext` under `password` with the given salt and nonce.
///
/// The outcome is exactly `seal_outcome`. Whenever an envelope is produced,
/// opening it with the same password and the metadata that came with it
/// gives the plaintext back.
///
/// A nonce must never be used twice with one key: `encrypt_env` draws
/// both values afresh on every call and is what callers should use.
pub fn encrypt_env_with(
    plaintext: &str,
    password: &str,
    salt: &[u8; 16],
    nonce: &[u8; 12],
) -> (r: Result<(Vec<u8>, Meta), EnvLockError>)
    ensures
        sealed_view(r) == seal_outcome(plaintext@, password@, salt@, nonce@),
        r is Ok <==> sealable(plaintext@, password@),
        r matches Ok((c, m)) ==> open_outcome(c@, password@, m@) == Ok::<Seq<char>, EnvLockError>(
            plaintext@,
        ),
        r matches Ok((c, m)) ==> c@.len() == encode_utf8(plaintext@).len() + TAG_LEN,
{
    let costs = Argon2Config::default_costs();
    let key = match derive_key(
        password.as_bytes(),
        salt.as_slice(),
        costs.m_cost,
        costs.t_cost,
        costs.p_cost,
    ) {
        Some(k) => k,
        None => {
            return Err(EnvLockError::KeyDerivationFailed);
        },
    };
    let ciphertext = match aead_seal(key.as_slice(), nonce.as_slice(), plaintext.as_bytes()) {
        Some(c) => c,
        None => {
            return Err(EnvLockError::EncryptionFailed);
        },
    };
    let salt_text = encode_base64(salt.as_slice());
    let nonce_text = encode_base64(nonce.as_slice());
    let meta = Meta::new(SUPPORTED_VERSION, salt_text, nonce_text, costs);
    proof {
        vstd::utf8::encode_utf8_valid_utf8(plaintext@);
        vstd::utf8::encode_utf8_decode_utf8(plaintext@);
    }
    Ok((ciphertext, meta))
}

/// Seals `plaintext` under `password`, with a salt and a nonce that are
/// drawn at random for this call.
///
/// The metadata carries the salt, the nonce and the costs that were used,
/// and nothing secret. Whenever an envelope is produced, opening it with
/// the same password and that metadata gives the plaintext back.
pub fn encrypt_env(plaintext: &str, password: &str) -> (r: Result<(Vec<u8>, Meta), EnvLockError>)
    ensures
        r is Ok <==> sealable(plaintext@, password@),
        r matches Ok((c, m)) ==> exists|salt: Seq<u8>, nonce: Seq<u8>|
            salt.len() == SALT_LEN && nonce.len() == NONCE_LEN && #[trigger] seal_outcome(
                plaintext@,
                password@,
                salt,
                nonce,
            ) == Ok::<(Seq<u8>, MetaView), EnvLockError>((c@, m@)),
        r matches Ok((c, m)) ==> open_outcome(c@, password@, m@) == Ok::<Seq<char>, EnvLockError>(
            plaintext@,
        ),
        r matches Ok((c, m)) ==> c@.len() == encode_utf8(plaintext@).len() + TAG_LEN,
        r matches Err(e) ==> e == (if encode_utf8(password@).len() > MAX_PASSWORD_LEN {
            EnvLockError::KeyDerivationFailed
        } else {
            EnvLockError::EncryptionFailed
        }),
{
    let salt: [u8; 16] = random_bytes();
    let nonce: [u8; 12] = random_bytes();
    encrypt_env_with(plaintext, password, &salt, &nonce)
}

/// Opens `ciphertext` under `password` and `meta`.
///
/// The outcome is exactly `open_outcome`: the metadata is checked first (an
/// unsupported version before everything else), then the key is derived
/// and the ciphertext authenticated and decrypted. A tag that does not
/// verify gives `DecryptionError`, whatever its cause. A ciphertext that is
/// too short to hold a tag is never opened.
pub fn decrypt_env(ciphertext: &[u8], password: &str, meta: &Meta) -> (r: Result<
    String,
    EnvLockError,
>)
    ensures
        text_view(r) == open_outcome(ciphertext@, password@, meta@),
        meta@.version != SUPPORTED_VERSION ==> r == Err::<String, EnvLockError>(
            EnvLockError::UnsupportedVersion,
        ),
        ciphertext@.len() < TAG_LEN ==> r is Err,
        ciphertext@.len() < TAG_LEN && checked(meta@) is Ok && encode_utf8(password@).len()
            <= MAX_PASSWORD_LEN ==> r == Err::<String, EnvLockError>(EnvLockError::DecryptionError),
{
    let (salt, nonce) = match meta.validate() {
        Ok(p) => p,
        Err(e) => {
            return Err(e);
        },
    };
    let costs = meta.argon2();
    let key = match derive_key(
        password.as_bytes(),
        salt.as_slice(),
        costs.m_cost,
        costs.t_cost,
        costs.p_cost,
    ) {
        Some(k) => k,
        None => {
            return Err(EnvLockError::KeyDerivationFailed);
        },
    };
    plaintext_from_opened(aead_open(key.as_slice(), nonce.as_slice(), ciphertext))
}

} // verus!
