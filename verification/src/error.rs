//! The failures that sealing and opening an envelope can report.

use vstd::prelude::*;

verus! {

/// Why an envelope could not be sealed or opened.
#[derive(Debug, Clone, Copy, PartialEq, Eq, Structural)]
pub enum EnvLockError {
    /// Authentication of the ciphertext failed: the password is wrong, or the
    /// ciphertext, the salt or the nonce was altered. The two causes are
    /// deliberately not told apart.
    DecryptionError,
    /// A field that the metadata must have is missing, or holds something
    /// other than what it must hold.
    MissingField,
    /// The metadata carries a format version that this library does not know.
    UnsupportedVersion,
    /// The stored salt is not the base64 text of 16 bytes.
    InvalidSalt,
    /// The stored nonce is not the base64 text of 12 bytes.
    InvalidNonce,
    /// The stored key-derivation costs are outside the accepted bounds.
    InvalidKdfParams,
    /// The decrypted bytes are not valid UTF-8 text.
    InvalidUtf8,
    /// The password is too long for the key-derivation function.
    KeyDerivationFailed,
    /// The plaintext is too long for the cipher.
    EncryptionFailed,
    /// The password and its confirmation differ.
    PasswordMismatch,
}

impl EnvLockError {
    /// Format errors are those caused by malformed metadata or by a payload
    /// that is not text.
    pub open spec fn is_format_error(self) -> bool {
        self == EnvLockError::MissingField || self == EnvLockError::UnsupportedVersion || self
            == EnvLockError::InvalidSalt || self == EnvLockError::InvalidNonce || self
            == EnvLockError::InvalidKdfParams || self == EnvLockError::InvalidUtf8
    }

    /// The text shown to the user for each failure. A decryption error has
    /// one text, whatever its cause.
    pub open spec fn message_text(self) -> Seq<char> {
        match self {
            EnvLockError::DecryptionError => "Failed to decrypt: wrong password or corrupted file"@,
            EnvLockError::MissingField => "Missing metadata field"@,
            EnvLockError::UnsupportedVersion => "Unsupported metadata version"@,
            EnvLockError::InvalidSalt => "Invalid base64 salt"@,
            EnvLockError::InvalidNonce => "Invalid base64 nonce"@,
            EnvLockError::InvalidKdfParams => "Invalid Argon2 parameters"@,
            EnvLockError::InvalidUtf8 => "Decrypted data is not valid UTF-8"@,
            EnvLockError::KeyDerivationFailed => "Key derivation failed"@,
            EnvLockError::EncryptionFailed => "Encryption failed"@,
            EnvLockError::PasswordMismatch => "Passwords do not match"@,
        }
    }

    /// Whether this failure is a format error.
    pub fn is_format(&self) -> (r: bool)
        ensures
            r == self.is_format_error(),
    {
        match self {
            EnvLockError::MissingField => true,
            EnvLockError::UnsupportedVersion => true,
            EnvLockError::InvalidSalt => true,
            EnvLockError::InvalidNonce => true,
            EnvLockError::InvalidKdfParams => true,
            EnvLockError::InvalidUtf8 => true,
            _ => false,
        }
    }

    /// The message for this failure, as an owned string.
    pub fn message(&self) -> (s: String)
        ensures
            s@ == self.message_text(),
    {
        match self {
            EnvLockError::DecryptionError => {
                "Failed to decrypt: wrong password or corrupted file".to_owned()
            },
            EnvLockError::MissingField => "Missing metadata field".to_owned(),
            EnvLockError::UnsupportedVersion => "Unsupported metadata version".to_owned(),
            EnvLockError::InvalidSalt => "Invalid base64 salt".to_owned(),
            EnvLockError::InvalidNonce => "Invalid base64 nonce".to_owned(),
            EnvLockError::InvalidKdfParams => "Invalid Argon2 parameters".to_owned(),
            EnvLockError::InvalidUtf8 => "Decrypted data is not valid UTF-8".to_owned(),
            EnvLockError::KeyDerivationFailed => "Key derivation failed".to_owned(),
            EnvLockError::EncryptionFailed => "Encryption failed".to_owned(),
            EnvLockError::PasswordMismatch => "Passwords do not match".to_owned(),
        }
    }
}

} // verus!
