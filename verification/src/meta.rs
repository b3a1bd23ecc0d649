//! The metadata that accompanies an envelope: everything that is needed,
//! besides the password, to derive the key again and open the ciphertext.
//! It holds no secret.

use crate::error::EnvLockError;
use crate::primitives::{
    base64_decode, decode_base64, kdf_accepts, opt_bytes, MAX_KDF_MEMORY, NONCE_LEN, SALT_LEN,
};
use vstd::prelude::*;

verus! {

/// The only envelope format that this library writes and reads.
pub const SUPPORTED_VERSION: u8 = 1;

/// Memory cost of a new envelope, in KiB (64 MiB).
pub const DEFAULT_M_COST: u32 = 65536;

/// Number of passes of a new envelope.
pub const DEFAULT_T_COST: u32 = 3;

/// Degree of parallelism of a new envelope.
pub const DEFAULT_P_COST: u32 = 1;

/// The largest memory cost that is accepted when opening, in KiB (2 GiB).
pub const MAX_M_COST: u32 = MAX_KDF_MEMORY;

/// The largest number of passes that is accepted when opening.
pub const MAX_T_COST: u32 = 1024;

/// The costs of the key derivation.
#[derive(Debug, Clone, Copy, PartialEq, Eq, Structural)]
pub struct Argon2Config {
    /// Memory, in KiB.
    pub m_cost: u32,
    /// Number of passes.
    pub t_cost: u32,
    /// Degree of parallelism.
    pub p_cost: u32,
}

impl Argon2Config {
    /// The costs with which every envelope is sealed.
    pub open spec fn standard() -> Argon2Config {
        Argon2Config { m_cost: DEFAULT_M_COST, t_cost: DEFAULT_T_COST, p_cost: DEFAULT_P_COST }
    }

    /// Costs are acceptable when the key-derivation function takes them
    /// and neither memory nor passes exceed the defensive limits.
    pub open spec fn acceptable(self) -> bool {
        &&& kdf_accepts(self.m_cost, self.t_cost, self.p_cost)
        &&& self.m_cost <= MAX_M_COST
        &&& self.t_cost <= MAX_T_COST
    }

    /// The costs with which every envelope is sealed.
    pub fn default_costs() -> (c: Argon2Config)
        ensures
            c == Argon2Config::standard(),
            c.acceptable(),
    {
        Argon2Config { m_cost: DEFAULT_M_COST, t_cost: DEFAULT_T_COST, p_cost: DEFAULT_P_COST }
    }

    /// Whether these costs are acceptable.
    pub fn is_acceptable(&self) -> (r: bool)
        ensures
            r == self.acceptable(),
    {
        1 <= self.p_cost && self.p_cost <= 0xFF_FFFF && 8 <= self.m_cost && self.p_cost
            <= self.m_cost / 8 && 1 <= self.t_cost && self.m_cost <= MAX_M_COST && self.t_cost
            <= MAX_T_COST
    }
}

/// What a `Meta` holds, with its texts as sequences of characters.
pub struct MetaView {
    pub version: u8,
    pub salt: Seq<char>,
    pub nonce: Seq<char>,
    pub argon2: Argon2Config,
}

/// The metadata of one envelope.
#[derive(Debug)]
pub struct Meta {
    version: u8,
    salt: String,
    nonce: String,
    argon2: Argon2Config,
}

impl View for Meta {
    type V = MetaView;

    closed spec fn view(&self) -> MetaView {
        MetaView {
            version: self.version,
            salt: self.salt@,
            nonce: self.nonce@,
            argon2: self.argon2,
        }
    }
}

/// What a metadata file was found to hold, field by field: a field is
/// there if the file has it and its value is of the right kind, an
/// unsigned integer or a string. Fields that the file has beyond these are
/// of no concern.
#[derive(Debug)]
pub struct RawMeta {
    pub version: Option<u64>,
    pub salt: Option<String>,
    pub nonce: Option<String>,
    pub m_cost: Option<u64>,
    pub t_cost: Option<u64>,
    pub p_cost: Option<u64>,
}

/// The salt that a decoded text stands for: it must be there and have 16
/// bytes.
pub open spec fn salt_of(decoded: Option<Seq<u8>>) -> Result<Seq<u8>, EnvLockError> {
    match decoded {
        Some(b) => if b.len() == SALT_LEN {
            Ok(b)
        } else {
            Err(EnvLockError::InvalidSalt)
        },
        None => Err(EnvLockError::InvalidSalt),
    }
}

/// The nonce that a decoded text stands for: it must be there and have 12
/// bytes.
pub open spec fn nonce_of(decoded: Option<Seq<u8>>) -> Result<Seq<u8>, EnvLockError> {
    match decoded {
        Some(b) => if b.len() == NONCE_LEN {
            Ok(b)
        } else {
            Err(EnvLockError::InvalidNonce)
        },
        None => Err(EnvLockError::InvalidNonce),
    }
}

/// The salt and the nonce that usable metadata gives, or the first fault
/// found in it: the version is looked at first, then the salt, the nonce
/// and the costs.
pub open spec fn checked(meta: MetaView) -> Result<(Seq<u8>, Seq<u8>), EnvLockError> {
    if meta.version != SUPPORTED_VERSION {
        Err(EnvLockError::UnsupportedVersion)
    } else {
        match salt_of(base64_decode(meta.salt)) {
            Err(e) => Err(e),
            Ok(salt) => match nonce_of(base64_decode(meta.nonce)) {
                Err(e) => Err(e),
                Ok(nonce) => if meta.argon2.acceptable() {
                    Ok((salt, nonce))
                } else {
                    Err(EnvLockError::InvalidKdfParams)
                },
            },
        }
    }
}

/// The metadata that the fields of a file give, or the first fault found:
/// the version comes first and must be the supported one; then every other
/// field must be there, the costs must fit 32 bits, and what results must
/// pass `checked`.
pub open spec fn decoded(raw: RawMeta) -> Result<MetaView, EnvLockError> {
    match raw.version {
        None => Err(EnvLockError::MissingField),
        Some(version) => if version != SUPPORTED_VERSION {
            Err(EnvLockError::UnsupportedVersion)
        } else {
            match (raw.salt, raw.nonce, raw.m_cost, raw.t_cost, raw.p_cost) {
                (Some(salt), Some(nonce), Some(m), Some(t), Some(p)) => if m > u32::MAX || t
                    > u32::MAX || p > u32::MAX {
                    Err(EnvLockError::InvalidKdfParams)
                } else {
                    let meta = MetaView {
                        version: SUPPORTED_VERSION,
                        salt: salt@,
                        nonce: nonce@,
                        argon2: Argon2Config {
                            m_cost: m as u32,
                            t_cost: t as u32,
                            p_cost: p as u32,
                        },
                    };
                    match checked(meta) {
                        Err(e) => Err(e),
                        Ok(_) => Ok(meta),
                    }
                },
                _ => Err(EnvLockError::MissingField),
            }
        },
    }
}

/// Metadata, or a failure, with the view in place of the value.
pub open spec fn meta_view(r: Result<Meta, EnvLockError>) -> Result<MetaView, EnvLockError> {
    match r {
        Ok(m) => Ok(m@),
        Err(e) => Err(e),
    }
}

/// A pair of byte vectors, or a failure, with views in place of the vectors.
pub open spec fn pair_bytes(r: Result<(Vec<u8>, Vec<u8>), EnvLockError>) -> Result<
    (Seq<u8>, Seq<u8>),
    EnvLockError,
> {
    match r {
        Ok((a, b)) => Ok((a@, b@)),
        Err(e) => Err(e),
    }
}

/// A byte vector, or a failure, with the view in place of the vector.
pub open spec fn res_bytes(r: Result<Vec<u8>, EnvLockError>) -> Result<Seq<u8>, EnvLockError> {
    match r {
        Ok(a) => Ok(a@),
        Err(e) => Err(e),
    }
}

/// Accepts a decoded salt of the right length.
pub fn salt_from_decoded(decoded: Option<Vec<u8>>) -> (r: Result<Vec<u8>, EnvLockError>)
    ensures
        res_bytes(r) == salt_of(opt_bytes(decoded)),
{
    match decoded {
        Some(b) => if b.len() == SALT_LEN {
            Ok(b)
        } else {
            Err(EnvLockError::InvalidSalt)
        },
        None => Err(EnvLockError::InvalidSalt),
    }
}

/// Accepts a decoded nonce of the right length.
pub fn nonce_from_decoded(decoded: Option<Vec<u8>>) -> (r: Result<Vec<u8>, EnvLockError>)
    ensures
        res_bytes(r) == nonce_of(opt_bytes(decoded)),
{
    match decoded {
        Some(b) => if b.len() == NONCE_LEN {
            Ok(b)
        } else {
            Err(EnvLockError::InvalidNonce)
        },
        None => Err(EnvLockError::InvalidNonce),
    }
}

impl Meta {
    /// Metadata with the given contents. Nothing is checked here: see
    /// `validate`.
    pub fn new(version: u8, salt: String, nonce: String, argon2: Argon2Config) -> (m: Meta)
        ensures
            m@ == (MetaView { version, salt: salt@, nonce: nonce@, argon2 }),
    {
        Meta { version, salt, nonce, argon2 }
    }

    /// Decodes metadata from the fields that its file was found to hold.
    ///
    /// A missing field is refused, and so is a version other than the
    /// supported one, whatever the other fields hold. Metadata that is
    /// handed out has passed `validate`.
    pub fn decode(raw: RawMeta) -> (r: Result<Meta, EnvLockError>)
        ensures
            meta_view(r) == decoded(raw),
            raw.version matches Some(v) && v != SUPPORTED_VERSION ==> r matches Err(
                EnvLockError::UnsupportedVersion,
            ),
            r matches Ok(m) ==> checked(m@) is Ok,
    {
        let version = match raw.version {
            Some(v) => v,
            None => {
                return Err(EnvLockError::MissingField);
            },
        };
        if version != SUPPORTED_VERSION as u64 {
            return Err(EnvLockError::UnsupportedVersion);
        }
        let (salt, nonce, m, t, p) = match (raw.salt, raw.nonce, raw.m_cost, raw.t_cost, raw.p_cost) {
            (Some(salt), Some(nonce), Some(m), Some(t), Some(p)) => (salt, nonce, m, t, p),
            _ => {
                return Err(EnvLockError::MissingField);
            },
        };
        if m > 0xFFFF_FFFF || t > 0xFFFF_FFFF || p > 0xFFFF_FFFF {
            return Err(EnvLockError::InvalidKdfParams);
        }
        let argon2 = Argon2Config { m_cost: m as u32, t_cost: t as u32, p_cost: p as u32 };
        let meta = Meta { version: SUPPORTED_VERSION, salt, nonce, argon2 };
        match meta.validate() {
            Ok(_) => Ok(meta),
            Err(e) => Err(e),
        }
    }

    /// The fields that a file has to hold for this metadata. Decoding them
    /// gives the same metadata back, provided that it passes `validate`.
    pub fn to_raw(&self) -> (raw: RawMeta)
        ensures
            decoded(raw) == (match checked(self@) {
                Ok(_) => Ok::<MetaView, EnvLockError>(self@),
                Err(e) => Err::<MetaView, EnvLockError>(e),
            }),
    {
        RawMeta {
            version: Some(self.version as u64),
            salt: Some(self.salt.clone()),
            nonce: Some(self.nonce.clone()),
            m_cost: Some(self.argon2.m_cost as u64),
            t_cost: Some(self.argon2.t_cost as u64),
            p_cost: Some(self.argon2.p_cost as u64),
        }
    }

    /// The format version.
    pub fn version(&self) -> (v: u8)
        ensures
            v == self@.version,
    {
        self.version
    }

    /// The salt, as base64 text.
    pub fn salt(&self) -> (s: &str)
        ensures
            s@ == self@.salt,
    {
        self.salt.as_str()
    }

    /// The nonce, as base64 text.
    pub fn nonce(&self) -> (s: &str)
        ensures
            s@ == self@.nonce,
    {
        self.nonce.as_str()
    }

    /// The costs of the key derivation.
    pub fn argon2(&self) -> (c: Argon2Config)
        ensures
            c == self@.argon2,
    {
        self.argon2
    }

    /// Whether the format version is the supported one.
    pub fn has_supported_version(&self) -> (r: bool)
        ensures
            r == (self@.version == SUPPORTED_VERSION),
    {
        self.version == SUPPORTED_VERSION
    }

    /// Checks the metadata and decodes its salt and nonce. An unsupported
    /// version is reported before anything else is looked at.
    pub fn validate(&self) -> (r: Result<(Vec<u8>, Vec<u8>), EnvLockError>)
        ensures
            pair_bytes(r) == checked(self@),
            self@.version != SUPPORTED_VERSION ==> r == Err::<(Vec<u8>, Vec<u8>), EnvLockError>(
                EnvLockError::UnsupportedVersion,
            ),
    {
        if self.version != SUPPORTED_VERSION {
            return Err(EnvLockError::UnsupportedVersion);
        }
        let salt = match salt_from_decoded(decode_base64(self.salt.as_str())) {
            Ok(s) => s,
            Err(e) => {
                return Err(e);
            },
        };
        let nonce = match nonce_from_decoded(decode_base64(self.nonce.as_str())) {
            Ok(n) => n,
            Err(e) => {
                return Err(e);
            },
        };
        if !self.argon2.is_acceptable() {
            return Err(EnvLockError::InvalidKdfParams);
        }
        Ok((salt, nonce))
    }
}

} // verus!
