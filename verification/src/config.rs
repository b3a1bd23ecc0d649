//! Where the three artifacts live: the plaintext secrets file, the
//! ciphertext and the metadata. A path given on the command line wins over
//! the one of the configuration file, which wins over the default.

use crate::text::{chars_of, string_of};
use vstd::prelude::*;

verus! {

/// The default path of the plaintext secrets file.
pub open spec fn default_env_file() -> Seq<char> {
    ".env"@
}

/// The default path of the ciphertext.
pub open spec fn default_encrypted_file() -> Seq<char> {
    ".env.enc"@
}

/// The default path of the metadata.
pub open spec fn default_meta_file() -> Seq<char> {
    ".env.meta.json"@
}

/// What an `EnvLockConfig` holds, with its paths as sequences of
/// characters.
pub struct ConfigView {
    pub env_file: Seq<char>,
    pub encrypted_file: Seq<char>,
    pub meta_file: Seq<char>,
}

/// The paths of the three artifacts.
#[derive(Debug)]
pub struct EnvLockConfig {
    env_file: String,
    encrypted_file: String,
    meta_file: String,
}

impl View for EnvLockConfig {
    type V = ConfigView;

    closed spec fn view(&self) -> ConfigView {
        ConfigView {
            env_file: self.env_file@,
            encrypted_file: self.encrypted_file@,
            meta_file: self.meta_file@,
        }
    }
}

/// The chosen text where there is one, and else the fallback.
pub open spec fn chosen(choice: Option<String>, fallback: Seq<char>) -> Seq<char> {
    match choice {
        Some(s) => s@,
        None => fallback,
    }
}

/// The chosen string where there is one, and else the fallback.
pub fn choose_path(choice: Option<String>, fallback: String) -> (r: String)
    ensures
        r@ == chosen(choice, fallback@),
{
    match choice {
        Some(s) => s,
        None => fallback,
    }
}

impl EnvLockConfig {
    /// A configuration with the given paths.
    pub fn new(env_file: String, encrypted_file: String, meta_file: String) -> (c: EnvLockConfig)
        ensures
            c@ == (ConfigView {
                env_file: env_file@,
                encrypted_file: encrypted_file@,
                meta_file: meta_file@,
            }),
    {
        EnvLockConfig { env_file, encrypted_file, meta_file }
    }

    /// The default paths: `.env`, `.env.enc` and `.env.meta.json`.
    pub fn defaults() -> (c: EnvLockConfig)
        ensures
            c@ == (ConfigView {
                env_file: default_env_file(),
                encrypted_file: default_encrypted_file(),
                meta_file: default_meta_file(),
            }),
    {
        EnvLockConfig {
            env_file: ".env".to_owned(),
            encrypted_file: ".env.enc".to_owned(),
            meta_file: ".env.meta.json".to_owned(),
        }
    }

    /// The path of the plaintext secrets file.
    pub fn env_file(&self) -> (s: &str)
        ensures
            s@ == self@.env_file,
    {
        self.env_file.as_str()
    }

    /// The path of the ciphertext.
    pub fn encrypted_file(&self) -> (s: &str)
        ensures
            s@ == self@.encrypted_file,
    {
        self.encrypted_file.as_str()
    }

    /// The path of the metadata.
    pub fn meta_file(&self) -> (s: &str)
        ensures
            s@ == self@.meta_file,
    {
        self.meta_file.as_str()
    }

    /// This configuration with each path replaced by the one given for it,
    /// where one is given.
    pub fn with_overrides(
        self,
        env_file: Option<String>,
        encrypted_file: Option<String>,
        meta_file: Option<String>,
    ) -> (c: EnvLockConfig)
        ensures
            c@ == (ConfigView {
                env_file: chosen(env_file, self@.env_file),
                encrypted_file: chosen(encrypted_file, self@.encrypted_file),
                meta_file: chosen(meta_file, self@.meta_file),
            }),
    {
        EnvLockConfig {
            env_file: choose_path(env_file, self.env_file),
            encrypted_file: choose_path(encrypted_file, self.encrypted_file),
            meta_file: choose_path(meta_file, self.meta_file),
        }
    }
}

/// The paths to work on: those of the command line first, then those of
/// the configuration file, then the defaults.
pub fn resolve_paths(
    command_line: (Option<String>, Option<String>, Option<String>),
    config_file: (Option<String>, Option<String>, Option<String>),
) -> (c: EnvLockConfig)
    ensures
        c@ == (ConfigView {
            env_file: chosen(command_line.0, chosen(config_file.0, default_env_file())),
            encrypted_file: chosen(
                command_line.1,
                chosen(config_file.1, default_encrypted_file()),
            ),
            meta_file: chosen(command_line.2, chosen(config_file.2, default_meta_file())),
        }),
{
    let (cli_env, cli_enc, cli_meta) = command_line;
    let (file_env, file_enc, file_meta) = config_file;
    EnvLockConfig::defaults().with_overrides(file_env, file_enc, file_meta).with_overrides(
        cli_env,
        cli_enc,
        cli_meta,
    )
}

/// The folder part of a path: what stands before its last `/`, and nothing
/// where it has none.
pub open spec fn folder_of(path: Seq<char>) -> Seq<char>
    decreases path.len(),
{
    if path.len() == 0 {
        path
    } else if path.last() == '/' {
        path.drop_last()
    } else {
        folder_of(path.drop_last())
    }
}

/// The folder in which the file at `file_path` lies, as the path gives it.
pub fn folder_of_path(file_path: &str) -> (folder: String)
    ensures
        folder@ == folder_of(file_path@),
{
    let chars = chars_of(file_path);
    let mut end: usize = chars.len();
    assert(chars@.take(end as int) == chars@);
    while end > 0 && chars[end - 1] != '/'
        invariant
            end <= chars.len(),
            folder_of(chars@) == folder_of(chars@.take(end as int)),
        decreases end,
    {
        assert(chars@.take(end as int).drop_last() == chars@.take(end - 1));
        end -= 1;
    }
    if end == 0 {
        assert(chars@.take(0) == chars@.subrange(0, 0));
        string_of(&chars, 0, 0)
    } else {
        assert(chars@.take(end as int).drop_last() == chars@.subrange(0, end - 1));
        string_of(&chars, 0, end - 1)
    }
}

} // verus!
