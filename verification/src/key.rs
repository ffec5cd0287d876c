//! Resolving and validating the session key at startup.

use crate::cipher::KEY_LEN;
use crate::paths::{CREDENTIAL_NAME, RUNTIME_DIR_VAR};
use crate::text::{decimal, decimal_spec};
use vstd::prelude::*;
use vstd::string::StringExecFns;

verus! {

/// Why the daemon cannot start.
#[derive(Debug, Clone, Copy, PartialEq, Eq, Structural)]
pub enum ConfigError {
    /// Neither the credentials directory nor the key-file override gives a key.
    NoKeySource,
    /// The key has `found` bytes instead of 32.
    InvalidKeyLength { found: usize },
    /// The per-user runtime directory is not known.
    NoRuntimeDir,
}

/// The environment variable that names the credentials directory, where a
/// service manager puts the key.
pub const CREDENTIALS_DIR_VAR: &'static str = "CREDENTIALS_DIRECTORY";

/// The environment variable that names a key file directly, for
/// development.
pub const KEY_FILE_VAR: &'static str = "CLIPTO_KEY_FILE";

impl ConfigError {
    /// The text that reports this error. Where no key source is set, it
    /// names both ways to set one: the credential and the key-file variable.
    pub open spec fn message_spec(self) -> Seq<char> {
        match self {
            ConfigError::NoKeySource => "no key found: run as a systemd service with LoadCredentialEncrypted="@
                + CREDENTIAL_NAME@ + ":\u{2026}, or set "@ + KEY_FILE_VAR@ + " for development"@,
            ConfigError::InvalidKeyLength { found } => "key must be exactly 32 bytes, got "@
                + decimal_spec(found as nat),
            ConfigError::NoRuntimeDir => RUNTIME_DIR_VAR@ + " not set"@,
        }
    }

    /// The text that reports this error.
    pub fn message(&self) -> (r: String)
        ensures
            r@ == self.message_spec(),
    {
        match self {
            ConfigError::NoKeySource => {
                let mut text =
                    "no key found: run as a systemd service with LoadCredentialEncrypted=".to_owned();
                text.append(CREDENTIAL_NAME);
                text.append(":\u{2026}, or set ");
                text.append(KEY_FILE_VAR);
                text.append(" for development");
                text
            },
            ConfigError::InvalidKeyLength { found } => {
                let mut text = "key must be exactly 32 bytes, got ".to_owned();
                let number = decimal(*found);
                text.append(number.as_str());
                text
            },
            ConfigError::NoRuntimeDir => {
                let mut text = RUNTIME_DIR_VAR.to_owned();
                text.append(" not set");
                text
            },
        }
    }
}

/// The report of a missing key names both ways to provide one: the
/// credential, by its name, and the key-file variable.
pub proof fn missing_key_message_names_both_sources()
    ensures
        exists|before: Seq<char>, between: Seq<char>, after: Seq<char>|
            ConfigError::NoKeySource.message_spec() == before + ("LoadCredentialEncrypted="@
                + CREDENTIAL_NAME@) + between + KEY_FILE_VAR@ + after,
{
    let before = "no key found: run as a systemd service with "@;
    let between = ":\u{2026}, or set "@;
    let after = " for development"@;
    reveal_strlit("no key found: run as a systemd service with LoadCredentialEncrypted=");
    reveal_strlit("no key found: run as a systemd service with ");
    reveal_strlit("LoadCredentialEncrypted=");
    assert("no key found: run as a systemd service with LoadCredentialEncrypted="@ =~= before
        + "LoadCredentialEncrypted="@);
    assert(ConfigError::NoKeySource.message_spec() =~= before + ("LoadCredentialEncrypted="@
        + CREDENTIAL_NAME@) + between + KEY_FILE_VAR@ + after);
}

/// Where the key is to be read from.
#[derive(Debug, PartialEq, Eq)]
pub enum KeySource {
    /// The service credential: the file with the service's credential name
    /// in this directory.
    Credential { directory: String },
    /// The development override: this file.
    KeyFile { path: String },
}

/// The source the rules pick, over plain values.
///
/// The credential wins when its directory is set and the credential file
/// exists there; otherwise the override file, when set; otherwise there is
/// no source.
pub open spec fn key_source_spec(
    credentials_dir: Option<Seq<char>>,
    credential_exists: bool,
    key_file: Option<Seq<char>>,
) -> Result<KeySourceView, ConfigError> {
    if credentials_dir is Some && credential_exists {
        Ok(KeySourceView::Credential { directory: credentials_dir->0 })
    } else if key_file is Some {
        Ok(KeySourceView::KeyFile { path: key_file->0 })
    } else {
        Err(ConfigError::NoKeySource)
    }
}

/// A key source as a mathematical value.
pub enum KeySourceView {
    Credential { directory: Seq<char> },
    KeyFile { path: Seq<char> },
}

impl View for KeySource {
    type V = KeySourceView;

    open spec fn view(&self) -> KeySourceView {
        match *self {
            KeySource::Credential { directory } => KeySourceView::Credential {
                directory: directory@,
            },
            KeySource::KeyFile { path } => KeySourceView::KeyFile { path: path@ },
        }
    }
}

/// The view of an optional string.
pub open spec fn text_view(text: Option<String>) -> Option<Seq<char>> {
    match text {
        Some(t) => Some(t@),
        None => None,
    }
}

/// The view of a key-source decision.
pub open spec fn key_source_view(r: Result<KeySource, ConfigError>) -> Result<
    KeySourceView,
    ConfigError,
> {
    match r {
        Ok(s) => Ok(s@),
        Err(e) => Err(e),
    }
}

/// Picks the key source.
///
/// `credentials_dir` is the credentials-directory setting, `credential_exists`
/// says whether the service's credential file exists in it (ignored when the
/// directory is not set), and `key_file` is the development override.
pub fn select_key_source(
    credentials_dir: Option<String>,
    credential_exists: bool,
    key_file: Option<String>,
) -> (r: Result<KeySource, ConfigError>)
    ensures
        key_source_view(r) == key_source_spec(
            text_view(credentials_dir),
            credential_exists,
            text_view(key_file),
        ),
{
    match credentials_dir {
        Some(directory) if credential_exists => Ok(KeySource::Credential { directory }),
        _ => match key_file {
            Some(path) => Ok(KeySource::KeyFile { path }),
            None => Err(ConfigError::NoKeySource),
        },
    }
}

/// Accepts a key of exactly 32 bytes and nothing else.
pub fn validate_key(bytes: &[u8]) -> (r: Result<[u8; 32], ConfigError>)
    ensures
        match r {
            Ok(key) => bytes@.len() == KEY_LEN && key@ == bytes@,
            Err(e) => bytes@.len() != KEY_LEN && e == (ConfigError::InvalidKeyLength {
                found: bytes@.len() as usize,
            }),
        },
{
    if bytes.len() != KEY_LEN {
        return Err(ConfigError::InvalidKeyLength { found: bytes.len() });
    }
    let mut key = [0u8; 32];
    let mut i: usize = 0;
    while i < KEY_LEN
        invariant
            i <= KEY_LEN,
            bytes@.len() == KEY_LEN,
            forall|j: int| 0 <= j < i ==> key@[j] == bytes@[j],
        decreases KEY_LEN - i,
    {
        key[i] = bytes[i];
        i += 1;
    }
    assert(key@ =~= bytes@);
    Ok(key)
}

} // verus!
