//! The server's configuration and the rules it has to meet before the
//! server starts.

use vstd::prelude::*;

verus! {

/// The settings of the server.
#[derive(Debug, Clone)]
pub struct Config {
    /// Path to the TLS certificate file (PEM).
    pub cert: Option<String>,
    /// Path to the TLS private key file (PEM).
    pub key: Option<String>,
    /// Whether a self-signed certificate is made at start, for development.
    pub self_signed_certs_on_the_fly: bool,
    /// The directory whose media is served.
    pub media_dir: String,
    /// User name for HTTP Basic authentication.
    pub username: String,
    /// Password for HTTP Basic authentication.
    pub password: String,
    /// Host or address to bind to.
    pub host: String,
    /// Port to listen on.
    pub port: u16,
}

/// What the filesystem says of the paths that a configuration names.
#[derive(Debug, Clone, Copy)]
pub struct ConfigFiles {
    pub cert_exists: bool,
    pub key_exists: bool,
    pub media_dir_exists: bool,
    pub media_dir_is_dir: bool,
}

/// Why a configuration is refused.
#[derive(Debug, Clone, Copy, PartialEq, Eq, Structural)]
pub enum ConfigError {
    /// Neither a certificate with its key nor a self-signed one is asked for.
    CertificateNotConfigured,
    CertificateMissing,
    PrivateKeyMissing,
    MediaDirMissing,
    MediaDirNotDirectory,
    EmptyUsername,
    EmptyPassword,
}

/// The first rule that a configuration breaks, if it breaks one.
///
/// Without a self-signed certificate, a certificate and a key have to be
/// named, and both files have to exist. The media directory has to exist
/// and be a directory. User name and password must not be empty.
pub open spec fn first_fault(
    cert: bool,
    key: bool,
    self_signed: bool,
    username: Seq<char>,
    password: Seq<char>,
    files: ConfigFiles,
) -> Option<ConfigError> {
    if !self_signed && !(cert && key) {
        Some(ConfigError::CertificateNotConfigured)
    } else if !self_signed && !files.cert_exists {
        Some(ConfigError::CertificateMissing)
    } else if !self_signed && !files.key_exists {
        Some(ConfigError::PrivateKeyMissing)
    } else if !files.media_dir_exists {
        Some(ConfigError::MediaDirMissing)
    } else if !files.media_dir_is_dir {
        Some(ConfigError::MediaDirNotDirectory)
    } else if username.len() == 0 {
        Some(ConfigError::EmptyUsername)
    } else if password.len() == 0 {
        Some(ConfigError::EmptyPassword)
    } else {
        None
    }
}

impl Config {
    /// Checks the configuration against what the filesystem says of the
    /// paths it names.
    pub fn validate(&self, files: &ConfigFiles) -> (checked: Result<(), ConfigError>)
        ensures
            match checked {
                Ok(()) => first_fault(
                    self.cert is Some,
                    self.key is Some,
                    self.self_signed_certs_on_the_fly,
                    self.username@,
                    self.password@,
                    *files,
                ) is None,
                Err(e) => first_fault(
                    self.cert is Some,
                    self.key is Some,
                    self.self_signed_certs_on_the_fly,
                    self.username@,
                    self.password@,
                    *files,
                ) == Some(e),
            },
    {
        if !self.self_signed_certs_on_the_fly {
            if self.cert.is_none() || self.key.is_none() {
                return Err(ConfigError::CertificateNotConfigured);
            }
            if !files.cert_exists {
                return Err(ConfigError::CertificateMissing);
            }
            if !files.key_exists {
                return Err(ConfigError::PrivateKeyMissing);
            }
        }
        if !files.media_dir_exists {
            return Err(ConfigError::MediaDirMissing);
        }
        if !files.media_dir_is_dir {
            return Err(ConfigError::MediaDirNotDirectory);
        }
        if self.username.as_str().is_empty() {
            return Err(ConfigError::EmptyUsername);
        }
        if self.password.as_str().is_empty() {
            return Err(ConfigError::EmptyPassword);
        }
        Ok(())
    }

    /// Whether certificate or key are named although a self-signed
    /// certificate is asked for, in which case they are ignored.
    pub fn ignores_certificate(&self) -> (ignored: bool)
        ensures
            ignored == (self.self_signed_certs_on_the_fly && (self.cert is Some || self.key
                is Some)),
    {
        self.self_signed_certs_on_the_fly && (self.cert.is_some() || self.key.is_some())
    }
}

impl ConfigError {
    /// What is wrong, in words.
    pub open spec fn spec_message(self) -> Seq<char> {
        match self {
            ConfigError::CertificateNotConfigured => "Either provide --cert and --key, or use --self-signed-certs-on-the-fly"@,
            ConfigError::CertificateMissing => "Certificate file does not exist"@,
            ConfigError::PrivateKeyMissing => "Private key file does not exist"@,
            ConfigError::MediaDirMissing => "Media directory does not exist"@,
            ConfigError::MediaDirNotDirectory => "Media path is not a directory"@,
            ConfigError::EmptyUsername => "Username cannot be empty"@,
            ConfigError::EmptyPassword => "Password cannot be empty"@,
        }
    }

    /// What is wrong, in words.
    pub fn message(&self) -> (text: &'static str)
        ensures
            text@ == self.spec_message(),
    {
        match self {
            ConfigError::CertificateNotConfigured => "Either provide --cert and --key, or use --self-signed-certs-on-the-fly",
            ConfigError::CertificateMissing => "Certificate file does not exist",
            ConfigError::PrivateKeyMissing => "Private key file does not exist",
            ConfigError::MediaDirMissing => "Media directory does not exist",
            ConfigError::MediaDirNotDirectory => "Media path is not a directory",
            ConfigError::EmptyUsername => "Username cannot be empty",
            ConfigError::EmptyPassword => "Password cannot be empty",
        }
    }
}

} // verus!
