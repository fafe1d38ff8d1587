use vstd::prelude::*;

verus! {

/// Failures of an index synchronisation. Every one of them is fatal to the run
/// that met it.
#[derive(Debug, Clone, Copy, PartialEq, Eq, Structural)]
pub enum Error {
    /// A malformed fingerprint, or a configuration directory that is unusable.
    ConfigError,
    /// A network failure, or a metadata response without an ETag.
    TransportError,
    /// An archive that is corrupt or lacks a member that verification reads.
    ArchiveError,
    /// No signature block, several of them, or a block without exactly one
    /// certificate and one signer.
    CertificateError,
    /// A signature that does not verify over the signed file.
    SignatureError,
    /// A signing certificate whose digest differs from the trust fingerprint.
    TrustError,
    /// A declared digest that is missing, undecodable or different from the
    /// digest of the bytes it covers.
    DigestError,
    /// A document that is not JSON or lacks a field that is required.
    SchemaError,
}

/// Failures in locating the directory that holds the cached index.
#[derive(Debug, Clone, Copy, PartialEq, Eq, Structural)]
pub enum ConfigDirError {
    NotFound,
    CouldNotCreate,
}

impl Error {
    /// The name of the failure.
    pub fn name(&self) -> (r: &'static str)
        ensures
            r@ == match *self {
                Error::ConfigError => "ConfigError"@,
                Error::TransportError => "TransportError"@,
                Error::ArchiveError => "ArchiveError"@,
                Error::CertificateError => "CertificateError"@,
                Error::SignatureError => "SignatureError"@,
                Error::TrustError => "TrustError"@,
                Error::DigestError => "DigestError"@,
                Error::SchemaError => "SchemaError"@,
            },
    {
        match self {
            Error::ConfigError => "ConfigError",
            Error::TransportError => "TransportError",
            Error::ArchiveError => "ArchiveError",
            Error::CertificateError => "CertificateError",
            Error::SignatureError => "SignatureError",
            Error::TrustError => "TrustError",
            Error::DigestError => "DigestError",
            Error::SchemaError => "SchemaError",
        }
    }
}

impl ConfigDirError {
    /// The name of the failure.
    pub fn name(&self) -> (r: &'static str)
        ensures
            r@ == match *self {
                ConfigDirError::NotFound => "NotFound"@,
                ConfigDirError::CouldNotCreate => "CouldNotCreate"@,
            },
    {
        match self {
            ConfigDirError::NotFound => "NotFound",
            ConfigDirError::CouldNotCreate => "CouldNotCreate",
        }
    }

    /// Every configuration directory failure is a configuration error.
    pub fn to_error(&self) -> (r: Error)
        ensures
            r == Error::ConfigError,
    {
        Error::ConfigError
    }
}

} // verus!
