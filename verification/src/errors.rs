//! The failure kinds surfaced by the library. Requesters and the vault
//! return a tagged failure rather than recovering: there is no silent
//! fallback between encryption types or credential formats.

use vstd::prelude::*;

verus! {

#[derive(Clone, Debug)]
pub enum KerberosError {
    /// No cipher suite is registered for this encryption-type identifier.
    UnsupportedEncryptionType(i32),
    /// Decryption failed its integrity check (wrong key or key usage).
    DecryptionIntegrityFailure,
    /// The KDC answered with a KRB-ERROR carrying this code and text.
    KdcProtocolError { code: i32, text: String },
    /// The response did not match the exchange's expected message type.
    UnexpectedResponseType,
    /// The vault holds no credential for the requested principal pair.
    MissingCredential,
    /// The credential-cache bytes do not decode in any supported layout.
    MalformedCredentialFile,
    /// The transport collaborator failed; propagated, never retried here.
    TransportFailure,
}

} // verus!
