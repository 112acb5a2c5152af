//! The cipher provider: maps an encryption-type identifier to symmetric
//! encrypt / decrypt / checksum operations keyed by a purpose-specific usage
//! number. The concrete suites live in the `kerberos_crypto` crate and are
//! reached through trusted wrappers; what decryption returns is pinned by the
//! uninterpreted function `decrypt_model`, so that the round-trip behaviour
//! of every suite is part of each wrapper's contract.

use vstd::prelude::*;
use crate::constants::{RC4_HMAC, AES128_CTS_HMAC_SHA1_96, AES256_CTS_HMAC_SHA1_96};
use crate::errors::KerberosError;

verus! {

/// What `KerberosCipher::decrypt` returns for a suite, key, usage number and
/// ciphertext: decryption is a function of those arguments alone.
pub uninterp spec fn decrypt_model(etype: i32, key: Seq<u8>, usage: i32, ctext: Seq<u8>) -> Option<Seq<u8>>;

/// What `kerberos_crypto::checksum_hmac_md5` returns: a function of key,
/// usage number and message alone.
pub uninterp spec fn hmac_md5_checksum_model(key: Seq<u8>, usage: i32, data: Seq<u8>) -> Seq<u8>;

/// What `kerberos_crypto::checksum_sha_aes` returns for one of the two AES
/// suites: a function of the suite, key, usage number and message alone.
pub uninterp spec fn sha_aes_checksum_model(etype: i32, key: Seq<u8>, usage: i32, data: Seq<u8>) -> Seq<u8>;

/// What key derivation from a password produces for a suite: a function of
/// the suite, the password and the salt (realm plus client name) alone.
pub uninterp spec fn derived_key_model(etype: i32, password: Seq<char>, realm: Seq<char>, client_name: Seq<char>) -> Seq<u8>;

/// The suites this provider selects by identifier: one legacy stream-cipher
/// suite and the two AES-CTS suites.
pub open spec fn etype_supported(etype: i32) -> bool {
    etype == RC4_HMAC || etype == AES128_CTS_HMAC_SHA1_96 || etype == AES256_CTS_HMAC_SHA1_96
}

/// The key length each suite's implementation accepts: the AES suites take
/// exactly their key size and abort on any other; the legacy suite keys an
/// HMAC and takes any length.
pub open spec fn key_len_ok(etype: i32, n: nat) -> bool {
    &&& etype == AES128_CTS_HMAC_SHA1_96 ==> n == 16
    &&& etype == AES256_CTS_HMAC_SHA1_96 ==> n == 32
}

/// The requested encryption types a fresh request offers, in preference
/// order.
pub fn supported_etypes() -> (r: Vec<i32>)
    ensures
        r@ =~= seq![RC4_HMAC, AES128_CTS_HMAC_SHA1_96, AES256_CTS_HMAC_SHA1_96],
        forall|i: int| 0 <= i < r@.len() ==> etype_supported(#[trigger] r@[i]),
{
    let r: Vec<i32> = vec![RC4_HMAC, AES128_CTS_HMAC_SHA1_96, AES256_CTS_HMAC_SHA1_96];
    r
}

/// Relies on `kerberos_crypto::new_kerberos_cipher` and
/// `KerberosCipher::encrypt`: every suite's ciphertext (built over a fresh
/// internal confounder, so two calls may differ) decrypts back to the
/// plaintext under the same key and usage number.
#[verifier::external_body]
fn encrypt_raw(etype: i32, key: &Vec<u8>, usage: i32, plaintext: &Vec<u8>) -> (r: Vec<u8>)
    requires
        etype_supported(etype),
        key_len_ok(etype, key@.len()),
    ensures
        decrypt_model(etype, key@, usage, r@) == Some(plaintext@),
{
    let cipher = kerberos_crypto::new_kerberos_cipher(etype).unwrap();
    cipher.encrypt(key, usage, plaintext)
}

/// Relies on `kerberos_crypto::new_kerberos_cipher` and
/// `KerberosCipher::decrypt`: decryption is deterministic in suite, key,
/// usage number and ciphertext, and fails exactly when the integrity check
/// fails.
#[verifier::external_body]
fn decrypt_raw(etype: i32, key: &Vec<u8>, usage: i32, ctext: &Vec<u8>) -> (r: Option<Vec<u8>>)
    requires
        etype_supported(etype),
        key_len_ok(etype, key@.len()),
    ensures
        r is Some <==> decrypt_model(etype, key@, usage, ctext@) is Some,
        r matches Some(p) ==> decrypt_model(etype, key@, usage, ctext@) == Some(p@),
{
    let cipher = kerberos_crypto::new_kerberos_cipher(etype).unwrap();
    cipher.decrypt(key, usage, ctext).ok()
}

/// Relies on `kerberos_crypto::checksum_hmac_md5`: the checksum is a function
/// of key, usage number and message alone, and is sixteen bytes (HMAC-MD5's
/// digest size).
#[verifier::external_body]
fn checksum_hmac_md5_raw(key: &Vec<u8>, usage: i32, data: &Vec<u8>) -> (r: Vec<u8>)
    ensures
        r@ == hmac_md5_checksum_model(key@, usage, data@),
        r@.len() == 16,
{
    kerberos_crypto::checksum_hmac_md5(key, usage, data)
}

/// Relies on `kerberos_crypto::checksum_sha_aes`: the checksum is a function
/// of the AES suite, key, usage number and message alone.
#[verifier::external_body]
fn checksum_sha_aes_raw(etype: i32, key: &Vec<u8>, usage: i32, data: &Vec<u8>) -> (r: Vec<u8>)
    requires
        etype == AES128_CTS_HMAC_SHA1_96 || etype == AES256_CTS_HMAC_SHA1_96,
        key_len_ok(etype, key@.len()),
    ensures
        r@ == sha_aes_checksum_model(etype, key@, usage, data@),
{
    let sizes = if etype == AES128_CTS_HMAC_SHA1_96 {
        kerberos_crypto::AesSizes::Aes128
    } else {
        kerberos_crypto::AesSizes::Aes256
    };
    kerberos_crypto::checksum_sha_aes(key, usage, data, &sizes)
}

/// Relies on `KerberosCipher::generate_salt` and
/// `KerberosCipher::generate_key_from_string`: the derived key is a function
/// of the suite, password, realm and client name alone, and has the suite's
/// key size (MD4 yields 16 bytes; the AES derivations yield their seed size).
#[verifier::external_body]
fn derive_key_raw(etype: i32, password: &String, realm: &String, client_name: &String) -> (r: Vec<u8>)
    requires
        etype_supported(etype),
    ensures
        r@ == derived_key_model(etype, password@, realm@, client_name@),
        key_len_ok(etype, r@.len()),
{
    let cipher = kerberos_crypto::new_kerberos_cipher(etype).unwrap();
    let salt = cipher.generate_salt(realm, client_name);
    cipher.generate_key_from_string(password, &salt)
}

/// A selected cipher suite plus its key material; no state beyond the key.
pub struct Cipher {
    pub etype: i32,
    pub key: Vec<u8>,
}

impl Cipher {
    pub open spec fn wf(self) -> bool {
        etype_supported(self.etype) && key_len_ok(self.etype, self.key@.len())
    }

    /// Selects the suite registered for this encryption-type identifier.
    /// Succeeds exactly on the supported identifiers with a key of the
    /// suite's size; anything else is refused as unusable with that suite.
    pub fn select(etype: i32, key: Vec<u8>) -> (r: Result<Cipher, KerberosError>)
        ensures
            etype_supported(etype) && key_len_ok(etype, key@.len()) ==> (r matches Ok(c)
                && c.etype == etype && c.key@ == key@ && c.wf()),
            !(etype_supported(etype) && key_len_ok(etype, key@.len())) ==> (r matches Err(e)
                && e matches KerberosError::UnsupportedEncryptionType(t) && t == etype),
    {
        if !(etype == RC4_HMAC || etype == AES128_CTS_HMAC_SHA1_96
            || etype == AES256_CTS_HMAC_SHA1_96) {
            return Err(KerberosError::UnsupportedEncryptionType(etype));
        }
        if etype == AES128_CTS_HMAC_SHA1_96 && key.len() != 16 {
            return Err(KerberosError::UnsupportedEncryptionType(etype));
        }
        if etype == AES256_CTS_HMAC_SHA1_96 && key.len() != 32 {
            return Err(KerberosError::UnsupportedEncryptionType(etype));
        }
        Ok(Cipher { etype, key })
    }

    /// Selects the suite and derives its key from the user's password, salted
    /// with realm and client name.
    pub fn from_password(etype: i32, password: &String, realm: &String, client_name: &String)
        -> (r: Result<Cipher, KerberosError>)
        ensures
            etype_supported(etype) ==> (r matches Ok(c)
                && c.etype == etype && c.wf()
                && c.key@ == derived_key_model(etype, password@, realm@, client_name@)),
            !etype_supported(etype) ==> (r matches Err(e)
                && e matches KerberosError::UnsupportedEncryptionType(t) && t == etype),
    {
        if etype == RC4_HMAC || etype == AES128_CTS_HMAC_SHA1_96
            || etype == AES256_CTS_HMAC_SHA1_96 {
            let key = derive_key_raw(etype, password, realm, client_name);
            Ok(Cipher { etype, key })
        } else {
            Err(KerberosError::UnsupportedEncryptionType(etype))
        }
    }

    /// Encrypts under the given usage number. The contract carries the
    /// round-trip law: the result decrypts back to the plaintext under the
    /// same key and usage number.
    pub fn encrypt(&self, usage: i32, plaintext: &Vec<u8>) -> (r: Vec<u8>)
        requires
            self.wf(),
        ensures
            decrypt_model(self.etype, self.key@, usage, r@) == Some(plaintext@),
    {
        encrypt_raw(self.etype, &self.key, usage, plaintext)
    }

    /// Decrypts under the given usage number; fails closed with an integrity
    /// failure exactly when the suite rejects the ciphertext.
    pub fn decrypt(&self, usage: i32, ctext: &Vec<u8>) -> (r: Result<Vec<u8>, KerberosError>)
        requires
            self.wf(),
        ensures
            r is Ok <==> decrypt_model(self.etype, self.key@, usage, ctext@) is Some,
            r matches Ok(p) ==> decrypt_model(self.etype, self.key@, usage, ctext@) == Some(p@),
            r matches Err(e) ==> e is DecryptionIntegrityFailure,
    {
        match decrypt_raw(self.etype, &self.key, usage, ctext) {
            Some(p) => Ok(p),
            None => Err(KerberosError::DecryptionIntegrityFailure),
        }
    }

    /// The suite's checksum operation, used for PA-FOR-USER checksums and PAC
    /// signatures: HMAC-MD5 for the legacy suite, SHA1-AES for the AES
    /// suites.
    pub fn checksum(&self, usage: i32, data: &Vec<u8>) -> (r: Vec<u8>)
        requires
            self.wf(),
        ensures
            self.etype == RC4_HMAC ==> r@ == hmac_md5_checksum_model(self.key@, usage, data@)
                && r@.len() == 16,
            self.etype != RC4_HMAC ==> r@ == sha_aes_checksum_model(self.etype, self.key@, usage, data@),
    {
        if self.etype == RC4_HMAC {
            checksum_hmac_md5_raw(&self.key, usage, data)
        } else {
            checksum_sha_aes_raw(self.etype, &self.key, usage, data)
        }
    }
}

/// The protocol-fixed HMAC-MD5 checksum used by the PA-FOR-USER item,
/// whatever suite the session key belongs to.
pub fn checksum_hmac_md5(key: &Vec<u8>, usage: i32, data: &Vec<u8>) -> (r: Vec<u8>)
    ensures
        r@ == hmac_md5_checksum_model(key@, usage, data@),
        r@.len() == 16,
{
    checksum_hmac_md5_raw(key, usage, data)
}

} // verus!
