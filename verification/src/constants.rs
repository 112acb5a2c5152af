//! Protocol-mandated integer identifiers: encryption types, key-usage
//! numbers, pre-authentication data types, principal-name types, KDC option
//! flags and checksum types. Using the wrong key-usage number against a real
//! KDC yields silent garbage, so every call site threads the exact constant
//! for its message role.

use vstd::prelude::*;

verus! {

// Encryption-type identifiers.
pub const RC4_HMAC: i32 = 23;
pub const AES128_CTS_HMAC_SHA1_96: i32 = 17;
pub const AES256_CTS_HMAC_SHA1_96: i32 = 18;

// Key-usage numbers, scoping a key to one message role.
pub const KEY_USAGE_AS_REQ_TIMESTAMP: i32 = 1;
pub const KEY_USAGE_AS_REP_TICKET: i32 = 2;
pub const KEY_USAGE_AS_REP_ENC_PART: i32 = 3;
pub const KEY_USAGE_TGS_REQ_AUTHEN: i32 = 7;
pub const KEY_USAGE_TGS_REP_ENC_PART_SESSION_KEY: i32 = 8;
pub const KEY_USAGE_KERB_NON_KERB_CKSUM_SALT: i32 = 17;

// Pre-authentication data types.
pub const PA_TGS_REQ: i32 = 1;
pub const PA_ENC_TIMESTAMP: i32 = 2;
pub const PA_PAC_REQUEST: i32 = 128;
pub const PA_FOR_USER: i32 = 129;

// Principal-name type tags.
pub const NT_UNKNOWN: i32 = 0;
pub const NT_PRINCIPAL: i32 = 1;
pub const NT_SRV_INST: i32 = 2;

// KDC option flags.
pub const FORWARDABLE: u32 = 0x40000000;
pub const RENEWABLE: u32 = 0x00800000;
pub const CANONICALIZE: u32 = 0x00010000;
pub const RENEWABLE_OK: u32 = 0x10;

// Checksum types.
pub const CKSUM_HMAC_MD5: i32 = -138;

// KDC error codes.
pub const KDC_ERR_PREAUTH_REQUIRED: i32 = 25;

} // verus!
