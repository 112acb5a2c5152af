//! The protocol engine: classify KDC responses, decrypt and decode reply
//! enc-parts under the protocol-mandated key-usage numbers, build TGS
//! requests (plain and S4U2Self), and run the AS and TGS exchanges over a
//! caller-supplied transport.

use vstd::prelude::*;
use vstd::bytes::u32_to_le_bytes;
use vstd::utf8::encode_utf8;
use crate::model::{PrincipalName, PrincipalNameModel, KerberosUser, EncryptedPayload, Ticket,
    SessionKeyInfo, SessionKeyInfoModel, Credential, CredentialModel, CredentialSet, KdcRep,
    KdcRepModel, EncRepPart, EncRepPartModel, username_to_principal_name,
    gen_krbtgt_principal_name, clone_bytes, clone_principal_name};
use crate::errors::KerberosError;
use crate::constants::{NT_UNKNOWN, NT_PRINCIPAL, NT_SRV_INST, KEY_USAGE_AS_REQ_TIMESTAMP,
    KEY_USAGE_AS_REP_ENC_PART, KEY_USAGE_TGS_REQ_AUTHEN, KEY_USAGE_TGS_REP_ENC_PART_SESSION_KEY,
    KEY_USAGE_KERB_NON_KERB_CKSUM_SALT, PA_TGS_REQ, PA_ENC_TIMESTAMP, PA_FOR_USER,
    KDC_ERR_PREAUTH_REQUIRED, RC4_HMAC, AES128_CTS_HMAC_SHA1_96, AES256_CTS_HMAC_SHA1_96};
use crate::crypto::{Cipher, etype_supported, key_len_ok, decrypt_model,
    hmac_md5_checksum_model, derived_key_model, checksum_hmac_md5};
use crate::dertime::{der_times_ok, check_der_times};
use crate::strutil::{split_spn, split_on_slash, string_to_bytes};
use crate::asn1::{as_rep_parse_of, tgs_rep_parse_of, krb_error_parse_of,
    enc_as_rep_part_parse_of, enc_tgs_rep_part_parse_of, pa_for_user_der_of, ap_req_der_of,
    authenticator_der_of, time_wf,
    parse_as_rep, parse_tgs_rep, parse_krb_error, parse_enc_as_rep_part, parse_enc_tgs_rep_part,
    encode_authenticator, encode_ap_req, encode_pa_for_user, encode_as_req, encode_tgs_req,
    encode_pa_enc_ts, encode_encrypted_data};
use crate::builder::{KdcReqBuilder, PreAuthData, AsReq, TgsReq, current_time, req_times_wf};

verus! {

/// A KDC message classified by type tag: the closed union every exchange
/// must handle exhaustively.
pub enum Rep {
    AsRepMsg(KdcRep),
    TgsRepMsg(KdcRep),
    ErrorMsg(i32, String),
    Raw,
}

/// The transport collaborator: sends a raw request and returns the raw
/// response. Retry and timeout policy live behind this trait, not here.
pub trait KerberosTransporter {
    fn send_recv(&self, raw: &Vec<u8>) -> Result<Vec<u8>, KerberosError>;
}

/// Classifies a raw KDC message: AS-REP, then TGS-REP, then KRB-ERROR, else
/// unparseable. A message whose time fields the calendar check refuses is
/// treated as unparseable rather than handed to the aborting error decoder.
pub fn classify_rep(raw: &Vec<u8>) -> (r: Rep)
    ensures
        !der_times_ok(raw@) ==> r is Raw,
        der_times_ok(raw@) ==> (as_rep_parse_of(raw@) matches Some(m)
            ==> (r matches Rep::AsRepMsg(a) && a@ == m)),
        der_times_ok(raw@) && as_rep_parse_of(raw@) is None
            ==> (tgs_rep_parse_of(raw@) matches Some(m)
                ==> (r matches Rep::TgsRepMsg(a) && a@ == m)),
        der_times_ok(raw@) && as_rep_parse_of(raw@) is None && tgs_rep_parse_of(raw@) is None
            ==> (krb_error_parse_of(raw@) matches Some(e)
                ==> (r matches Rep::ErrorMsg(c, t) && c == e.0 && t@ == e.1)),
        der_times_ok(raw@) && as_rep_parse_of(raw@) is None && tgs_rep_parse_of(raw@) is None
            && krb_error_parse_of(raw@) is None ==> r is Raw,
        r matches Rep::AsRepMsg(a) ==> as_rep_parse_of(raw@) == Some(a@),
        r matches Rep::TgsRepMsg(a) ==> tgs_rep_parse_of(raw@) == Some(a@),
        r matches Rep::ErrorMsg(c, t) ==> krb_error_parse_of(raw@) == Some((c, t@)),
{
    if !check_der_times(raw) {
        return Rep::Raw;
    }
    match parse_as_rep(raw) {
        Option::Some(m) => Rep::AsRepMsg(m),
        Option::None => match parse_tgs_rep(raw) {
            Option::Some(m) => Rep::TgsRepMsg(m),
            Option::None => {
                match parse_krb_error(raw) {
                    Option::Some((code, text)) => Rep::ErrorMsg(code, text),
                    Option::None => Rep::Raw,
                }
            },
        },
    }
}

/// The session-key record derived from a decoded reply enc-part plus the
/// reply's client identity.
pub open spec fn cred_info_model(p: EncRepPartModel, crealm: Seq<char>, cname: PrincipalNameModel)
    -> SessionKeyInfoModel {
    SessionKeyInfoModel {
        key_type: p.key_type,
        key_value: p.key_value,
        flags: p.flags,
        auth_time: p.auth_time,
        start_time: p.start_time,
        end_time: p.end_time,
        renew_till: p.renew_till,
        client_realm: crealm,
        client_name: cname,
        server_realm: p.server_realm,
        server_name: p.server_name,
    }
}

/// Pairs a decoded reply enc-part with the reply's client identity.
pub fn create_krb_cred_info(enc_part: EncRepPart, crealm: String, cname: PrincipalName)
    -> (r: SessionKeyInfo)
    ensures
        r@ == cred_info_model(enc_part@, crealm@, cname@),
{
    let r = SessionKeyInfo {
        key_type: enc_part.key_type,
        key_value: enc_part.key_value,
        flags: enc_part.flags,
        auth_time: enc_part.auth_time,
        start_time: enc_part.start_time,
        end_time: enc_part.end_time,
        renew_till: enc_part.renew_till,
        client_realm: crealm,
        client_name: cname,
        server_realm: enc_part.server_realm,
        server_name: enc_part.server_name,
    };
    proof {
        assert(r@ =~= cred_info_model(enc_part@, crealm@, cname@));
    }
    r
}

/// Decrypts the AS-REP enc-part with the client key under the AS-REP usage
/// number. Succeeds exactly when the suites agree and the integrity check
/// passes.
pub fn decrypt_as_rep_enc_part(cipher: &Cipher, enc_part: &EncryptedPayload)
    -> (r: Result<Vec<u8>, KerberosError>)
    requires
        cipher.wf(),
    ensures
        r is Ok <==> (cipher.etype == enc_part.etype
            && decrypt_model(cipher.etype, cipher.key@, KEY_USAGE_AS_REP_ENC_PART,
                enc_part.cipher@) is Some),
        r matches Ok(p) ==> decrypt_model(cipher.etype, cipher.key@, KEY_USAGE_AS_REP_ENC_PART,
            enc_part.cipher@) == Some(p@),
        cipher.etype != enc_part.etype ==> (r matches Err(e) && e is UnexpectedResponseType),
        cipher.etype == enc_part.etype && r is Err ==> (r matches Err(e)
            && e is DecryptionIntegrityFailure),
{
    if cipher.etype != enc_part.etype {
        return Err(KerberosError::UnexpectedResponseType);
    }
    cipher.decrypt(KEY_USAGE_AS_REP_ENC_PART, &enc_part.cipher)
}

/// Decrypts the TGS-REP enc-part with the session key under the
/// session-key-keyed TGS-REP usage number.
pub fn decrypt_tgs_rep_enc_part(session_key: &Vec<u8>, enc_part: &EncryptedPayload)
    -> (r: Result<Vec<u8>, KerberosError>)
    ensures
        !(etype_supported(enc_part.etype) && key_len_ok(enc_part.etype, session_key@.len()))
            ==> (r matches Err(e)
                && e matches KerberosError::UnsupportedEncryptionType(t) && t == enc_part.etype),
        etype_supported(enc_part.etype) && key_len_ok(enc_part.etype, session_key@.len())
            ==> (r is Ok <==> decrypt_model(enc_part.etype,
                session_key@, KEY_USAGE_TGS_REP_ENC_PART_SESSION_KEY, enc_part.cipher@) is Some),
        r matches Ok(p) ==> decrypt_model(enc_part.etype, session_key@,
            KEY_USAGE_TGS_REP_ENC_PART_SESSION_KEY, enc_part.cipher@) == Some(p@),
        etype_supported(enc_part.etype) && key_len_ok(enc_part.etype, session_key@.len())
            && r is Err ==> (r matches Err(e) && e is DecryptionIntegrityFailure),
{
    let cipher = match Cipher::select(enc_part.etype, clone_bytes(session_key)) {
        Result::Ok(c) => c,
        Result::Err(e) => { return Err(e); },
    };
    cipher.decrypt(KEY_USAGE_TGS_REP_ENC_PART_SESSION_KEY, &enc_part.cipher)
}

/// What extracting a credential from an AS-REP succeeds on: the suites
/// agree, decryption passes its integrity check, the plaintext's time fields
/// pass the calendar check, it decodes as an enc-part, and the session key
/// it carries is non-empty.
pub open spec fn as_rep_extractable(as_rep: KdcRepModel, etype: i32, key: Seq<u8>) -> bool {
    &&& etype == as_rep.enc_part.etype
    &&& decrypt_model(etype, key, KEY_USAGE_AS_REP_ENC_PART,
        as_rep.enc_part.cipher) matches Some(der)
    &&& der_times_ok(der)
    &&& enc_as_rep_part_parse_of(der) matches Some(part)
    &&& part.key_value.len() > 0
}

/// Decrypts and decodes an AS-REP into a credential: the returned ticket is
/// the reply's ticket, and the session-key record is the decoded enc-part
/// paired with the reply's client identity. Succeeds exactly when the reply
/// is extractable under the cipher; a decoded empty session key is refused
/// (the data model owes a non-empty key for every decrypted response).
pub fn extract_krb_cred_from_as_rep(as_rep: KdcRep, cipher: &Cipher)
    -> (r: Result<Credential, KerberosError>)
    requires
        cipher.wf(),
    ensures
        r is Ok <==> as_rep_extractable(as_rep@, cipher.etype, cipher.key@),
        r matches Ok(c) ==> {
            &&& cipher.etype == as_rep.enc_part.etype
            &&& decrypt_model(cipher.etype, cipher.key@, KEY_USAGE_AS_REP_ENC_PART,
                as_rep@.enc_part.cipher) matches Some(der)
            &&& enc_as_rep_part_parse_of(der) matches Some(part)
            &&& c@.ticket == as_rep@.ticket
            &&& c@.info == cred_info_model(part, as_rep@.crealm, as_rep@.cname)
            &&& c@.info.key_value.len() > 0
        },
        r matches Err(e) ==> (e is DecryptionIntegrityFailure || e is UnexpectedResponseType),
{
    let raw_part = match decrypt_as_rep_enc_part(cipher, &as_rep.enc_part) {
        Result::Ok(p) => p,
        Result::Err(e) => { return Err(e); },
    };
    if !check_der_times(&raw_part) {
        return Err(KerberosError::UnexpectedResponseType);
    }
    let enc_part = match parse_enc_as_rep_part(&raw_part) {
        Option::Some(p) => p,
        Option::None => { return Err(KerberosError::UnexpectedResponseType); },
    };
    if enc_part.key_value.len() == 0 {
        return Err(KerberosError::UnexpectedResponseType);
    }
    let info = create_krb_cred_info(enc_part, as_rep.crealm, as_rep.cname);
    Ok(Credential { ticket: as_rep.ticket, info })
}

/// The exact byte string the PA-FOR-USER checksum is computed over: the
/// name-type tag in little-endian, then the name, the realm and the literal
/// auth-package, in protocol-mandated order.
pub open spec fn pa_for_user_ck_input(name: Seq<char>, realm: Seq<char>) -> Seq<u8> {
    vstd::bytes::spec_u32_to_le_bytes(NT_PRINCIPAL as u32) + encode_utf8(name)
        + encode_utf8(realm) + encode_utf8("Kerberos"@)
}

/// The checksum input binds the impersonated principal's name: for a fixed
/// realm, two different names never produce the same input bytes.
pub proof fn lemma_ck_input_binds_name(n1: Seq<char>, n2: Seq<char>, realm: Seq<char>)
    requires
        n1 != n2,
    ensures
        pa_for_user_ck_input(n1, realm) != pa_for_user_ck_input(n2, realm),
{
    vstd::bytes::lemma_auto_spec_u32_to_from_le_bytes();
    let e1 = encode_utf8(n1);
    let e2 = encode_utf8(n2);
    assert(e1 != e2) by {
        if e1 == e2 {
            vstd::utf8::encode_utf8_decode_utf8(n1);
            vstd::utf8::encode_utf8_decode_utf8(n2);
            assert(n1 == n2);
        }
    };
    let c1 = pa_for_user_ck_input(n1, realm);
    let c2 = pa_for_user_ck_input(n2, realm);
    if c1 == c2 {
        assert(c1.len() == 4 + e1.len() + encode_utf8(realm).len() + encode_utf8("Kerberos"@).len());
        assert(c2.len() == 4 + e2.len() + encode_utf8(realm).len() + encode_utf8("Kerberos"@).len());
        assert(e1.len() == e2.len());
        assert forall|j: int| 0 <= j < e1.len() implies e1[j] == e2[j] by {
            assert(c1[4 + j] == e1[j]);
            assert(c2[4 + j] == e2[j]);
        };
        assert(e1 =~= e2);
        assert(false);
    }
}

/// Builds the PA-FOR-USER checksum input for an impersonated user.
pub fn build_pa_for_user_ck_input(name: &String, realm: &String) -> (r: Vec<u8>)
    ensures
        r@ == pa_for_user_ck_input(name@, realm@),
{
    let mut out = u32_to_le_bytes(1u32);
    proof {
        assert(1u32 == (NT_PRINCIPAL as u32));
    }
    let mut nb = string_to_bytes(name);
    out.append(&mut nb);
    let mut rb = string_to_bytes(realm);
    out.append(&mut rb);
    let ap: &str = "Kerberos";
    let mut ab = ap.as_bytes_vec();
    out.append(&mut ab);
    proof {
        assert(out@ =~= pa_for_user_ck_input(name@, realm@));
    }
    out
}

/// The PA-FOR-USER item before encoding: the impersonated principal, its
/// realm, and the identity-binding checksum.
pub struct PaForUser {
    pub username: PrincipalName,
    pub userrealm: String,
    pub cksum: Vec<u8>,
}

/// Builds the PA-FOR-USER item for an impersonated user: the checksum is
/// HMAC-MD5 of the identity bytes under the session key and the
/// kerb-non-kerb-cksum-salt usage number.
pub fn create_pa_for_user(user: &KerberosUser, session_key: &Vec<u8>) -> (r: PaForUser)
    ensures
        r.username@.name_type == NT_PRINCIPAL,
        r.username@.components =~= seq![user.name@],
        r.userrealm@ == user.realm@,
        r.cksum@ == hmac_md5_checksum_model(session_key@, KEY_USAGE_KERB_NON_KERB_CKSUM_SALT,
            pa_for_user_ck_input(user.name@, user.realm@)),
{
    let ck_value = build_pa_for_user_ck_input(&user.name, &user.realm);
    let cksum = checksum_hmac_md5(session_key, KEY_USAGE_KERB_NON_KERB_CKSUM_SALT, &ck_value);
    PaForUser {
        username: username_to_principal_name(user.name.clone()),
        userrealm: user.realm.clone(),
        cksum,
    }
}

/// Builds a TGS-REQ for `service` (split on '/' into the server principal's
/// components) using the session key from an existing credential. With an
/// impersonated user the server principal is the requesting user's own name
/// and a PA-FOR-USER item is attached in front of the AP-REQ item.
pub fn build_tgs_req(user: &KerberosUser, service: &str, krb_cred_info: &SessionKeyInfo,
    ticket: Ticket, impersonate_user: Option<&KerberosUser>)
    -> (r: Result<TgsReq, KerberosError>)
    ensures
        r matches Err(e) ==> e is UnsupportedEncryptionType,
        !(etype_supported(krb_cred_info.key_type)
            && key_len_ok(krb_cred_info.key_type, krb_cred_info.key_value@.len()))
            ==> (r matches Err(e)
                && e matches KerberosError::UnsupportedEncryptionType(t)
                && t == krb_cred_info.key_type),
        etype_supported(krb_cred_info.key_type)
            && key_len_ok(krb_cred_info.key_type, krb_cred_info.key_value@.len())
            ==> (r matches Ok(req) && {
            &&& req.0@.realm == user.realm@
            &&& req_times_wf(req.0@)
            &&& (impersonate_user is None ==> (req.0@.sname matches Some(s)
                && s.name_type == NT_SRV_INST
                && s.components == split_on_slash(service@)
                && req.0@.padatas.len() == 1))
            &&& (impersonate_user matches Some(imp) ==> (req.0@.sname matches Some(s)
                && s.name_type == NT_UNKNOWN
                && s.components == seq![user.name@]
                && req.0@.padatas.len() == 2
                && req.0@.padatas[0].patype == PA_FOR_USER
                && req.0@.padatas[0].value == pa_for_user_der_of(
                    PrincipalNameModel { name_type: NT_PRINCIPAL, components: seq![imp.name@] },
                    imp.realm@,
                    hmac_md5_checksum_model(krb_cred_info.key_value@,
                        KEY_USAGE_KERB_NON_KERB_CKSUM_SALT,
                        pa_for_user_ck_input(imp.name@, imp.realm@)))))
            &&& req.0@.padatas[req.0@.padatas.len() - 1].patype == PA_TGS_REQ
            &&& exists|ct: Seq<u8>, t: i64|
                #![trigger decrypt_model(krb_cred_info.key_type, krb_cred_info.key_value@,
                    KEY_USAGE_TGS_REQ_AUTHEN, ct), time_wf(t)]
            {
                &&& req.0@.padatas[req.0@.padatas.len() - 1].value
                    == ap_req_der_of(ticket@, krb_cred_info.key_type, ct)
                &&& decrypt_model(krb_cred_info.key_type, krb_cred_info.key_value@,
                    KEY_USAGE_TGS_REQ_AUTHEN, ct)
                    == Some(authenticator_der_of(user.realm@,
                        PrincipalNameModel { name_type: NT_PRINCIPAL,
                            components: seq![user.name@] }, t))
                &&& time_wf(t)
            }
        }),
{
    let etype = krb_cred_info.key_type;
    if !(etype == RC4_HMAC || etype == AES128_CTS_HMAC_SHA1_96
        || etype == AES256_CTS_HMAC_SHA1_96) {
        return Err(KerberosError::UnsupportedEncryptionType(etype));
    }
    let mut padatas: Vec<PreAuthData> = Vec::new();
    let service_parts = split_spn(service);
    let mut sname = PrincipalName { name_type: NT_SRV_INST, components: service_parts };
    match impersonate_user {
        Option::Some(imp) => {
            let pa_for_user = create_pa_for_user(imp, &krb_cred_info.key_value);
            let der = encode_pa_for_user(&pa_for_user.username, &pa_for_user.userrealm,
                &pa_for_user.cksum);
            padatas.push(PreAuthData { patype: PA_FOR_USER, value: der });
            let own_name: Vec<String> = vec![user.name.clone()];
            sname = PrincipalName { name_type: NT_UNKNOWN, components: own_name };
        },
        Option::None => {},
    }
    let cname = username_to_principal_name(user.name.clone());
    let ctime = current_time();
    let authenticator_der = encode_authenticator(&user.realm, &cname, ctime);
    let cipher = match Cipher::select(etype, clone_bytes(&krb_cred_info.key_value)) {
        Result::Ok(c) => c,
        Result::Err(e) => { return Err(e); },
    };
    let encrypted_authenticator = cipher.encrypt(KEY_USAGE_TGS_REQ_AUTHEN, &authenticator_der);
    let ghost gct = encrypted_authenticator@;
    let ap_req_der = encode_ap_req(&ticket, etype, &encrypted_authenticator);
    padatas.push(PreAuthData { patype: PA_TGS_REQ, value: ap_req_der });
    let req = KdcReqBuilder::new(user.realm.clone())
        .padatas(padatas)
        .sname(Some(sname))
        .build_tgs_req();
    proof {
        assert(cname@ =~= (PrincipalNameModel { name_type: NT_PRINCIPAL,
            components: seq![user.name@] }));
        assert(decrypt_model(etype, krb_cred_info.key_value@, KEY_USAGE_TGS_REQ_AUTHEN, gct)
            == Some(authenticator_der_of(user.realm@, PrincipalNameModel {
                name_type: NT_PRINCIPAL, components: seq![user.name@] }, ctime)));
        assert(time_wf(ctime));
    }
    Ok(req)
}

/// Sends a TGS-REQ and classifies the answer: a TGS-REP is returned, a
/// KRB-ERROR is surfaced with its code and text, anything else is a
/// protocol violation.
pub fn send_recv_tgs<T: KerberosTransporter>(transporter: &T, req: &TgsReq)
    -> (r: Result<KdcRep, KerberosError>)
    requires
        req_times_wf(req.0@),
    ensures
        r matches Ok(rep) ==> exists|raw: Seq<u8>| tgs_rep_parse_of(raw) == Some(rep@),
        r matches Err(e) ==> (e is TransportFailure || e is KdcProtocolError
            || e is UnexpectedResponseType),
        r matches Err(e) ==> (e matches KerberosError::KdcProtocolError { code, text }
            ==> exists|raw: Seq<u8>|
                #![trigger krb_error_parse_of(raw)]
                krb_error_parse_of(raw) == Some((code, text@))),
{
    let raw = encode_tgs_req(req);
    let resp = match transporter.send_recv(&raw) {
        Result::Ok(v) => v,
        Result::Err(_) => { return Err(KerberosError::TransportFailure); },
    };
    match classify_rep(&resp) {
        Rep::TgsRepMsg(rep) => {
            proof {
                assert(tgs_rep_parse_of(resp@) == Some(rep@));
            }
            Ok(rep)
        },
        Rep::ErrorMsg(code, text) => Err(KerberosError::KdcProtocolError { code, text }),
        Rep::AsRepMsg(_) => Err(KerberosError::UnexpectedResponseType),
        Rep::Raw => Err(KerberosError::UnexpectedResponseType),
    }
}

/// One full TGS exchange: build the request, send it, decrypt the reply's
/// enc-part with the session key, and pair the new ticket with its
/// session-key record.
pub fn request_tgs<T: KerberosTransporter>(user: &KerberosUser, service: &str,
    krb_cred_info: &SessionKeyInfo, ticket: Ticket, transporter: &T,
    impersonate_user: Option<&KerberosUser>)
    -> (r: Result<(Ticket, SessionKeyInfo), KerberosError>)
    ensures
        !(etype_supported(krb_cred_info.key_type)
            && key_len_ok(krb_cred_info.key_type, krb_cred_info.key_value@.len()))
            ==> (r matches Err(e)
                && e matches KerberosError::UnsupportedEncryptionType(t)
                && t == krb_cred_info.key_type),
        r matches Err(e) ==> !(e is MissingCredential),
        etype_supported(krb_cred_info.key_type)
            && key_len_ok(krb_cred_info.key_type, krb_cred_info.key_value@.len())
            ==> (r matches Err(e)
                ==> (e matches KerberosError::UnsupportedEncryptionType(t)
                    ==> exists|raw: Seq<u8>|
                        #![trigger tgs_rep_parse_of(raw)]
                        (tgs_rep_parse_of(raw) matches Some(rep)
                            && rep.enc_part.etype == t))),
        r matches Ok(p) ==> p.1@.key_value.len() > 0,
        r matches Ok(p) ==> exists|raw: Seq<u8>, der: Seq<u8>|
            #![trigger tgs_rep_parse_of(raw), enc_tgs_rep_part_parse_of(der)]
        {
            &&& tgs_rep_parse_of(raw) matches Some(rep)
            &&& decrypt_model(rep.enc_part.etype, krb_cred_info.key_value@,
                KEY_USAGE_TGS_REP_ENC_PART_SESSION_KEY, rep.enc_part.cipher) == Some(der)
            &&& enc_tgs_rep_part_parse_of(der) matches Some(part)
            &&& part.key_value.len() > 0
            &&& p.0@ == rep.ticket
            &&& p.1@ == cred_info_model(part, rep.crealm, rep.cname)
        },
{
    let tgs_req = match build_tgs_req(user, service, krb_cred_info, ticket, impersonate_user) {
        Result::Ok(q) => q,
        Result::Err(e) => { return Err(e); },
    };
    let tgs_rep = match send_recv_tgs(transporter, &tgs_req) {
        Result::Ok(rep) => rep,
        Result::Err(e) => { return Err(e); },
    };
    let raw_part = match decrypt_tgs_rep_enc_part(&krb_cred_info.key_value, &tgs_rep.enc_part) {
        Result::Ok(p) => p,
        Result::Err(e) => { return Err(e); },
    };
    if !check_der_times(&raw_part) {
        return Err(KerberosError::UnexpectedResponseType);
    }
    let enc_part = match parse_enc_tgs_rep_part(&raw_part) {
        Option::Some(p) => p,
        Option::None => { return Err(KerberosError::UnexpectedResponseType); },
    };
    if enc_part.key_value.len() == 0 {
        return Err(KerberosError::UnexpectedResponseType);
    }
    let ghost graw = choose|raw: Seq<u8>| tgs_rep_parse_of(raw) == Some(tgs_rep@);
    let info = create_krb_cred_info(enc_part, tgs_rep.crealm, tgs_rep.cname);
    let out = (tgs_rep.ticket, info);
    proof {
        assert(tgs_rep_parse_of(graw) matches Some(rep) && rep == tgs_rep@);
        assert(out.0@ == tgs_rep@.ticket);
    }
    Ok(out)
}

/// The requesting user's own principal, as the vault lookup matches it.
pub open spec fn user_client_model(name: Seq<char>) -> PrincipalNameModel {
    PrincipalNameModel { name_type: NT_PRINCIPAL, components: seq![name] }
}

/// The `krbtgt/REALM` service principal a TGT is addressed to.
pub open spec fn krbtgt_model(realm: Seq<char>) -> PrincipalNameModel {
    PrincipalNameModel { name_type: NT_SRV_INST, components: seq!["krbtgt"@, realm] }
}

/// Acquires a service ticket with an existing TGT from the credential set
/// and appends the result: existing entries are never removed or reordered.
/// The TGT used is the most recently appended credential matching the user's
/// principal and `krbtgt/REALM`, and its session key is the key the reply's
/// enc-part is decrypted under; with no match the call fails with a
/// missing-credential error and nothing is sent.
pub fn ask_tgs<T: KerberosTransporter>(user: &KerberosUser, service: &str,
    cred_set: CredentialSet, transporter: &T, impersonate_user: Option<&KerberosUser>)
    -> (r: Result<CredentialSet, KerberosError>)
    ensures
        (forall|i: int| 0 <= i < cred_set@.creds.len()
            ==> !crate::vault::cred_matches(#[trigger] cred_set@.creds[i],
                user_client_model(user.name@), krbtgt_model(user.realm@)))
            ==> (r matches Err(e) && e is MissingCredential),
        r matches Err(e) ==> (e is MissingCredential
            ==> forall|i: int| 0 <= i < cred_set@.creds.len()
                ==> !crate::vault::cred_matches(#[trigger] cred_set@.creds[i],
                    user_client_model(user.name@), krbtgt_model(user.realm@))),
        r matches Ok(out) ==> {
            &&& out@.creds.len() == cred_set@.creds.len() + 1
            &&& forall|i: int| 0 <= i < cred_set@.creds.len()
                ==> out@.creds[i] == cred_set@.creds[i]
            &&& out@.client_realm == cred_set@.client_realm
            &&& out@.client_name == cred_set@.client_name
            &&& exists|i: int|
                #![trigger cred_set@.creds[i]]
            {
                &&& 0 <= i < cred_set@.creds.len()
                &&& crate::vault::cred_matches(cred_set@.creds[i],
                    user_client_model(user.name@), krbtgt_model(user.realm@))
                &&& forall|j: int| i < j < cred_set@.creds.len()
                    ==> !crate::vault::cred_matches(#[trigger] cred_set@.creds[j],
                        user_client_model(user.name@), krbtgt_model(user.realm@))
                &&& exists|raw: Seq<u8>, der: Seq<u8>|
                    #![trigger tgs_rep_parse_of(raw), enc_tgs_rep_part_parse_of(der)]
                {
                    &&& tgs_rep_parse_of(raw) matches Some(rep)
                    &&& decrypt_model(rep.enc_part.etype, cred_set@.creds[i].info.key_value,
                        KEY_USAGE_TGS_REP_ENC_PART_SESSION_KEY, rep.enc_part.cipher) == Some(der)
                    &&& enc_tgs_rep_part_parse_of(der) matches Some(part)
                    &&& out@.creds[out@.creds.len() - 1] == (CredentialModel {
                        ticket: rep.ticket,
                        info: cred_info_model(part, rep.crealm, rep.cname),
                    })
                }
            }
        },
{
    let cname = username_to_principal_name(user.name.clone());
    let tgt_service = gen_krbtgt_principal_name(user.realm.clone(), NT_SRV_INST);
    proof {
        assert(cname@ =~= user_client_model(user.name@));
        assert(tgt_service@ =~= krbtgt_model(user.realm@));
    }
    let tgt = match crate::vault::find_credential(&cred_set, &cname, &tgt_service) {
        Result::Ok(c) => c,
        Result::Err(e) => { return Err(e); },
    };
    let ghost gi = choose|i: int| 0 <= i < cred_set@.creds.len() && tgt@ == cred_set@.creds[i]
        && crate::vault::cred_matches(#[trigger] cred_set@.creds[i], cname@, tgt_service@)
        && (forall|j: int| i < j < cred_set@.creds.len()
            ==> !crate::vault::cred_matches(#[trigger] cred_set@.creds[j], cname@, tgt_service@));
    let (tgs_ticket, tgs_info) = match request_tgs(user, service, &tgt.info, tgt.ticket,
        transporter, impersonate_user) {
        Result::Ok(p) => p,
        Result::Err(e) => { return Err(e); },
    };
    let ghost gticket = tgs_ticket@;
    let ghost ginfo = tgs_info@;
    let mut out = cred_set;
    crate::vault::append_credential(&mut out, Credential { ticket: tgs_ticket, info: tgs_info });
    proof {
        assert(out@.creds[out@.creds.len() - 1]
            == (CredentialModel { ticket: gticket, info: ginfo }));
    }
    Ok(out)
}

/// One full AS exchange: send an AS-REQ with no pre-authentication; on a
/// "pre-authentication required" KRB-ERROR attach an encrypted timestamp and
/// resend once (a second refusal is fatal); decrypt the AS-REP with the key
/// derived from the user's password and return the credential.
pub fn request_tgt<T: KerberosTransporter>(user: &KerberosUser, password: &String, etype: i32,
    transporter: &T) -> (r: Result<Credential, KerberosError>)
    ensures
        !etype_supported(etype) ==> (r matches Err(e)
            && e matches KerberosError::UnsupportedEncryptionType(t) && t == etype),
        etype_supported(etype) ==> (r matches Err(e) ==> !(e is UnsupportedEncryptionType)),
        r matches Err(e) ==> (e matches KerberosError::KdcProtocolError { code, text }
            ==> exists|raw: Seq<u8>|
                #![trigger krb_error_parse_of(raw)]
                krb_error_parse_of(raw) == Some((code, text@))),
        r matches Ok(c) ==> c@.info.key_value.len() > 0,
        r matches Ok(c) ==> exists|rep: crate::model::KdcRepModel, der: Seq<u8>|
            #![trigger decrypt_model(etype, derived_key_model(etype, password@, user.realm@,
                user.name@), KEY_USAGE_AS_REP_ENC_PART, rep.enc_part.cipher),
                enc_as_rep_part_parse_of(der)]
        {
            &&& decrypt_model(etype, derived_key_model(etype, password@, user.realm@, user.name@),
                KEY_USAGE_AS_REP_ENC_PART, rep.enc_part.cipher) == Some(der)
            &&& enc_as_rep_part_parse_of(der) matches Some(part)
            &&& c@.ticket == rep.ticket
            &&& c@.info == cred_info_model(part, rep.crealm, rep.cname)
        },
{
    let cipher = match Cipher::from_password(etype, password, &user.realm, &user.name) {
        Result::Ok(c) => c,
        Result::Err(e) => { return Err(e); },
    };
    let req = KdcReqBuilder::new(user.realm.clone())
        .username(user.name.clone())
        .request_pac()
        .build_as_req();
    let raw = encode_as_req(&req);
    let resp = match transporter.send_recv(&raw) {
        Result::Ok(v) => v,
        Result::Err(_) => { return Err(KerberosError::TransportFailure); },
    };
    match classify_rep(&resp) {
        Rep::AsRepMsg(rep) => extract_krb_cred_from_as_rep(rep, &cipher),
        Rep::ErrorMsg(code, text) => {
            if code == KDC_ERR_PREAUTH_REQUIRED {
                let ts = current_time();
                let ts_der = encode_pa_enc_ts(ts);
                let enc_ts = cipher.encrypt(KEY_USAGE_AS_REQ_TIMESTAMP, &ts_der);
                let pa_value = encode_encrypted_data(etype, &enc_ts);
                let req2 = KdcReqBuilder::new(user.realm.clone())
                    .username(user.name.clone())
                    .request_pac()
                    .push_padata(PreAuthData { patype: PA_ENC_TIMESTAMP, value: pa_value })
                    .build_as_req();
                let raw2 = encode_as_req(&req2);
                let resp2 = match transporter.send_recv(&raw2) {
                    Result::Ok(v) => v,
                    Result::Err(_) => { return Err(KerberosError::TransportFailure); },
                };
                match classify_rep(&resp2) {
                    Rep::AsRepMsg(rep) => extract_krb_cred_from_as_rep(rep, &cipher),
                    Rep::ErrorMsg(code2, text2) => Err(KerberosError::KdcProtocolError {
                        code: code2, text: text2 }),
                    Rep::TgsRepMsg(_) => Err(KerberosError::UnexpectedResponseType),
                    Rep::Raw => Err(KerberosError::UnexpectedResponseType),
                }
            } else {
                Err(KerberosError::KdcProtocolError { code, text })
            }
        },
        Rep::TgsRepMsg(_) => Err(KerberosError::UnexpectedResponseType),
        Rep::Raw => Err(KerberosError::UnexpectedResponseType),
    }
}

} // verus!
