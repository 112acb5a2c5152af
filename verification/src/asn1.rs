//! The ASN.1 codec boundary. Structure encoding and decoding of individual
//! Kerberos messages is delegated to the `kerberos_asn1` crate; each
//! delegated call stands behind a trusted wrapper whose result is pinned by
//! an uninterpreted function of the message's plain-value model, so the
//! protocol logic above can be verified against those names. Multi-record
//! messages (the credential list) are assembled and taken apart in verified
//! code from per-record pieces.

use vstd::prelude::*;
use kerberos_asn1::Asn1Object;
use kerberos_asn1::{KrbCredInfo, EncryptionKey, KerberosTime, EncTicketPart,
    AuthorizationDataEntry};
use chrono::TimeZone;
use crate::model::{PrincipalName, PrincipalNameModel, Ticket, TicketModel, EncryptedPayload,
    KdcRep, KdcRepModel, EncRepPart, EncRepPartModel, TicketEncPart, TicketEncPartModel,
    CredentialSet, CredentialSetModel, Credential, CredentialModel, SessionKeyInfo,
    SessionKeyInfoModel, clone_principal_name};
use crate::builder::{KdcRequest, KdcRequestModel, AsReq, TgsReq, PreAuthData, req_times_wf};
use crate::errors::KerberosError;
use crate::dertime::{der_times_ok, check_der_times};

verus! {

/// The last second the ASN.1 GeneralizedTime calendar can carry
/// (9999-12-31T23:59:59Z as Unix seconds).
pub const MAX_KRB_TIME: i64 = 253402300799;

/// A timestamp inside the encodable calendar range.
pub open spec fn time_wf(t: i64) -> bool {
    0 <= t <= MAX_KRB_TIME
}

/// Every timestamp of a session-key record stays encodable.
pub open spec fn info_times_wf(i: SessionKeyInfoModel) -> bool {
    &&& time_wf(i.auth_time)
    &&& time_wf(i.start_time)
    &&& time_wf(i.end_time)
    &&& time_wf(i.renew_till)
}

/// Every timestamp of a credential set stays encodable.
pub open spec fn set_times_wf(m: CredentialSetModel) -> bool {
    forall|i: int| 0 <= i < m.creds.len() ==> info_times_wf(#[trigger] m.creds[i].info)
}

// What each delegated encoder returns: a function of the message model alone.
pub uninterp spec fn req_body_der_of(r: KdcRequestModel) -> Seq<u8>;

pub uninterp spec fn as_req_wrap_of(padatas: Seq<crate::builder::PreAuthDataModel>, body_der: Seq<u8>) -> Seq<u8>;

pub uninterp spec fn tgs_req_wrap_of(padatas: Seq<crate::builder::PreAuthDataModel>, body_der: Seq<u8>) -> Seq<u8>;

pub uninterp spec fn authenticator_der_of(crealm: Seq<char>, cname: PrincipalNameModel, ctime: i64) -> Seq<u8>;

pub uninterp spec fn ap_req_der_of(ticket: TicketModel, etype: i32, authenticator_ct: Seq<u8>) -> Seq<u8>;

pub uninterp spec fn encrypted_data_der_of(etype: i32, ctext: Seq<u8>) -> Seq<u8>;

pub uninterp spec fn pa_for_user_der_of(name: PrincipalNameModel, realm: Seq<char>, cksum: Seq<u8>) -> Seq<u8>;

pub uninterp spec fn pa_pac_request_der_of(include_pac: bool) -> Seq<u8>;

pub uninterp spec fn pa_enc_ts_der_of(ts: i64) -> Seq<u8>;

pub uninterp spec fn ticket_der_of(t: TicketModel) -> Seq<u8>;

pub uninterp spec fn cred_info_der_of(i: SessionKeyInfoModel) -> Seq<u8>;

pub uninterp spec fn krb_cred_ders_of(tickets: Seq<Seq<u8>>, infos: Seq<Seq<u8>>) -> Seq<u8>;

pub uninterp spec fn ticket_enc_part_der_of(p: TicketEncPartModel) -> Seq<u8>;

// What each delegated parser returns: a function of the raw bytes alone.
pub uninterp spec fn as_rep_parse_of(raw: Seq<u8>) -> Option<KdcRepModel>;

pub uninterp spec fn tgs_rep_parse_of(raw: Seq<u8>) -> Option<KdcRepModel>;

pub uninterp spec fn krb_error_parse_of(raw: Seq<u8>) -> Option<(i32, Seq<char>)>;

pub uninterp spec fn enc_as_rep_part_parse_of(raw: Seq<u8>) -> Option<EncRepPartModel>;

pub uninterp spec fn enc_tgs_rep_part_parse_of(raw: Seq<u8>) -> Option<EncRepPartModel>;

pub uninterp spec fn ticket_parse_of(raw: Seq<u8>) -> Option<TicketModel>;

pub uninterp spec fn cred_info_parse_of(raw: Seq<u8>) -> Option<SessionKeyInfoModel>;

pub uninterp spec fn krb_cred_outer_parse_of(raw: Seq<u8>) -> Option<(Seq<Seq<u8>>, i32, Seq<u8>)>;

pub uninterp spec fn enc_krb_cred_part_parse_of(raw: Seq<u8>) -> Option<Seq<Seq<u8>>>;

pub uninterp spec fn ticket_enc_part_parse_of(raw: Seq<u8>) -> Option<TicketEncPartModel>;

#[verifier::external_type_specification]
#[verifier::external_body]
pub struct ExKerberosTime(KerberosTime);

/// Relies on chrono's timestamp conversion: the calendar value of an
/// in-range Unix timestamp.
#[verifier::external_body]
fn ktime(t: i64) -> KerberosTime
    requires
        time_wf(t),
{
    KerberosTime::from(chrono::Utc.timestamp_opt(t, 0).unwrap())
}

/// The DER of an AS-REQ: the pre-authentication items wrapped around the
/// encoded request body.
pub open spec fn as_req_der_of(r: KdcRequestModel) -> Seq<u8> {
    as_req_wrap_of(r.padatas, req_body_der_of(r))
}

/// The DER of a TGS-REQ, wrapped the same way.
pub open spec fn tgs_req_der_of(r: KdcRequestModel) -> Seq<u8> {
    tgs_req_wrap_of(r.padatas, req_body_der_of(r))
}

/// Relies on `kerberos_asn1::KdcReqBody::build`: DER encoding of the request
/// body, a function of the request's fields alone.
#[verifier::external_body]
fn encode_req_body(req: &KdcRequest) -> (r: Vec<u8>)
    requires
        req_times_wf(req@),
    ensures
        r@ == req_body_der_of(req@),
{
    let pn = |p: &PrincipalName| kerberos_asn1::PrincipalName {
        name_type: p.name_type, name_string: p.components.clone() };
    let mut b = kerberos_asn1::KdcReqBody::default();
    b.kdc_options = req.kdc_options.into();
    b.cname = req.cname.as_ref().map(&pn);
    b.realm = req.realm.clone();
    b.sname = req.sname.as_ref().map(&pn);
    b.till = ktime(req.till);
    b.rtime = req.rtime.map(ktime);
    b.nonce = req.nonce;
    b.etypes = req.etypes.clone();
    b.build()
}

/// Relies on `kerberos_asn1::AsReq::build` and `KdcReqBody::parse` being its
/// inverse: wraps an encoded request body and the pre-authentication items
/// as an AS-REQ. An empty item list is encoded as an absent padata field, as
/// the message format requires; that choice is part of what the name
/// `as_req_wrap_of` stands for.
#[verifier::external_body]
fn wrap_as_req(padatas: &Vec<PreAuthData>, body_der: &Vec<u8>) -> (r: Vec<u8>)
    requires
        exists|m: KdcRequestModel| body_der@ == req_body_der_of(m),
    ensures
        r@ == as_req_wrap_of(padatas.deep_view(), body_der@),
{
    let (_, body) = kerberos_asn1::KdcReqBody::parse(body_der).unwrap();
    let mut m = kerberos_asn1::AsReq::default();
    if !padatas.is_empty() {
        m.padata = Some(padatas.iter().map(|d| kerberos_asn1::PaData::new(
            d.patype, d.value.clone())).collect());
    }
    m.req_body = body;
    m.build()
}

/// Relies on `kerberos_asn1::TgsReq::build` and `KdcReqBody::parse` being
/// its inverse: wraps an encoded request body as a TGS-REQ.
#[verifier::external_body]
fn wrap_tgs_req(padatas: &Vec<PreAuthData>, body_der: &Vec<u8>) -> (r: Vec<u8>)
    requires
        exists|m: KdcRequestModel| body_der@ == req_body_der_of(m),
    ensures
        r@ == tgs_req_wrap_of(padatas.deep_view(), body_der@),
{
    let (_, body) = kerberos_asn1::KdcReqBody::parse(body_der).unwrap();
    let mut m = kerberos_asn1::TgsReq::default();
    if !padatas.is_empty() {
        m.padata = Some(padatas.iter().map(|d| kerberos_asn1::PaData::new(
            d.patype, d.value.clone())).collect());
    }
    m.req_body = body;
    m.build()
}

/// DER-encodes an AS-REQ.
pub fn encode_as_req(req: &AsReq) -> (r: Vec<u8>)
    requires
        req_times_wf(req.0@),
    ensures
        r@ == as_req_der_of(req.0@),
{
    let body = encode_req_body(&req.0);
    wrap_as_req(&req.0.padatas, &body)
}

/// DER-encodes a TGS-REQ.
pub fn encode_tgs_req(req: &TgsReq) -> (r: Vec<u8>)
    requires
        req_times_wf(req.0@),
    ensures
        r@ == tgs_req_der_of(req.0@),
{
    let body = encode_req_body(&req.0);
    wrap_tgs_req(&req.0.padatas, &body)
}

/// Relies on `kerberos_asn1::Authenticator::build`: DER encoding of a
/// `{crealm, cname, ctime}` authenticator, a function of those fields alone.
/// The microsecond field is pinned to zero: the type's default fills it from
/// the clock, which would make the encoding depend on more than the named
/// arguments.
#[verifier::external_body]
pub fn encode_authenticator(crealm: &String, cname: &PrincipalName, ctime: i64) -> (r: Vec<u8>)
    requires
        time_wf(ctime),
    ensures
        r@ == authenticator_der_of(crealm@, cname@, ctime),
{
    let mut a = kerberos_asn1::Authenticator::default();
    a.crealm = crealm.clone();
    a.cname = kerberos_asn1::PrincipalName {
        name_type: cname.name_type, name_string: cname.components.clone() };
    a.cusec = 0;
    a.ctime = ktime(ctime);
    a.build()
}

/// Relies on `kerberos_asn1::ApReq::build`: DER encoding of an AP-REQ that
/// carries the ticket and the encrypted authenticator.
#[verifier::external_body]
pub fn encode_ap_req(ticket: &Ticket, etype: i32, authenticator_ct: &Vec<u8>) -> (r: Vec<u8>)
    ensures
        r@ == ap_req_der_of(ticket@, etype, authenticator_ct@),
{
    let mut a = kerberos_asn1::ApReq::default();
    a.ticket = kerberos_asn1::Ticket::new(ticket.realm.clone(),
        kerberos_asn1::PrincipalName {
            name_type: ticket.sname.name_type, name_string: ticket.sname.components.clone() },
        kerberos_asn1::EncryptedData::new(
            ticket.enc_part.etype, ticket.enc_part.kvno, ticket.enc_part.cipher.clone()));
    a.authenticator = kerberos_asn1::EncryptedData::new(etype, None, authenticator_ct.clone());
    a.build()
}

/// Relies on `kerberos_asn1::EncryptedData::build`: DER encoding of an
/// encrypted-data value.
#[verifier::external_body]
pub fn encode_encrypted_data(etype: i32, ctext: &Vec<u8>) -> (r: Vec<u8>)
    ensures
        r@ == encrypted_data_der_of(etype, ctext@),
{
    kerberos_asn1::EncryptedData::new(etype, None, ctext.clone()).build()
}

/// Relies on `kerberos_asn1::PaForUser::build`: DER encoding of a
/// PA-FOR-USER item. The auth-package string "Kerberos" and the HMAC-MD5
/// checksum-type tag are fixed by the protocol extension and are part of
/// what the name `pa_for_user_der_of` stands for.
#[verifier::external_body]
pub fn encode_pa_for_user(name: &PrincipalName, realm: &String, cksum: &Vec<u8>) -> (r: Vec<u8>)
    ensures
        r@ == pa_for_user_der_of(name@, realm@, cksum@),
{
    let mut p = kerberos_asn1::PaForUser::default();
    p.username = kerberos_asn1::PrincipalName {
        name_type: name.name_type, name_string: name.components.clone() };
    p.userrealm = realm.clone();
    p.auth_package = "Kerberos".to_string();
    p.cksum.cksumtype = crate::constants::CKSUM_HMAC_MD5;
    p.cksum.checksum = cksum.clone();
    p.build()
}

/// Relies on `kerberos_asn1::KerbPaPacRequest::build`: DER encoding of the
/// PAC-request flag.
#[verifier::external_body]
pub fn encode_pa_pac_request(include_pac: bool) -> (r: Vec<u8>)
    ensures
        r@ == pa_pac_request_der_of(include_pac),
{
    kerberos_asn1::KerbPaPacRequest::new(include_pac).build()
}

/// Relies on `kerberos_asn1::PaEncTsEnc::build`: DER encoding of the
/// encrypted-timestamp plaintext.
#[verifier::external_body]
pub fn encode_pa_enc_ts(ts: i64) -> (r: Vec<u8>)
    requires
        time_wf(ts),
    ensures
        r@ == pa_enc_ts_der_of(ts),
{
    let t = kerberos_asn1::KerberosTime::from(
        chrono::Utc.timestamp_opt(ts, 0).unwrap());
    kerberos_asn1::PaEncTsEnc::new(t, None).build()
}

/// Relies on `kerberos_asn1::AsRep::parse`: succeeds exactly when the bytes
/// carry an AS-REP, a function of the bytes alone. The structural check is
/// owed first: the delegated tag parser aborts on long high-tag-number
/// forms, which the check refuses.
#[verifier::external_body]
pub fn parse_as_rep(raw: &Vec<u8>) -> (r: Option<KdcRep>)
    requires
        der_times_ok(raw@),
    ensures
        r is Some <==> as_rep_parse_of(raw@) is Some,
        r matches Some(v) ==> as_rep_parse_of(raw@) == Some(v@),
{
    let pn = |p: kerberos_asn1::PrincipalName| PrincipalName {
        name_type: p.name_type, components: p.name_string };
    let ed = |e: kerberos_asn1::EncryptedData| EncryptedPayload {
        etype: e.etype, kvno: e.kvno, cipher: e.cipher };
    let (_, m) = kerberos_asn1::AsRep::parse(raw).ok()?;
    Some(KdcRep {
        crealm: m.crealm,
        cname: pn(m.cname),
        ticket: Ticket {
            realm: m.ticket.realm, sname: pn(m.ticket.sname), enc_part: ed(m.ticket.enc_part) },
        enc_part: ed(m.enc_part),
    })
}

/// Relies on `kerberos_asn1::TgsRep::parse`: succeeds exactly when the bytes
/// carry a TGS-REP, a function of the bytes alone. The structural check is
/// owed first, as for the AS-REP parser.
#[verifier::external_body]
pub fn parse_tgs_rep(raw: &Vec<u8>) -> (r: Option<KdcRep>)
    requires
        der_times_ok(raw@),
    ensures
        r is Some <==> tgs_rep_parse_of(raw@) is Some,
        r matches Some(v) ==> tgs_rep_parse_of(raw@) == Some(v@),
{
    let pn = |p: kerberos_asn1::PrincipalName| PrincipalName {
        name_type: p.name_type, components: p.name_string };
    let ed = |e: kerberos_asn1::EncryptedData| EncryptedPayload {
        etype: e.etype, kvno: e.kvno, cipher: e.cipher };
    let (_, m) = kerberos_asn1::TgsRep::parse(raw).ok()?;
    Some(KdcRep {
        crealm: m.crealm,
        cname: pn(m.cname),
        ticket: Ticket {
            realm: m.ticket.realm, sname: pn(m.ticket.sname), enc_part: ed(m.ticket.enc_part) },
        enc_part: ed(m.enc_part),
    })
}

/// Relies on `kerberos_asn1::KrbError::parse`: succeeds exactly when the
/// bytes carry a KRB-ERROR, yielding its code and text. The calendar check
/// is owed first: the delegated decoder aborts on a digit-formed but
/// calendar-invalid server time.
#[verifier::external_body]
pub fn parse_krb_error(raw: &Vec<u8>) -> (r: Option<(i32, String)>)
    requires
        der_times_ok(raw@),
    ensures
        r is Some <==> krb_error_parse_of(raw@) is Some,
        r matches Some(v) ==> krb_error_parse_of(raw@) == Some((v.0, v.1@)),
{
    let (_, m) = kerberos_asn1::KrbError::parse(raw).ok()?;
    Some((m.error_code, m.e_text.unwrap_or_default()))
}

/// Relies on `kerberos_asn1::EncAsRepPart::parse`: decodes the decrypted
/// AS-REP enc-part, a function of the bytes alone.
#[verifier::external_body]
pub fn parse_enc_as_rep_part(raw: &Vec<u8>) -> (r: Option<EncRepPart>)
    requires
        der_times_ok(raw@),
    ensures
        r is Some <==> enc_as_rep_part_parse_of(raw@) is Some,
        r matches Some(v) ==> enc_as_rep_part_parse_of(raw@) == Some(v@),
{
    let ot = |t: Option<kerberos_asn1::KerberosTime>, d: i64|
        t.map(|x| x.timestamp()).unwrap_or(d);
    let (_, m) = kerberos_asn1::EncAsRepPart::parse(raw).ok()?;
    let (auth, end) = (m.authtime.timestamp(), m.endtime.timestamp());
    Some(EncRepPart {
        key_type: m.key.keytype, key_value: m.key.keyvalue, flags: m.flags.flags,
        auth_time: auth, start_time: ot(m.starttime, auth), end_time: end,
        renew_till: ot(m.renew_till, end), server_realm: m.srealm,
        server_name: PrincipalName {
            name_type: m.sname.name_type, components: m.sname.name_string },
    })
}

/// Relies on `kerberos_asn1::EncTgsRepPart::parse`: decodes the decrypted
/// TGS-REP enc-part, a function of the bytes alone.
#[verifier::external_body]
pub fn parse_enc_tgs_rep_part(raw: &Vec<u8>) -> (r: Option<EncRepPart>)
    requires
        der_times_ok(raw@),
    ensures
        r is Some <==> enc_tgs_rep_part_parse_of(raw@) is Some,
        r matches Some(v) ==> enc_tgs_rep_part_parse_of(raw@) == Some(v@),
{
    let ot = |t: Option<kerberos_asn1::KerberosTime>, d: i64|
        t.map(|x| x.timestamp()).unwrap_or(d);
    let (_, m) = kerberos_asn1::EncTgsRepPart::parse(raw).ok()?;
    let (auth, end) = (m.authtime.timestamp(), m.endtime.timestamp());
    Some(EncRepPart {
        key_type: m.key.keytype, key_value: m.key.keyvalue, flags: m.flags.flags,
        auth_time: auth, start_time: ot(m.starttime, auth), end_time: end,
        renew_till: ot(m.renew_till, end), server_realm: m.srealm,
        server_name: PrincipalName {
            name_type: m.sname.name_type, components: m.sname.name_string },
    })
}

/// Relies on `kerberos_asn1::Ticket::build` being inverted by its `parse`:
/// DER encoding of one ticket record.
#[verifier::external_body]
fn ticket_der(t: &Ticket) -> (r: Vec<u8>)
    ensures
        r@ == ticket_der_of(t@),
        ticket_parse_of(r@) == Some(t@),
{
    kerberos_asn1::Ticket::new(t.realm.clone(),
        kerberos_asn1::PrincipalName {
            name_type: t.sname.name_type, name_string: t.sname.components.clone() },
        kerberos_asn1::EncryptedData::new(
            t.enc_part.etype, t.enc_part.kvno, t.enc_part.cipher.clone())).build()
}

/// Relies on `kerberos_asn1::Ticket::parse`: decodes one ticket record, a
/// function of the bytes alone. The structural check is owed first, as for
/// the message parsers.
#[verifier::external_body]
fn ticket_from_der(raw: &Vec<u8>) -> (r: Option<Ticket>)
    requires
        der_times_ok(raw@),
    ensures
        r is Some <==> ticket_parse_of(raw@) is Some,
        r matches Some(v) ==> ticket_parse_of(raw@) == Some(v@),
{
    let (_, m) = kerberos_asn1::Ticket::parse(raw).ok()?;
    Some(Ticket {
        realm: m.realm,
        sname: PrincipalName { name_type: m.sname.name_type, components: m.sname.name_string },
        enc_part: EncryptedPayload {
            etype: m.enc_part.etype, kvno: m.enc_part.kvno, cipher: m.enc_part.cipher },
    })
}

/// Relies on `kerberos_asn1::KrbCredInfo::build` being inverted by its
/// `parse`: DER encoding of one per-ticket metadata record.
#[verifier::external_body]
fn cred_info_der(i: &SessionKeyInfo) -> (r: Vec<u8>)
    requires
        info_times_wf(i@),
    ensures
        r@ == cred_info_der_of(i@),
        cred_info_parse_of(r@) == Some(i@),
{
    let pn = |p: &PrincipalName| kerberos_asn1::PrincipalName {
        name_type: p.name_type, name_string: p.components.clone() };
    let tm = |t: i64| Some(ktime(t));
    KrbCredInfo {
        key: EncryptionKey::new(i.key_type, i.key_value.clone()),
        prealm: Some(i.client_realm.clone()), pname: Some(pn(&i.client_name)),
        flags: Some(i.flags.into()), authtime: tm(i.auth_time),
        starttime: tm(i.start_time), endtime: tm(i.end_time),
        renew_till: tm(i.renew_till), srealm: Some(i.server_realm.clone()),
        sname: Some(pn(&i.server_name)), caddr: None,
    }.build()
}

/// Relies on `kerberos_asn1::KrbCredInfo::parse`: decodes one per-ticket
/// metadata record, a function of the bytes alone. Records missing any of
/// the optional fields this library always writes are refused.
#[verifier::external_body]
fn cred_info_from_der(raw: &Vec<u8>) -> (r: Option<SessionKeyInfo>)
    requires
        der_times_ok(raw@),
    ensures
        r is Some <==> cred_info_parse_of(raw@) is Some,
        r matches Some(v) ==> cred_info_parse_of(raw@) == Some(v@),
{
    let pn = |p: kerberos_asn1::PrincipalName| PrincipalName {
        name_type: p.name_type, components: p.name_string };
    let (_, m) = KrbCredInfo::parse(raw).ok()?;
    Some(SessionKeyInfo {
        key_type: m.key.keytype, key_value: m.key.keyvalue,
        flags: m.flags?.flags,
        auth_time: m.authtime?.timestamp(), start_time: m.starttime?.timestamp(),
        end_time: m.endtime?.timestamp(), renew_till: m.renew_till?.timestamp(),
        client_realm: m.prealm?, client_name: pn(m.pname?),
        server_realm: m.srealm?, server_name: pn(m.sname?),
    })
}

/// A DER piece that some ticket record encodes to.
pub open spec fn is_ticket_der(d: Seq<u8>) -> bool {
    exists|t: TicketModel| d == ticket_der_of(t)
}

/// A DER piece that some metadata record encodes to.
pub open spec fn is_cred_info_der(d: Seq<u8>) -> bool {
    exists|m: SessionKeyInfoModel| d == cred_info_der_of(m)
}

/// The envelope bytes split back into exactly these pieces: the outer decode
/// yields the ticket pieces and a plaintext enc-part whose decode yields the
/// metadata pieces.
pub open spec fn krb_cred_envelope_ok(b: Seq<u8>, tders: Seq<Seq<u8>>, iders: Seq<Seq<u8>>) -> bool {
    exists|c: Seq<u8>|
        #![trigger enc_krb_cred_part_parse_of(c)]
        krb_cred_outer_parse_of(b) == Some((tders, 0i32, c))
            && enc_krb_cred_part_parse_of(c) == Some(iders)
}

/// Relies on `kerberos_asn1::KrbCred::build`, `EncKrbCredPart::build` and
/// the per-record `parse` methods being their inverses: wraps per-record DER
/// pieces as the credential-list wire format with a plaintext envelope. The
/// result starts with the KRB-CRED application tag, never a ticket-cache
/// magic byte.
#[verifier::external_body]
fn krb_cred_from_ders(tickets: &Vec<Vec<u8>>, infos: &Vec<Vec<u8>>) -> (r: Vec<u8>)
    requires
        tickets@.len() == infos@.len(),
        forall|i: int| 0 <= i < tickets@.len() ==> is_ticket_der(#[trigger] tickets.deep_view()[i]),
        forall|i: int| 0 <= i < infos@.len() ==> is_cred_info_der(#[trigger] infos.deep_view()[i]),
    ensures
        r@ == krb_cred_ders_of(tickets.deep_view(), infos.deep_view()),
        r@.len() > 0 && r@[0] == 0x76,
        krb_cred_envelope_ok(r@, tickets.deep_view(), infos.deep_view()),
{
    let ts = tickets.iter().map(|d| kerberos_asn1::Ticket::parse(d).unwrap().1).collect();
    let is_ = infos.iter().map(|d| kerberos_asn1::KrbCredInfo::parse(d).unwrap().1).collect();
    let mut part = kerberos_asn1::EncKrbCredPart::default();
    part.ticket_info = is_;
    kerberos_asn1::KrbCred::new(ts,
        kerberos_asn1::EncryptedData::new(0, None, part.build())).build()
}

/// Relies on `kerberos_asn1::KrbCred::parse`: takes the credential-list
/// envelope apart into the re-encoded ticket pieces and the enc-part's suite
/// and cipher bytes, a function of the bytes alone. The envelope carries no
/// time field, but the structural check is owed first: the delegated tag
/// parser aborts on long high-tag-number forms, which the check refuses.
#[verifier::external_body]
fn parse_krb_cred_outer(raw: &Vec<u8>) -> (r: Option<(Vec<Vec<u8>>, i32, Vec<u8>)>)
    requires
        der_times_ok(raw@),
    ensures
        r is Some <==> krb_cred_outer_parse_of(raw@) is Some,
        r matches Some(p) ==> krb_cred_outer_parse_of(raw@)
            == Some((p.0.deep_view(), p.1, p.2@)),
{
    let (_, kc) = kerberos_asn1::KrbCred::parse(raw).ok()?;
    let ts = kc.tickets.iter().map(|t| t.build()).collect();
    Some((ts, kc.enc_part.etype, kc.enc_part.cipher))
}

/// Relies on `kerberos_asn1::EncKrbCredPart::parse`: takes a plaintext
/// credential-list enc-part apart into its re-encoded per-record metadata
/// pieces, a function of the bytes alone. The calendar check is owed first:
/// the record times and the optional envelope timestamp abort the delegated
/// decoder when digit-formed but calendar-invalid.
#[verifier::external_body]
fn parse_enc_krb_cred_part(raw: &Vec<u8>) -> (r: Option<Vec<Vec<u8>>>)
    requires
        der_times_ok(raw@),
    ensures
        r is Some <==> enc_krb_cred_part_parse_of(raw@) is Some,
        r matches Some(p) ==> enc_krb_cred_part_parse_of(raw@) == Some(p.deep_view()),
{
    let (_, part) = kerberos_asn1::EncKrbCredPart::parse(raw).ok()?;
    Some(part.ticket_info.iter().map(|i| i.build()).collect())
}

/// The per-record ticket DER pieces of a credential set.
pub open spec fn ticket_ders_of(creds: Seq<CredentialModel>) -> Seq<Seq<u8>> {
    creds.map_values(|c: CredentialModel| ticket_der_of(c.ticket))
}

/// The per-record metadata DER pieces of a credential set.
pub open spec fn info_ders_of(creds: Seq<CredentialModel>) -> Seq<Seq<u8>> {
    creds.map_values(|c: CredentialModel| cred_info_der_of(c.info))
}

/// The credential-list wire encoding of a set.
pub open spec fn krb_cred_der_of(cs: CredentialSetModel) -> Seq<u8> {
    krb_cred_ders_of(ticket_ders_of(cs.creds), info_ders_of(cs.creds))
}

/// What a successful credential-list decode established about the result:
/// the input splits into per-record pieces, each piece decodes to the
/// record, and the set's client is the first record's client.
pub open spec fn krb_cred_decodes_to(b: Seq<u8>, cs: CredentialSetModel) -> bool {
    &&& der_times_ok(b)
    &&& krb_cred_outer_parse_of(b) matches Some(o)
    &&& o.1 == 0i32
    &&& der_times_ok(o.2)
    &&& enc_krb_cred_part_parse_of(o.2) matches Some(ps)
    &&& o.0.len() == cs.creds.len()
    &&& ps.len() == cs.creds.len()
    &&& cs.creds.len() > 0
    &&& forall|i: int| 0 <= i < cs.creds.len()
        ==> der_times_ok(#[trigger] o.0[i]) && ticket_parse_of(o.0[i]) == Some(cs.creds[i].ticket)
    &&& forall|i: int| 0 <= i < cs.creds.len()
        ==> der_times_ok(#[trigger] ps[i]) && cred_info_parse_of(ps[i]) == Some(cs.creds[i].info)
    &&& cs.client_realm == cs.creds[0].info.client_realm
    &&& cs.client_name == cs.creds[0].info.client_name
}

/// Encodes a credential set in the credential-list wire format. Each record
/// decodes back to itself, so a decode of the result recovers the set
/// (with the set's client read from the first record).
pub fn encode_krb_cred(cs: &CredentialSet) -> (r: Vec<u8>)
    requires
        set_times_wf(cs@),
    ensures
        r@ == krb_cred_der_of(cs@),
        r@.len() > 0 && r@[0] == 0x76,
        r@[0] != crate::codec::CACHE_MAGIC_0,
        krb_cred_outer_parse_of(r@) matches Some(o) && o.0 == ticket_ders_of(cs@.creds)
            && o.1 == 0i32 && enc_krb_cred_part_parse_of(o.2) == Some(info_ders_of(cs@.creds)),
        forall|i: int| 0 <= i < cs@.creds.len()
            ==> ticket_parse_of(ticket_der_of(#[trigger] cs@.creds[i].ticket))
                == Some(cs@.creds[i].ticket),
        forall|i: int| 0 <= i < cs@.creds.len()
            ==> cred_info_parse_of(cred_info_der_of(#[trigger] cs@.creds[i].info))
                == Some(cs@.creds[i].info),
{
    let mut tders: Vec<Vec<u8>> = Vec::new();
    let mut iders: Vec<Vec<u8>> = Vec::new();
    let n = cs.creds.len();
    let mut k: usize = 0;
    while k < n
        invariant
            k <= n,
            n == cs.creds.len(),
            set_times_wf(cs@),
            tders.deep_view() =~= ticket_ders_of(cs@.creds.take(k as int)),
            iders.deep_view() =~= info_ders_of(cs@.creds.take(k as int)),
            forall|i: int| 0 <= i < k
                ==> ticket_parse_of(ticket_der_of(#[trigger] cs@.creds[i].ticket))
                    == Some(cs@.creds[i].ticket),
            forall|i: int| 0 <= i < k
                ==> cred_info_parse_of(cred_info_der_of(#[trigger] cs@.creds[i].info))
                    == Some(cs@.creds[i].info),
        decreases n - k,
    {
        proof {
            assert(info_times_wf(cs@.creds[k as int].info));
        }
        let td = ticket_der(&cs.creds[k].ticket);
        let id = cred_info_der(&cs.creds[k].info);
        let ghost oldt = tders.deep_view();
        let ghost oldi = iders.deep_view();
        tders.push(td);
        iders.push(id);
        proof {
            assert(tders.deep_view() =~~= oldt.push(ticket_der_of(cs@.creds[k as int].ticket)));
            assert(iders.deep_view() =~~= oldi.push(cred_info_der_of(cs@.creds[k as int].info)));
            assert(tders.deep_view() =~~= ticket_ders_of(cs@.creds.take(k as int + 1)));
            assert(iders.deep_view() =~~= info_ders_of(cs@.creds.take(k as int + 1)));
        }
        k += 1;
    }
    proof {
        assert(cs@.creds.take(n as int) =~= cs@.creds);
        assert(tders.deep_view() =~~= ticket_ders_of(cs@.creds));
        assert(iders.deep_view() =~~= info_ders_of(cs@.creds));
        assert forall|i: int| 0 <= i < tders@.len()
            implies is_ticket_der(#[trigger] tders.deep_view()[i]) by {
            assert(tders.deep_view()[i] == ticket_der_of(cs@.creds[i].ticket));
        };
        assert forall|i: int| 0 <= i < iders@.len()
            implies is_cred_info_der(#[trigger] iders.deep_view()[i]) by {
            assert(iders.deep_view()[i] == cred_info_der_of(cs@.creds[i].info));
        };
    }
    krb_cred_from_ders(&tders, &iders)
}

/// Decodes a plaintext credential list: each record is decoded from its DER
/// piece and the set's client is taken from the first record. Succeeds
/// exactly when the envelope splits with a plaintext enc-part whose time
/// fields pass the calendar check, the record counts agree and are
/// non-zero, and every piece passes the calendar check and decodes. An
/// empty list is refused, since it names no client.
pub fn parse_krb_cred(b: &Vec<u8>) -> (r: Option<CredentialSet>)
    ensures
        r matches Some(cs) ==> krb_cred_decodes_to(b@, cs@),
        ({
            &&& der_times_ok(b@)
            &&& krb_cred_outer_parse_of(b@) matches Some(o)
            &&& o.1 == 0i32
            &&& der_times_ok(o.2)
            &&& enc_krb_cred_part_parse_of(o.2) matches Some(ps)
            &&& o.0.len() > 0
            &&& o.0.len() == ps.len()
            &&& forall|i: int| 0 <= i < o.0.len()
                ==> der_times_ok(#[trigger] o.0[i]) && ticket_parse_of(o.0[i]) is Some
            &&& forall|i: int| 0 <= i < ps.len()
                ==> der_times_ok(#[trigger] ps[i]) && cred_info_parse_of(ps[i]) is Some
        }) ==> r is Some,
{
    if !check_der_times(b) {
        return None;
    }
    let (tders, petype, cipher) = match parse_krb_cred_outer(b) {
        Option::Some(p) => p,
        Option::None => { return None; },
    };
    if petype != 0 {
        return None;
    }
    if !check_der_times(&cipher) {
        return None;
    }
    let iders = match parse_enc_krb_cred_part(&cipher) {
        Option::Some(p) => p,
        Option::None => { return None; },
    };
    let n = tders.len();
    if n == 0 || iders.len() != n {
        return None;
    }
    let mut creds: Vec<Credential> = Vec::new();
    let mut k: usize = 0;
    while k < n
        invariant
            k <= n,
            n == tders@.len(),
            n == iders@.len(),
            creds.len() == k,
            krb_cred_outer_parse_of(b@) matches Some(o) && o.0 == tders.deep_view()
                && o.1 == 0i32 && der_times_ok(o.2)
                && enc_krb_cred_part_parse_of(o.2) == Some(iders.deep_view()),
            forall|i: int| 0 <= i < k
                ==> der_times_ok(#[trigger] tders.deep_view()[i])
                    && ticket_parse_of(tders.deep_view()[i])
                        == Some(creds.deep_view()[i].ticket),
            forall|i: int| 0 <= i < k
                ==> der_times_ok(#[trigger] iders.deep_view()[i])
                    && cred_info_parse_of(iders.deep_view()[i])
                        == Some(creds.deep_view()[i].info),
        decreases n - k,
    {
        if !check_der_times(&tders[k]) {
            proof {
                assert(tders.deep_view()[k as int] == tders@[k as int]@);
                assert(!der_times_ok(tders.deep_view()[k as int]));
            }
            return None;
        }
        let ticket = match ticket_from_der(&tders[k]) {
            Option::Some(t) => t,
            Option::None => {
                proof {
                    assert(tders.deep_view()[k as int] == tders@[k as int]@);
                    assert(ticket_parse_of(tders.deep_view()[k as int]) is None);
                }
                return None;
            },
        };
        proof {
            assert(tders.deep_view()[k as int] == tders@[k as int]@);
        }
        if !check_der_times(&iders[k]) {
            proof {
                assert(iders.deep_view()[k as int] == iders@[k as int]@);
                assert(!der_times_ok(iders.deep_view()[k as int]));
            }
            return None;
        }
        let info = match cred_info_from_der(&iders[k]) {
            Option::Some(i) => i,
            Option::None => {
                proof {
                    assert(iders.deep_view()[k as int] == iders@[k as int]@);
                    assert(cred_info_parse_of(iders.deep_view()[k as int]) is None);
                }
                return None;
            },
        };
        proof {
            assert(iders.deep_view()[k as int] == iders@[k as int]@);
        }
        let ghost oldc = creds.deep_view();
        let ghost gt = ticket@;
        let ghost gi = info@;
        creds.push(Credential { ticket, info });
        proof {
            assert(creds.deep_view() =~~= oldc.push(CredentialModel { ticket: gt, info: gi }));
            assert(tders.deep_view()[k as int] == tders@[k as int]@);
            assert(iders.deep_view()[k as int] == iders@[k as int]@);
            assert(creds.deep_view()[k as int].ticket == gt);
            assert(creds.deep_view()[k as int].info == gi);
        }
        k += 1;
    }
    let client_realm = creds[0].info.client_realm.clone();
    let client_name = clone_principal_name(&creds[0].info.client_name);
    let cs = CredentialSet { client_realm, client_name, creds };
    proof {
        assert(cs@.creds =~= cs.creds.deep_view());
    }
    Some(cs)
}

/// Every variable-length field of a ticket enc-part stays far below the
/// four-octet length-field limit, so the built DER's length fields use at
/// most four octets each and the structural time walk accepts the output.
pub open spec fn ticket_part_bounded(p: TicketEncPartModel) -> bool {
    &&& p.pac.len() < 0x1000000
    &&& p.key_value.len() < 0x10000
    &&& vstd::utf8::encode_utf8(p.client_realm).len() < 0x10000
    &&& p.client_name.components.len() < 0x100
    &&& forall|i: int| 0 <= i < p.client_name.components.len()
        ==> vstd::utf8::encode_utf8(#[trigger] p.client_name.components[i]).len() < 0x10000
}

/// Relies on `kerberos_asn1::EncTicketPart::build` being inverted by its
/// `parse`: DER encoding of a ticket's plaintext enc-part, with the PAC
/// bytes carried as one authorization-data entry. With in-range times and
/// bounded fields the output passes the structural time walk: every time is
/// written as fourteen digits and a `Z`, and every length field fits four
/// octets.
#[verifier::external_body]
pub fn encode_ticket_enc_part(p: &TicketEncPart) -> (r: Vec<u8>)
    requires
        time_wf(p@.auth_time),
        time_wf(p@.start_time),
        time_wf(p@.end_time),
        time_wf(p@.renew_till),
        ticket_part_bounded(p@),
    ensures
        r@ == ticket_enc_part_der_of(p@),
        ticket_enc_part_parse_of(r@) == Some(p@),
        der_times_ok(r@),
{
    let mut m = EncTicketPart::default();
    m.flags = p.flags.into();
    m.key = EncryptionKey::new(p.key_type, p.key_value.clone());
    m.crealm = p.client_realm.clone();
    m.cname = kerberos_asn1::PrincipalName {
        name_type: p.client_name.name_type, name_string: p.client_name.components.clone() };
    m.authtime = ktime(p.auth_time);
    m.starttime = Some(ktime(p.start_time));
    m.endtime = ktime(p.end_time);
    m.renew_till = Some(ktime(p.renew_till));
    m.authorization_data = Some(vec![AuthorizationDataEntry {
        ad_type: 128, ad_data: p.pac.clone() }]);
    m.build()
}

/// Relies on `kerberos_asn1::EncTicketPart::parse`: decodes a ticket's
/// plaintext enc-part, a function of the bytes alone.
#[verifier::external_body]
pub fn parse_ticket_enc_part(raw: &Vec<u8>) -> (r: Option<TicketEncPart>)
    requires
        der_times_ok(raw@),
    ensures
        r is Some <==> ticket_enc_part_parse_of(raw@) is Some,
        r matches Some(v) ==> ticket_enc_part_parse_of(raw@) == Some(v@),
{
    let (_, m) = EncTicketPart::parse(raw).ok()?;
    Some(TicketEncPart {
        flags: m.flags.flags, key_type: m.key.keytype, key_value: m.key.keyvalue,
        client_realm: m.crealm,
        client_name: PrincipalName {
            name_type: m.cname.name_type, components: m.cname.name_string },
        auth_time: m.authtime.timestamp(), start_time: m.starttime?.timestamp(),
        end_time: m.endtime.timestamp(), renew_till: m.renew_till?.timestamp(),
        pac: m.authorization_data.and_then(|a| a.into_iter().next()).map(|e| e.ad_data)
            .unwrap_or_default(),
    })
}

} // verus!
