use std::cell::RefCell;
use kerberos_asn1::Asn1Object;
use krb_client::model::{PrincipalName, KerberosUser, EncryptedPayload, Ticket, SessionKeyInfo,
    Credential, CredentialSet};
use krb_client::errors::KerberosError;
use krb_client::requester::{KerberosTransporter, build_tgs_req, request_tgs, request_tgt,
    ask_tgs, create_pa_for_user, decrypt_tgs_rep_enc_part};
use krb_client::forge::{forge_credential, decrypt_forged_ticket, ForgeWindow};
use krb_client::strutil::split_spn;

fn user() -> KerberosUser {
    KerberosUser { name: "alice".to_string(), realm: "EXAMPLE.COM".to_string() }
}

fn pn(t: i32, parts: &[&str]) -> PrincipalName {
    PrincipalName { name_type: t, components: parts.iter().map(|s| s.to_string()).collect() }
}

fn session_info(key: &[u8]) -> SessionKeyInfo {
    SessionKeyInfo {
        key_type: 23,
        key_value: key.to_vec(),
        flags: 0,
        auth_time: 1_600_000_000,
        start_time: 1_600_000_000,
        end_time: 1_650_000_000,
        renew_till: 1_700_000_000,
        client_realm: "EXAMPLE.COM".to_string(),
        client_name: pn(1, &["alice"]),
        server_realm: "EXAMPLE.COM".to_string(),
        server_name: pn(2, &["krbtgt", "EXAMPLE.COM"]),
    }
}

fn sample_ticket() -> Ticket {
    Ticket {
        realm: "EXAMPLE.COM".to_string(),
        sname: pn(2, &["krbtgt", "EXAMPLE.COM"]),
        enc_part: EncryptedPayload { etype: 23, kvno: Some(2), cipher: vec![1, 2, 3] },
    }
}

struct ScriptedTransport {
    calls: RefCell<usize>,
    responses: Vec<Vec<u8>>,
}

impl KerberosTransporter for ScriptedTransport {
    fn send_recv(&self, _raw: &Vec<u8>) -> Result<Vec<u8>, KerberosError> {
        let mut c = self.calls.borrow_mut();
        let i = *c;
        *c += 1;
        Ok(self.responses[i].clone())
    }
}

fn ktime(secs: i64) -> kerberos_asn1::KerberosTime {
    kerberos_asn1::KerberosTime::from(
        chrono::TimeZone::timestamp_opt(&chrono::Utc, secs, 0).unwrap())
}

fn asn1_pn(t: i32, parts: &[&str]) -> kerberos_asn1::PrincipalName {
    kerberos_asn1::PrincipalName {
        name_type: t,
        name_string: parts.iter().map(|s| s.to_string()).collect(),
    }
}

fn preauth_required_error() -> Vec<u8> {
    let mut e = kerberos_asn1::KrbError::default();
    e.pvno = 5;
    e.msg_type = 30;
    e.stime = ktime(1_600_000_000);
    e.susec = 0;
    e.error_code = 25;
    e.realm = "EXAMPLE.COM".to_string();
    e.sname = asn1_pn(2, &["krbtgt", "EXAMPLE.COM"]);
    e.build()
}

fn fake_as_rep(client_key: &[u8]) -> Vec<u8> {
    let mut part = kerberos_asn1::EncAsRepPart::default();
    part.key = kerberos_asn1::EncryptionKey::new(23, vec![7u8; 16]);
    part.authtime = ktime(1_600_000_000);
    part.starttime = Some(ktime(1_600_000_000));
    part.endtime = ktime(1_650_000_000);
    part.renew_till = Some(ktime(1_700_000_000));
    part.srealm = "EXAMPLE.COM".to_string();
    part.sname = asn1_pn(2, &["krbtgt", "EXAMPLE.COM"]);
    let cipher = kerberos_crypto::new_kerberos_cipher(23).unwrap();
    let ct = cipher.encrypt(client_key, 3, &part.build());
    let mut rep = kerberos_asn1::AsRep::default();
    rep.crealm = "EXAMPLE.COM".to_string();
    rep.cname = asn1_pn(1, &["alice"]);
    rep.ticket = kerberos_asn1::Ticket::new(
        "EXAMPLE.COM".to_string(),
        asn1_pn(2, &["krbtgt", "EXAMPLE.COM"]),
        kerberos_asn1::EncryptedData::new(23, Some(2), vec![1, 2, 3]));
    rep.enc_part = kerberos_asn1::EncryptedData::new(23, None, ct);
    rep.build()
}

fn fake_tgs_rep(session_key: &[u8]) -> Vec<u8> {
    let mut part = kerberos_asn1::EncTgsRepPart::default();
    part.key = kerberos_asn1::EncryptionKey::new(23, vec![9u8; 16]);
    part.authtime = ktime(1_600_000_000);
    part.starttime = Some(ktime(1_600_000_000));
    part.endtime = ktime(1_650_000_000);
    part.renew_till = Some(ktime(1_700_000_000));
    part.srealm = "EXAMPLE.COM".to_string();
    part.sname = asn1_pn(2, &["HTTP", "host.example.com"]);
    let cipher = kerberos_crypto::new_kerberos_cipher(23).unwrap();
    let ct = cipher.encrypt(session_key, 8, &part.build());
    let mut rep = kerberos_asn1::TgsRep::default();
    rep.crealm = "EXAMPLE.COM".to_string();
    rep.cname = asn1_pn(1, &["alice"]);
    rep.ticket = kerberos_asn1::Ticket::new(
        "EXAMPLE.COM".to_string(),
        asn1_pn(2, &["HTTP", "host.example.com"]),
        kerberos_asn1::EncryptedData::new(23, None, vec![4, 5, 6]));
    rep.enc_part = kerberos_asn1::EncryptedData::new(23, None, ct);
    rep.build()
}

#[test]
fn as_exchange_retries_once_after_preauth_required() {
    let u = user();
    let password = "Password123!".to_string();
    let cipher = kerberos_crypto::new_kerberos_cipher(23).unwrap();
    let salt = cipher.generate_salt(&u.realm, &u.name);
    let client_key = cipher.generate_key_from_string(&password, &salt);
    let transport = ScriptedTransport {
        calls: RefCell::new(0),
        responses: vec![preauth_required_error(), fake_as_rep(&client_key)],
    };
    let cred = request_tgt(&u, &password, 23, &transport).unwrap();
    assert_eq!(*transport.calls.borrow(), 2);
    assert_eq!(cred.info.client_realm, u.realm);
    assert_eq!(cred.info.key_value, vec![7u8; 16]);
    assert_eq!(cred.ticket.sname.components,
        vec!["krbtgt".to_string(), "EXAMPLE.COM".to_string()]);
}

#[test]
fn as_exchange_surfaces_other_kdc_errors() {
    let u = user();
    let mut e = kerberos_asn1::KrbError::default();
    e.pvno = 5;
    e.msg_type = 30;
    e.stime = ktime(1_600_000_000);
    e.error_code = 6;
    e.realm = "EXAMPLE.COM".to_string();
    e.sname = asn1_pn(2, &["krbtgt", "EXAMPLE.COM"]);
    let transport = ScriptedTransport { calls: RefCell::new(0), responses: vec![e.build()] };
    let r = request_tgt(&u, &"pw".to_string(), 23, &transport);
    assert!(matches!(r, Err(KerberosError::KdcProtocolError { code: 6, .. })));
    assert_eq!(*transport.calls.borrow(), 1);
}

#[test]
fn tgs_request_server_principal_is_service_split_on_slash() {
    let info = session_info(&[5u8; 16]);
    let req = build_tgs_req(&user(), "HTTP/host.example.com", &info, sample_ticket(), None)
        .unwrap();
    let sname = req.0.sname.as_ref().unwrap();
    assert_eq!(sname.name_type, 2);
    assert_eq!(sname.components,
        vec!["HTTP".to_string(), "host.example.com".to_string()]);
    assert_eq!(req.0.padatas.len(), 1);
    assert_eq!(req.0.padatas[0].patype, 1);
    assert_eq!(req.0.realm, "EXAMPLE.COM");
}

#[test]
fn s4u2self_request_names_the_requesting_user() {
    let info = session_info(&[5u8; 16]);
    let imp = KerberosUser { name: "victim".to_string(), realm: "EXAMPLE.COM".to_string() };
    let req = build_tgs_req(&user(), "HTTP/host.example.com", &info, sample_ticket(),
        Some(&imp)).unwrap();
    let sname = req.0.sname.as_ref().unwrap();
    assert_eq!(sname.name_type, 0);
    assert_eq!(sname.components, vec!["alice".to_string()]);
    assert_eq!(req.0.padatas.len(), 2);
    assert_eq!(req.0.padatas[0].patype, 129);
    assert_eq!(req.0.padatas[1].patype, 1);
}

#[test]
fn pa_for_user_checksum_binds_identity_and_field_order() {
    let key = vec![3u8; 16];
    let imp1 = KerberosUser { name: "victim".to_string(), realm: "EXAMPLE.COM".to_string() };
    let imp2 = KerberosUser { name: "other".to_string(), realm: "EXAMPLE.COM".to_string() };
    let pa1 = create_pa_for_user(&imp1, &key);
    let pa2 = create_pa_for_user(&imp2, &key);
    assert_ne!(pa1.cksum, pa2.cksum);
    let mut ck: Vec<u8> = 1i32.to_le_bytes().to_vec();
    ck.extend_from_slice(b"victim");
    ck.extend_from_slice(b"EXAMPLE.COM");
    ck.extend_from_slice(b"Kerberos");
    assert_eq!(pa1.cksum, kerberos_crypto::checksum_hmac_md5(&key, 17, &ck));
}

#[test]
fn tgs_exchange_returns_decrypted_session_record() {
    let key = [5u8; 16];
    let info = session_info(&key);
    let transport = ScriptedTransport {
        calls: RefCell::new(0),
        responses: vec![fake_tgs_rep(&key)],
    };
    let (ticket, new_info) = request_tgs(&user(), "HTTP/host.example.com", &info,
        sample_ticket(), &transport, None).unwrap();
    assert_eq!(ticket.sname.components,
        vec!["HTTP".to_string(), "host.example.com".to_string()]);
    assert_eq!(new_info.key_value, vec![9u8; 16]);
    assert_eq!(new_info.server_name.components,
        vec!["HTTP".to_string(), "host.example.com".to_string()]);
}

#[test]
fn tgs_exchange_rejects_as_rep_answer() {
    let key = [5u8; 16];
    let info = session_info(&key);
    let transport = ScriptedTransport {
        calls: RefCell::new(0),
        responses: vec![fake_as_rep(&key)],
    };
    let r = request_tgs(&user(), "HTTP/host.example.com", &info, sample_ticket(),
        &transport, None);
    assert!(matches!(r, Err(KerberosError::UnexpectedResponseType)));
}

#[test]
fn ask_tgs_appends_without_disturbing_entries() {
    let key = [5u8; 16];
    let set = CredentialSet {
        client_realm: "EXAMPLE.COM".to_string(),
        client_name: pn(1, &["alice"]),
        creds: vec![Credential { ticket: sample_ticket(), info: session_info(&key) }],
    };
    let transport = ScriptedTransport {
        calls: RefCell::new(0),
        responses: vec![fake_tgs_rep(&key)],
    };
    let out = ask_tgs(&user(), "HTTP/host.example.com", set, &transport, None).unwrap();
    assert_eq!(out.creds.len(), 2);
    assert_eq!(out.creds[0].info.server_name.components,
        vec!["krbtgt".to_string(), "EXAMPLE.COM".to_string()]);
    assert_eq!(out.creds[1].info.server_name.components,
        vec!["HTTP".to_string(), "host.example.com".to_string()]);
}

#[test]
fn ask_tgs_without_tgt_is_missing_credential() {
    let set = CredentialSet {
        client_realm: "EXAMPLE.COM".to_string(),
        client_name: pn(1, &["alice"]),
        creds: vec![],
    };
    let transport = ScriptedTransport { calls: RefCell::new(0), responses: vec![] };
    let r = ask_tgs(&user(), "HTTP/host.example.com", set, &transport, None);
    assert!(matches!(r, Err(KerberosError::MissingCredential)));
    assert_eq!(*transport.calls.borrow(), 0);
}

#[test]
fn decrypt_tgs_rep_enc_part_rejects_unknown_suite() {
    let enc = EncryptedPayload { etype: 3, kvno: None, cipher: vec![1, 2, 3] };
    let r = decrypt_tgs_rep_enc_part(&vec![0u8; 16], &enc);
    assert!(matches!(r, Err(KerberosError::UnsupportedEncryptionType(3))));
}

#[test]
fn split_service_string_edges() {
    assert_eq!(split_spn("abc"), vec!["abc".to_string()]);
    assert_eq!(split_spn("a/b/c"),
        vec!["a".to_string(), "b".to_string(), "c".to_string()]);
    assert_eq!(split_spn("/x"), vec!["".to_string(), "x".to_string()]);
    assert_eq!(split_spn("x/"), vec!["x".to_string(), "".to_string()]);
    assert_eq!(split_spn(""), vec!["".to_string()]);
}

#[test]
fn forged_ticket_decrypts_to_supplied_window() {
    let u = user();
    let signing_key = vec![0x42u8; 16];
    let window = ForgeWindow {
        auth_time: 1_600_000_000,
        start_time: 1_600_000_001,
        end_time: 1_650_000_002,
        renew_till: 1_700_000_003,
    };
    let service = pn(2, &["cifs", "dc.example.com"]);
    let groups = vec![512u32, 513];
    let cred = forge_credential(&u, &service, &"EXAMPLE.COM".to_string(), &groups,
        0x40e10000, &window, signing_key.clone(), 23).unwrap();
    assert_eq!(cred.ticket.sname.components,
        vec!["cifs".to_string(), "dc.example.com".to_string()]);
    let part = decrypt_forged_ticket(&signing_key, &cred.ticket).unwrap();
    assert_eq!(part.auth_time, window.auth_time);
    assert_eq!(part.start_time, window.start_time);
    assert_eq!(part.end_time, window.end_time);
    assert_eq!(part.renew_till, window.renew_till);
    assert_eq!(part.client_name.components, vec!["alice".to_string()]);
    assert_eq!(part.key_value, cred.info.key_value);
    assert_eq!(part.flags, 0x40e10000);
    let wrong_key = vec![0x43u8; 16];
    let r = decrypt_forged_ticket(&wrong_key, &cred.ticket);
    assert!(r.is_err());
}
