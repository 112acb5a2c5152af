use krb_client::model::{PrincipalName, EncryptedPayload, Ticket, SessionKeyInfo, Credential,
    CredentialSet};
use krb_client::vault::{find_credential, append_credential, save_credentials, load_credentials,
    CredFormat};
use krb_client::errors::KerberosError;

fn pn(t: i32, parts: &[&str]) -> PrincipalName {
    PrincipalName { name_type: t, components: parts.iter().map(|s| s.to_string()).collect() }
}

fn sample_cred(client: &str, service: &[&str], end_time: i64) -> Credential {
    Credential {
        ticket: Ticket {
            realm: "EXAMPLE.COM".to_string(),
            sname: pn(2, service),
            enc_part: EncryptedPayload { etype: 23, kvno: Some(5), cipher: vec![9, 8, 7, 6] },
        },
        info: SessionKeyInfo {
            key_type: 23,
            key_value: vec![1; 16],
            flags: 0x40e10000,
            auth_time: 1_600_000_000,
            start_time: 1_600_000_000,
            end_time,
            renew_till: 1_700_000_000,
            client_realm: "EXAMPLE.COM".to_string(),
            client_name: pn(1, &[client]),
            server_realm: "EXAMPLE.COM".to_string(),
            server_name: pn(2, service),
        },
    }
}

fn sample_set() -> CredentialSet {
    CredentialSet {
        client_realm: "EXAMPLE.COM".to_string(),
        client_name: pn(1, &["alice"]),
        creds: vec![
            sample_cred("alice", &["krbtgt", "EXAMPLE.COM"], 1_650_000_000),
            sample_cred("alice", &["HTTP", "host.example.com"], 1_651_000_000),
        ],
    }
}

fn assert_sets_equal(a: &CredentialSet, b: &CredentialSet) {
    assert_eq!(a.client_realm, b.client_realm);
    assert_eq!(a.client_name.name_type, b.client_name.name_type);
    assert_eq!(a.client_name.components, b.client_name.components);
    assert_eq!(a.creds.len(), b.creds.len());
    for (x, y) in a.creds.iter().zip(b.creds.iter()) {
        assert_eq!(x.ticket.realm, y.ticket.realm);
        assert_eq!(x.ticket.sname.components, y.ticket.sname.components);
        assert_eq!(x.ticket.enc_part.etype, y.ticket.enc_part.etype);
        assert_eq!(x.ticket.enc_part.kvno, y.ticket.enc_part.kvno);
        assert_eq!(x.ticket.enc_part.cipher, y.ticket.enc_part.cipher);
        assert_eq!(x.info.key_type, y.info.key_type);
        assert_eq!(x.info.key_value, y.info.key_value);
        assert_eq!(x.info.flags, y.info.flags);
        assert_eq!(x.info.auth_time, y.info.auth_time);
        assert_eq!(x.info.start_time, y.info.start_time);
        assert_eq!(x.info.end_time, y.info.end_time);
        assert_eq!(x.info.renew_till, y.info.renew_till);
        assert_eq!(x.info.client_realm, y.info.client_realm);
        assert_eq!(x.info.client_name.components, y.info.client_name.components);
        assert_eq!(x.info.server_realm, y.info.server_realm);
        assert_eq!(x.info.server_name.components, y.info.server_name.components);
    }
}

#[test]
fn ticket_cache_save_load_save_is_byte_identical() {
    let cs = sample_set();
    let bytes = save_credentials(&cs, &CredFormat::TicketCache);
    let (loaded, format) = load_credentials(&bytes).unwrap();
    assert!(matches!(format, CredFormat::TicketCache));
    assert_sets_equal(&cs, &loaded);
    let again = save_credentials(&loaded, &CredFormat::TicketCache);
    assert_eq!(bytes, again);
}

#[test]
fn krb_cred_save_load_save_is_byte_identical() {
    let cs = sample_set();
    let bytes = save_credentials(&cs, &CredFormat::KrbCred);
    let (loaded, format) = load_credentials(&bytes).unwrap();
    assert!(matches!(format, CredFormat::KrbCred));
    assert_sets_equal(&cs, &loaded);
    let again = save_credentials(&loaded, &CredFormat::KrbCred);
    assert_eq!(bytes, again);
}

#[test]
fn krb_cred_output_is_wire_format() {
    let cs = sample_set();
    let bytes = save_credentials(&cs, &CredFormat::KrbCred);
    let (rest, parsed) = kerberos_asn1::Asn1Object::parse(&bytes)
        .map(|(r, v): (&[u8], kerberos_asn1::KrbCred)| (r, v)).unwrap();
    assert!(rest.is_empty());
    assert_eq!(parsed.tickets.len(), 2);
    assert_eq!(parsed.enc_part.etype, 0);
}

#[test]
fn garbage_and_truncation_are_malformed() {
    let r = load_credentials(&vec![0xAAu8, 0xBB, 0xCC]);
    assert!(matches!(r, Err(KerberosError::MalformedCredentialFile)));
    let cs = sample_set();
    let mut bytes = save_credentials(&cs, &CredFormat::TicketCache);
    bytes.truncate(bytes.len() - 3);
    let r2 = load_credentials(&bytes);
    assert!(matches!(r2, Err(KerberosError::MalformedCredentialFile)));
    let mut extended = save_credentials(&cs, &CredFormat::TicketCache);
    extended.push(0);
    let r3 = load_credentials(&extended);
    assert!(matches!(r3, Err(KerberosError::MalformedCredentialFile)));
}

#[test]
fn find_returns_most_recently_appended_duplicate() {
    let mut cs = sample_set();
    let newer = sample_cred("alice", &["HTTP", "host.example.com"], 1_990_000_000);
    append_credential(&mut cs, newer);
    assert_eq!(cs.creds.len(), 3);
    let found = find_credential(&cs, &pn(1, &["alice"]), &pn(2, &["HTTP", "host.example.com"]))
        .unwrap();
    assert_eq!(found.info.end_time, 1_990_000_000);
}

#[test]
fn find_reports_missing_credential() {
    let cs = sample_set();
    let r = find_credential(&cs, &pn(1, &["bob"]), &pn(2, &["HTTP", "host.example.com"]));
    assert!(matches!(r, Err(KerberosError::MissingCredential)));
    let r2 = find_credential(&cs, &pn(1, &["alice"]), &pn(2, &["LDAP", "dc.example.com"]));
    assert!(matches!(r2, Err(KerberosError::MissingCredential)));
}

#[test]
fn append_preserves_existing_entries_and_order() {
    let mut cs = sample_set();
    let before: Vec<i64> = cs.creds.iter().map(|c| c.info.end_time).collect();
    append_credential(&mut cs, sample_cred("alice", &["cifs", "fs.example.com"], 42));
    let after: Vec<i64> = cs.creds.iter().map(|c| c.info.end_time).collect();
    assert_eq!(&after[..before.len()], &before[..]);
    assert_eq!(*after.last().unwrap(), 42);
}
