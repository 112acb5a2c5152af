use krb_client::constants;
use krb_client::crypto::{Cipher, supported_etypes, checksum_hmac_md5};
use krb_client::errors::KerberosError;
use krb_client::builder::KdcReqBuilder;
use krb_client::model::{PrincipalName, username_to_principal_name, gen_krbtgt_principal_name,
    principal_name_eq};

#[test]
fn constants_match_protocol_registry() {
    assert_eq!(constants::RC4_HMAC, kerberos_constants::etypes::RC4_HMAC);
    assert_eq!(constants::AES128_CTS_HMAC_SHA1_96,
        kerberos_constants::etypes::AES128_CTS_HMAC_SHA1_96);
    assert_eq!(constants::AES256_CTS_HMAC_SHA1_96,
        kerberos_constants::etypes::AES256_CTS_HMAC_SHA1_96);
    assert_eq!(constants::KEY_USAGE_AS_REQ_TIMESTAMP,
        kerberos_constants::key_usages::KEY_USAGE_AS_REQ_TIMESTAMP);
    assert_eq!(constants::KEY_USAGE_AS_REP_TICKET,
        kerberos_constants::key_usages::KEY_USAGE_AS_REP_TICKET);
    assert_eq!(constants::KEY_USAGE_AS_REP_ENC_PART,
        kerberos_constants::key_usages::KEY_USAGE_AS_REP_ENC_PART);
    assert_eq!(constants::KEY_USAGE_TGS_REQ_AUTHEN,
        kerberos_constants::key_usages::KEY_USAGE_TGS_REQ_AUTHEN);
    assert_eq!(constants::KEY_USAGE_TGS_REP_ENC_PART_SESSION_KEY,
        kerberos_constants::key_usages::KEY_USAGE_TGS_REP_ENC_PART_SESSION_KEY);
    assert_eq!(constants::KEY_USAGE_KERB_NON_KERB_CKSUM_SALT,
        kerberos_constants::key_usages::KEY_USAGE_KERB_NON_KERB_CKSUM_SALT);
    assert_eq!(constants::PA_TGS_REQ, kerberos_constants::pa_data_types::PA_TGS_REQ);
    assert_eq!(constants::PA_ENC_TIMESTAMP, kerberos_constants::pa_data_types::PA_ENC_TIMESTAMP);
    assert_eq!(constants::PA_PAC_REQUEST, kerberos_constants::pa_data_types::PA_PAC_REQUEST);
    assert_eq!(constants::PA_FOR_USER, kerberos_constants::pa_data_types::PA_FOR_USER);
    assert_eq!(constants::NT_UNKNOWN, kerberos_constants::principal_names::NT_UNKNOWN);
    assert_eq!(constants::NT_PRINCIPAL, kerberos_constants::principal_names::NT_PRINCIPAL);
    assert_eq!(constants::NT_SRV_INST, kerberos_constants::principal_names::NT_SRV_INST);
    assert_eq!(constants::FORWARDABLE, kerberos_constants::kdc_options::FORWARDABLE);
    assert_eq!(constants::RENEWABLE, kerberos_constants::kdc_options::RENEWABLE);
    assert_eq!(constants::CANONICALIZE, kerberos_constants::kdc_options::CANONICALIZE);
    assert_eq!(constants::RENEWABLE_OK, kerberos_constants::kdc_options::RENEWABLE_OK);
    assert_eq!(constants::CKSUM_HMAC_MD5, kerberos_constants::checksum_types::HMAC_MD5);
    assert_eq!(constants::KDC_ERR_PREAUTH_REQUIRED,
        kerberos_constants::error_codes::KDC_ERR_PREAUTH_REQUIRED);
}

fn key_for(etype: i32) -> Vec<u8> {
    let n = if etype == 18 { 32 } else { 16 };
    (0u8..n as u8).map(|i| i.wrapping_mul(7).wrapping_add(3)).collect()
}

#[test]
fn encrypt_decrypt_round_trip_all_suites() {
    let message: Vec<u8> = b"the quick brown fox jumps over the lazy dog".to_vec();
    for etype in [23i32, 17, 18] {
        let cipher = Cipher::select(etype, key_for(etype)).unwrap();
        let ct = cipher.encrypt(3, &message);
        assert_ne!(ct, message);
        let pt = cipher.decrypt(3, &ct).unwrap();
        assert_eq!(pt, message);
    }
}

#[test]
fn wrong_usage_number_fails_closed() {
    let message: Vec<u8> = b"usage numbers scope the key to one role".to_vec();
    for etype in [23i32, 17, 18] {
        let cipher = Cipher::select(etype, key_for(etype)).unwrap();
        let ct = cipher.encrypt(3, &message);
        let r = cipher.decrypt(9, &ct);
        match &r {
            Ok(p) => assert_ne!(*p, message),
            Err(e) => assert!(matches!(e, KerberosError::DecryptionIntegrityFailure)),
        }
        assert!(r.is_err());
    }
}

#[test]
fn unsupported_etype_is_refused() {
    let r = Cipher::select(3, vec![0u8; 8]);
    assert!(matches!(r, Err(KerberosError::UnsupportedEncryptionType(3))));
    let r2 = Cipher::from_password(24, &"pw".to_string(), &"R".to_string(), &"u".to_string());
    assert!(matches!(r2, Err(KerberosError::UnsupportedEncryptionType(24))));
}

#[test]
fn password_derivation_matches_reference_suite() {
    let password = "Password123!".to_string();
    let realm = "KINGDOM.HEARTS".to_string();
    let name = "mickey".to_string();
    for etype in [23i32, 17, 18] {
        let cipher = Cipher::from_password(etype, &password, &realm, &name).unwrap();
        let reference = kerberos_crypto::new_kerberos_cipher(etype).unwrap();
        let salt = reference.generate_salt(&realm, &name);
        let expected = reference.generate_key_from_string(&password, &salt);
        assert_eq!(cipher.key, expected);
    }
}

#[test]
fn checksum_matches_reference_and_binds_data() {
    let key = key_for(23);
    let data: Vec<u8> = b"some bytes".to_vec();
    let c = checksum_hmac_md5(&key, 17, &data);
    assert_eq!(c, kerberos_crypto::checksum_hmac_md5(&key, 17, &data));
    assert_ne!(c, data);
}

#[test]
fn supported_etypes_order_is_preference_order() {
    assert_eq!(supported_etypes(), vec![23, 17, 18]);
}

#[test]
fn builder_defaults() {
    let b = KdcReqBuilder::new("EXAMPLE.COM".to_string());
    let sname = b.sname.as_ref().unwrap();
    assert_eq!(sname.name_type, 1);
    assert_eq!(sname.components, vec!["krbtgt".to_string(), "EXAMPLE.COM".to_string()]);
    assert_eq!(b.etypes, vec![23, 17, 18]);
    assert_eq!(b.kdc_options, 0x40810010);
    assert!(b.cname.is_none());
    assert!(b.padatas.is_empty());
    let req = b.username("alice".to_string()).build();
    let cname = req.cname.unwrap();
    assert_eq!(cname.name_type, 1);
    assert_eq!(cname.components, vec!["alice".to_string()]);
}

#[test]
fn request_pac_attaches_encoded_flag() {
    let b = KdcReqBuilder::new("EXAMPLE.COM".to_string()).request_pac();
    assert_eq!(b.padatas.len(), 1);
    assert_eq!(b.padatas[0].patype, 128);
    assert_eq!(b.padatas[0].value,
        kerberos_asn1::Asn1Object::build(&kerberos_asn1::KerbPaPacRequest::new(true)));
}

#[test]
fn principal_name_helpers() {
    let p = username_to_principal_name("alice".to_string());
    assert_eq!(p.name_type, 1);
    assert_eq!(p.components, vec!["alice".to_string()]);
    let k = gen_krbtgt_principal_name("REALM".to_string(), 2);
    assert_eq!(k.name_type, 2);
    assert_eq!(k.components, vec!["krbtgt".to_string(), "REALM".to_string()]);
    let q = PrincipalName { name_type: 1, components: vec!["alice".to_string()] };
    assert!(principal_name_eq(&p, &q));
    let s = PrincipalName { name_type: 2, components: vec!["alice".to_string()] };
    assert!(!principal_name_eq(&p, &s));
}
