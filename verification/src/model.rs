//! The canonical in-memory credential data model: principal names, encrypted
//! blobs, tickets, session-key metadata, and ordered credential sets. Each
//! executable type has a mathematical model reached through `@`.

use vstd::prelude::*;
use crate::constants::NT_PRINCIPAL;

verus! {

/// A principal name: a type tag plus an ordered sequence of components.
/// Equality is type-tag plus component-sequence equality.
pub struct PrincipalName {
    pub name_type: i32,
    pub components: Vec<String>,
}

#[verifier::ext_equal]
pub struct PrincipalNameModel {
    pub name_type: i32,
    pub components: Seq<Seq<char>>,
}

impl View for PrincipalName {
    type V = PrincipalNameModel;

    open spec fn view(&self) -> PrincipalNameModel {
        PrincipalNameModel { name_type: self.name_type, components: self.components.deep_view() }
    }
}

/// An immutable user identity handed in by the caller.
pub struct KerberosUser {
    pub name: String,
    pub realm: String,
}

/// An encrypted blob: opaque until decrypted with the matching cipher and
/// the correct key-usage number.
pub struct EncryptedPayload {
    pub etype: i32,
    pub kvno: Option<u32>,
    pub cipher: Vec<u8>,
}

#[verifier::ext_equal]
pub struct EncryptedPayloadModel {
    pub etype: i32,
    pub kvno: Option<u32>,
    pub cipher: Seq<u8>,
}

impl View for EncryptedPayload {
    type V = EncryptedPayloadModel;

    open spec fn view(&self) -> EncryptedPayloadModel {
        EncryptedPayloadModel { etype: self.etype, kvno: self.kvno, cipher: self.cipher@ }
    }
}

/// A ticket: an opaque encrypted structure addressed to a service principal.
pub struct Ticket {
    pub realm: String,
    pub sname: PrincipalName,
    pub enc_part: EncryptedPayload,
}

#[verifier::ext_equal]
pub struct TicketModel {
    pub realm: Seq<char>,
    pub sname: PrincipalNameModel,
    pub enc_part: EncryptedPayloadModel,
}

impl View for Ticket {
    type V = TicketModel;

    open spec fn view(&self) -> TicketModel {
        TicketModel { realm: self.realm@, sname: self.sname@, enc_part: self.enc_part@ }
    }
}

/// The decrypted content of an AS-REP or TGS-REP enc-part: the session key
/// and the metadata needed to later use the accompanying ticket.
pub struct SessionKeyInfo {
    pub key_type: i32,
    pub key_value: Vec<u8>,
    pub flags: u32,
    pub auth_time: i64,
    pub start_time: i64,
    pub end_time: i64,
    pub renew_till: i64,
    pub client_realm: String,
    pub client_name: PrincipalName,
    pub server_realm: String,
    pub server_name: PrincipalName,
}

#[verifier::ext_equal]
pub struct SessionKeyInfoModel {
    pub key_type: i32,
    pub key_value: Seq<u8>,
    pub flags: u32,
    pub auth_time: i64,
    pub start_time: i64,
    pub end_time: i64,
    pub renew_till: i64,
    pub client_realm: Seq<char>,
    pub client_name: PrincipalNameModel,
    pub server_realm: Seq<char>,
    pub server_name: PrincipalNameModel,
}

impl View for SessionKeyInfo {
    type V = SessionKeyInfoModel;

    open spec fn view(&self) -> SessionKeyInfoModel {
        SessionKeyInfoModel {
            key_type: self.key_type,
            key_value: self.key_value@,
            flags: self.flags,
            auth_time: self.auth_time,
            start_time: self.start_time,
            end_time: self.end_time,
            renew_till: self.renew_till,
            client_realm: self.client_realm@,
            client_name: self.client_name@,
            server_realm: self.server_realm@,
            server_name: self.server_name@,
        }
    }
}

/// A ticket paired with its session-key metadata: the unit persisted and
/// looked up.
pub struct Credential {
    pub ticket: Ticket,
    pub info: SessionKeyInfo,
}

#[verifier::ext_equal]
pub struct CredentialModel {
    pub ticket: TicketModel,
    pub info: SessionKeyInfoModel,
}

impl View for Credential {
    type V = CredentialModel;

    open spec fn view(&self) -> CredentialModel {
        CredentialModel { ticket: self.ticket@, info: self.info@ }
    }
}

impl DeepView for Credential {
    type V = CredentialModel;

    open spec fn deep_view(&self) -> CredentialModel {
        self.view()
    }
}

/// An ordered sequence of credentials plus the originating client principal.
/// Insertion order is preserved: lookups prefer the most recently appended
/// matching credential.
pub struct CredentialSet {
    pub client_realm: String,
    pub client_name: PrincipalName,
    pub creds: Vec<Credential>,
}

#[verifier::ext_equal]
pub struct CredentialSetModel {
    pub client_realm: Seq<char>,
    pub client_name: PrincipalNameModel,
    pub creds: Seq<CredentialModel>,
}

impl View for CredentialSet {
    type V = CredentialSetModel;

    open spec fn view(&self) -> CredentialSetModel {
        CredentialSetModel {
            client_realm: self.client_realm@,
            client_name: self.client_name@,
            creds: self.creds.deep_view(),
        }
    }
}

/// A decoded AS-REP or TGS-REP: the fields the exchanges read.
pub struct KdcRep {
    pub crealm: String,
    pub cname: PrincipalName,
    pub ticket: Ticket,
    pub enc_part: EncryptedPayload,
}

#[verifier::ext_equal]
pub struct KdcRepModel {
    pub crealm: Seq<char>,
    pub cname: PrincipalNameModel,
    pub ticket: TicketModel,
    pub enc_part: EncryptedPayloadModel,
}

impl View for KdcRep {
    type V = KdcRepModel;

    open spec fn view(&self) -> KdcRepModel {
        KdcRepModel {
            crealm: self.crealm@,
            cname: self.cname@,
            ticket: self.ticket@,
            enc_part: self.enc_part@,
        }
    }
}

/// The decrypted enc-part of an AS-REP or TGS-REP.
pub struct EncRepPart {
    pub key_type: i32,
    pub key_value: Vec<u8>,
    pub flags: u32,
    pub auth_time: i64,
    pub start_time: i64,
    pub end_time: i64,
    pub renew_till: i64,
    pub server_realm: String,
    pub server_name: PrincipalName,
}

#[verifier::ext_equal]
pub struct EncRepPartModel {
    pub key_type: i32,
    pub key_value: Seq<u8>,
    pub flags: u32,
    pub auth_time: i64,
    pub start_time: i64,
    pub end_time: i64,
    pub renew_till: i64,
    pub server_realm: Seq<char>,
    pub server_name: PrincipalNameModel,
}

impl View for EncRepPart {
    type V = EncRepPartModel;

    open spec fn view(&self) -> EncRepPartModel {
        EncRepPartModel {
            key_type: self.key_type,
            key_value: self.key_value@,
            flags: self.flags,
            auth_time: self.auth_time,
            start_time: self.start_time,
            end_time: self.end_time,
            renew_till: self.renew_till,
            server_realm: self.server_realm@,
            server_name: self.server_name@,
        }
    }
}

/// The plaintext of a ticket's enc-part, as the forge builds it: identity,
/// session key, validity window and the embedded PAC bytes.
pub struct TicketEncPart {
    pub flags: u32,
    pub key_type: i32,
    pub key_value: Vec<u8>,
    pub client_realm: String,
    pub client_name: PrincipalName,
    pub auth_time: i64,
    pub start_time: i64,
    pub end_time: i64,
    pub renew_till: i64,
    pub pac: Vec<u8>,
}

#[verifier::ext_equal]
pub struct TicketEncPartModel {
    pub flags: u32,
    pub key_type: i32,
    pub key_value: Seq<u8>,
    pub client_realm: Seq<char>,
    pub client_name: PrincipalNameModel,
    pub auth_time: i64,
    pub start_time: i64,
    pub end_time: i64,
    pub renew_till: i64,
    pub pac: Seq<u8>,
}

impl View for TicketEncPart {
    type V = TicketEncPartModel;

    open spec fn view(&self) -> TicketEncPartModel {
        TicketEncPartModel {
            flags: self.flags,
            key_type: self.key_type,
            key_value: self.key_value@,
            client_realm: self.client_realm@,
            client_name: self.client_name@,
            auth_time: self.auth_time,
            start_time: self.start_time,
            end_time: self.end_time,
            renew_till: self.renew_till,
            pac: self.pac@,
        }
    }
}

/// Owned copy of a byte vector, with its contents pinned.
pub fn clone_bytes(v: &Vec<u8>) -> (r: Vec<u8>)
    ensures
        r@ == v@,
{
    vstd::slice::slice_to_vec(v.as_slice())
}

/// Owned copy of a principal name, with its model pinned.
pub fn clone_principal_name(p: &PrincipalName) -> (r: PrincipalName)
    ensures
        r@ == p@,
{
    let mut components: Vec<String> = Vec::new();
    let n = p.components.len();
    let mut i: usize = 0;
    while i < n
        invariant
            n == p.components.len(),
            i <= n,
            components.deep_view() =~= p.components.deep_view().take(i as int),
        decreases n - i,
    {
        let ghost oldc = components.deep_view();
        components.push(p.components[i].clone());
        proof {
            assert(components.deep_view() =~= oldc.push(p.components@[i as int]@));
            assert(components.deep_view() =~= p.components.deep_view().take(i as int + 1));
        }
        i += 1;
    }
    proof {
        assert(p.components.deep_view().take(n as int) =~= p.components.deep_view());
    }
    let r = PrincipalName { name_type: p.name_type, components };
    proof {
        assert(r@ =~= p@);
    }
    r
}

/// Owned copy of a ticket, with its model pinned.
pub fn clone_ticket(t: &Ticket) -> (r: Ticket)
    ensures
        r@ == t@,
{
    let r = Ticket {
        realm: t.realm.clone(),
        sname: clone_principal_name(&t.sname),
        enc_part: EncryptedPayload {
            etype: t.enc_part.etype,
            kvno: t.enc_part.kvno,
            cipher: clone_bytes(&t.enc_part.cipher),
        },
    };
    proof {
        assert(r@ =~= t@);
    }
    r
}

/// Owned copy of a session-key record, with its model pinned.
pub fn clone_session_key_info(i: &SessionKeyInfo) -> (r: SessionKeyInfo)
    ensures
        r@ == i@,
{
    let r = SessionKeyInfo {
        key_type: i.key_type,
        key_value: clone_bytes(&i.key_value),
        flags: i.flags,
        auth_time: i.auth_time,
        start_time: i.start_time,
        end_time: i.end_time,
        renew_till: i.renew_till,
        client_realm: i.client_realm.clone(),
        client_name: clone_principal_name(&i.client_name),
        server_realm: i.server_realm.clone(),
        server_name: clone_principal_name(&i.server_name),
    };
    proof {
        assert(r@ =~= i@);
    }
    r
}

/// Owned copy of a credential, with its model pinned.
pub fn clone_credential(c: &Credential) -> (r: Credential)
    ensures
        r@ == c@,
{
    let r = Credential { ticket: clone_ticket(&c.ticket), info: clone_session_key_info(&c.info) };
    proof {
        assert(r@ =~= c@);
    }
    r
}

/// Compares two principal names: type tag plus every component.
pub fn principal_name_eq(a: &PrincipalName, b: &PrincipalName) -> (r: bool)
    ensures
        r == (a@ == b@),
{
    if a.name_type != b.name_type {
        proof {
            assert(a@.name_type != b@.name_type);
        }
        return false;
    }
    if a.components.len() != b.components.len() {
        proof {
            assert(a@.components.len() != b@.components.len());
        }
        return false;
    }
    let n = a.components.len();
    let mut i: usize = 0;
    while i < n
        invariant
            n == a.components.len() == b.components.len(),
            i <= n,
            forall|j: int| 0 <= j < i ==> a.components@[j]@ == b.components@[j]@,
        decreases n - i,
    {
        if !(a.components[i] == b.components[i]) {
            proof {
                assert(a@.components[i as int] != b@.components[i as int]);
            }
            return false;
        }
        i += 1;
    }
    proof {
        assert(a@.components =~= b@.components);
        assert(a@ =~= b@);
    }
    true
}

/// Wraps a bare user name as a principal of type NT-PRINCIPAL with the name
/// as its single component.
pub fn username_to_principal_name(username: String) -> (r: PrincipalName)
    ensures
        r@.name_type == NT_PRINCIPAL,
        r@.components =~= seq![username@],
{
    let components: Vec<String> = vec![username];
    PrincipalName { name_type: NT_PRINCIPAL, components }
}

/// Builds the `krbtgt/REALM` principal addressed by an AS exchange.
pub fn gen_krbtgt_principal_name(realm: String, name_type: i32) -> (r: PrincipalName)
    ensures
        r@.name_type == name_type,
        r@.components =~= seq!["krbtgt"@, realm@],
{
    let krbtgt: String = "krbtgt".to_owned();
    let components: Vec<String> = vec![krbtgt, realm];
    PrincipalName { name_type, components }
}


} // verus!
