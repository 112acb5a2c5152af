//! The vault: locate a usable credential for a principal pair, append newly
//! acquired credentials without disturbing existing entries, and translate
//! credential sets to and from the two persisted cache layouts.

use vstd::prelude::*;
use crate::model::{PrincipalName, PrincipalNameModel, Credential, CredentialModel, CredentialSet,
    clone_credential, principal_name_eq};
use crate::errors::KerberosError;
use crate::codec::{save_ticket_cache, load_ticket_cache, enc_set, set_wf, lemma_set_shape,
    CACHE_MAGIC_0};
use crate::model::CredentialSetModel;
use crate::asn1::{encode_krb_cred, parse_krb_cred, krb_cred_der_of, krb_cred_decodes_to,
    krb_cred_outer_parse_of, enc_krb_cred_part_parse_of, ticket_parse_of, cred_info_parse_of,
    set_times_wf};
use crate::dertime::der_times_ok;

verus! {

/// The two persisted credential-cache layouts.
pub enum CredFormat {
    /// The sequential binary ticket-cache layout.
    TicketCache,
    /// The protocol's native credential-list wire format with a plaintext
    /// envelope.
    KrbCred,
}

/// A credential usable for this principal pair: exact match on both the
/// client and the server principal name.
pub open spec fn cred_matches(c: CredentialModel, client: PrincipalNameModel,
    server: PrincipalNameModel) -> bool {
    c.info.client_name == client && c.info.server_name == server
}

/// Returns the most recently appended credential matching the principal
/// pair; fails with a missing-credential error exactly when none matches.
pub fn find_credential(cs: &CredentialSet, client: &PrincipalName, server: &PrincipalName)
    -> (r: Result<Credential, KerberosError>)
    ensures
        r matches Ok(c) ==> exists|i: int| {
            &&& 0 <= i < cs@.creds.len()
            &&& c@ == cs@.creds[i]
            &&& cred_matches(#[trigger] cs@.creds[i], client@, server@)
            &&& forall|j: int| i < j < cs@.creds.len()
                ==> !cred_matches(#[trigger] cs@.creds[j], client@, server@)
        },
        r is Err <==> (forall|i: int| 0 <= i < cs@.creds.len()
            ==> !cred_matches(#[trigger] cs@.creds[i], client@, server@)),
        r matches Err(e) ==> e is MissingCredential,
{
    let mut i = cs.creds.len();
    while i > 0
        invariant
            i <= cs.creds.len(),
            forall|j: int| i <= j < cs@.creds.len()
                ==> !cred_matches(#[trigger] cs@.creds[j], client@, server@),
        decreases i,
    {
        i -= 1;
        let cand = &cs.creds[i];
        if principal_name_eq(&cand.info.client_name, client)
            && principal_name_eq(&cand.info.server_name, server) {
            let c = clone_credential(cand);
            proof {
                assert(cred_matches(cs@.creds[i as int], client@, server@));
            }
            return Ok(c);
        }
    }
    Err(KerberosError::MissingCredential)
}

/// Appends a newly acquired credential: always a tail append; existing
/// entries are never removed or reordered.
pub fn append_credential(cs: &mut CredentialSet, c: Credential)
    ensures
        final(cs)@.creds =~= old(cs)@.creds.push(c@),
        final(cs)@.client_realm == old(cs)@.client_realm,
        final(cs)@.client_name == old(cs)@.client_name,
{
    let ghost oldc = cs.creds.deep_view();
    let ghost cm = c@;
    cs.creds.push(c);
    proof {
        assert(cs.creds.deep_view() =~= oldc.push(cm));
    }
}

/// Re-encodes the credential set in the requested layout. Only the
/// credential-list layout carries calendar-encoded times, so only it asks
/// for in-range timestamps; a set loaded from a ticket cache can be saved
/// back as a ticket cache with nothing more.
pub fn save_credentials(cs: &CredentialSet, format: &CredFormat) -> (r: Vec<u8>)
    requires
        set_wf(cs@),
        format is KrbCred ==> set_times_wf(cs@),
    ensures
        format is TicketCache ==> r@ == enc_set(cs@),
        format is KrbCred ==> r@ == krb_cred_der_of(cs@),
{
    match format {
        CredFormat::TicketCache => save_ticket_cache(cs),
        CredFormat::KrbCred => encode_krb_cred(cs),
    }
}

/// Decodes a credential-cache image, auto-detecting the layout by its
/// leading byte. A ticket-cache result re-encodes to exactly the input
/// bytes; a credential-list result is what the delegated codec decoded.
pub fn load_credentials(b: &Vec<u8>) -> (r: Result<(CredentialSet, CredFormat), KerberosError>)
    ensures
        r matches Ok(p) ==> (p.1 is TicketCache ==> b@ == enc_set(p.0@) && set_wf(p.0@)),
        r matches Ok(p) ==> (p.1 is KrbCred ==> krb_cred_decodes_to(b@, p.0@)),
        r matches Err(e) ==> e is MalformedCredentialFile,
        (exists|m: CredentialSetModel| set_wf(m) && b@ == enc_set(m)) ==> r is Ok,
        ({
            &&& b@.len() == 0 || b@[0] != CACHE_MAGIC_0
            &&& der_times_ok(b@)
            &&& krb_cred_outer_parse_of(b@) matches Some(o)
            &&& o.1 == 0i32
            &&& der_times_ok(o.2)
            &&& enc_krb_cred_part_parse_of(o.2) matches Some(ps)
            &&& o.0.len() > 0
            &&& o.0.len() == ps.len()
            &&& forall|i: int| 0 <= i < o.0.len()
                ==> der_times_ok(#[trigger] o.0[i]) && ticket_parse_of(o.0[i]) is Some
            &&& forall|i: int| 0 <= i < ps.len()
                ==> der_times_ok(#[trigger] ps[i]) && cred_info_parse_of(ps[i]) is Some
        }) ==> r is Ok,
{
    if b.len() >= 1 && b[0] == CACHE_MAGIC_0 {
        match load_ticket_cache(b) {
            Result::Ok(cs) => Ok((cs, CredFormat::TicketCache)),
            Result::Err(e) => Err(e),
        }
    } else {
        proof {
            assert forall|m: CredentialSetModel| set_wf(m) && b@ == enc_set(m)
                implies false by {
                lemma_set_shape(b@, m);
            };
        }
        match parse_krb_cred(b) {
            Option::Some(cs) => Ok((cs, CredFormat::KrbCred)),
            Option::None => Err(KerberosError::MalformedCredentialFile),
        }
    }
}

} // verus!
