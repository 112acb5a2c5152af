//! The sequential binary ticket-cache layout: a fixed header (format
//! version, default principal, record count) followed by the records, each
//! holding session-key metadata and the raw ticket bytes. The records run to
//! exactly the end of the file — the loader refuses trailing bytes — and the
//! count in the header is what tells a truncated file apart from a complete
//! shorter one. Encoding is specified byte-exactly by the `enc_*` functions;
//! the loader returns only credential sets that re-encode to exactly the
//! bytes it was given, so a load followed by a save reproduces the input
//! byte for byte, and it accepts every saved image.

use vstd::prelude::*;
use vstd::bytes::{spec_u32_to_le_bytes, spec_u32_from_le_bytes, spec_u64_to_le_bytes,
    spec_u64_from_le_bytes, lemma_auto_spec_u32_to_from_le_bytes,
    lemma_auto_spec_u64_to_from_le_bytes, u32_to_le_bytes, u64_to_le_bytes,
    u32_from_le_bytes, u64_from_le_bytes};
use vstd::utf8::encode_utf8;
use vstd::slice::{slice_subrange, slice_to_vec};
use crate::model::{PrincipalNameModel, EncryptedPayloadModel, TicketModel, SessionKeyInfoModel,
    CredentialModel, CredentialSetModel, PrincipalName, EncryptedPayload, Ticket, SessionKeyInfo,
    Credential, CredentialSet};
use crate::strutil::{string_of_bytes, string_to_bytes};
use crate::errors::KerberosError;

verus! {

/// The two leading magic bytes of the ticket-cache layout.
pub const CACHE_MAGIC_0: u8 = 0x05;
pub const CACHE_MAGIC_1: u8 = 0x04;

pub open spec fn len_fits(n: nat) -> bool {
    n < 0x1_0000_0000
}

pub open spec fn chars_wf(s: Seq<char>) -> bool {
    len_fits(encode_utf8(s).len())
}

pub open spec fn pn_wf(p: PrincipalNameModel) -> bool {
    &&& len_fits(p.components.len())
    &&& forall|i: int| 0 <= i < p.components.len() ==> chars_wf(#[trigger] p.components[i])
}

pub open spec fn payload_wf(e: EncryptedPayloadModel) -> bool {
    len_fits(e.cipher.len())
}

pub open spec fn ticket_wf(t: TicketModel) -> bool {
    chars_wf(t.realm) && pn_wf(t.sname) && payload_wf(t.enc_part)
}

pub open spec fn info_wf(i: SessionKeyInfoModel) -> bool {
    &&& len_fits(i.key_value.len())
    &&& chars_wf(i.client_realm)
    &&& pn_wf(i.client_name)
    &&& chars_wf(i.server_realm)
    &&& pn_wf(i.server_name)
}

pub open spec fn cred_wf(c: CredentialModel) -> bool {
    ticket_wf(c.ticket) && info_wf(c.info)
}

pub open spec fn set_wf(m: CredentialSetModel) -> bool {
    &&& chars_wf(m.client_realm)
    &&& pn_wf(m.client_name)
    &&& len_fits(m.creds.len())
    &&& forall|i: int| 0 <= i < m.creds.len() ==> cred_wf(#[trigger] m.creds[i])
}

// Byte-exact encodings. Multi-field encodings nest to the right so that a
// parser peels one field at a time off the front.

pub open spec fn enc_u32(x: u32) -> Seq<u8> {
    spec_u32_to_le_bytes(x)
}

pub open spec fn enc_u64(x: u64) -> Seq<u8> {
    spec_u64_to_le_bytes(x)
}

pub open spec fn enc_i32(x: i32) -> Seq<u8> {
    enc_u32(x as u32)
}

pub open spec fn enc_i64(x: i64) -> Seq<u8> {
    enc_u64(x as u64)
}

pub open spec fn enc_bytes(b: Seq<u8>) -> Seq<u8> {
    enc_u32(b.len() as u32) + b
}

pub open spec fn enc_chars(s: Seq<char>) -> Seq<u8> {
    enc_bytes(encode_utf8(s))
}

pub open spec fn enc_opt_u32(o: Option<u32>) -> Seq<u8> {
    match o {
        Option::None => seq![0u8] + enc_u32(0),
        Option::Some(v) => seq![1u8] + enc_u32(v),
    }
}

pub open spec fn enc_comps(cs: Seq<Seq<char>>) -> Seq<u8>
    decreases cs.len(),
{
    if cs.len() == 0 {
        Seq::<u8>::empty()
    } else {
        enc_chars(cs[0]) + enc_comps(cs.drop_first())
    }
}

pub open spec fn enc_pn(p: PrincipalNameModel) -> Seq<u8> {
    enc_i32(p.name_type) + (enc_u32(p.components.len() as u32) + enc_comps(p.components))
}

pub open spec fn enc_payload(e: EncryptedPayloadModel) -> Seq<u8> {
    enc_i32(e.etype) + (enc_opt_u32(e.kvno) + enc_bytes(e.cipher))
}

pub open spec fn enc_ticket(t: TicketModel) -> Seq<u8> {
    enc_chars(t.realm) + (enc_pn(t.sname) + enc_payload(t.enc_part))
}

pub open spec fn enc_info(i: SessionKeyInfoModel) -> Seq<u8> {
    enc_i32(i.key_type) + (enc_bytes(i.key_value) + (enc_u32(i.flags) + (enc_i64(i.auth_time)
        + (enc_i64(i.start_time) + (enc_i64(i.end_time) + (enc_i64(i.renew_till)
        + (enc_chars(i.client_realm) + (enc_pn(i.client_name)
        + (enc_chars(i.server_realm) + enc_pn(i.server_name))))))))))
}

pub open spec fn enc_cred(c: CredentialModel) -> Seq<u8> {
    enc_ticket(c.ticket) + enc_info(c.info)
}

pub open spec fn enc_creds(cs: Seq<CredentialModel>) -> Seq<u8>
    decreases cs.len(),
{
    if cs.len() == 0 {
        Seq::<u8>::empty()
    } else {
        enc_cred(cs[0]) + enc_creds(cs.drop_first())
    }
}

pub open spec fn enc_set(m: CredentialSetModel) -> Seq<u8> {
    seq![CACHE_MAGIC_0, CACHE_MAGIC_1] + (enc_chars(m.client_realm) + (enc_pn(m.client_name)
        + (enc_u32(m.creds.len() as u32) + enc_creds(m.creds))))
}

// Cast round trips, used to relate signed fields to their unsigned wire form.

pub proof fn lemma_u32_i32_cast(x: u32)
    ensures
        ((x as i32) as u32) == x,
{
    assert(((x as i32) as u32) == x) by (bit_vector);
}


pub proof fn lemma_u64_i64_cast(x: u64)
    ensures
        ((x as i64) as u64) == x,
{
    assert(((x as i64) as u64) == x) by (bit_vector);
}


// Concatenation plumbing: peeling a known prefix off a suffix of the buffer,
// and joining adjacent consumed ranges back together.

pub proof fn lemma_chain(b: Seq<u8>, pos: int, a: Seq<u8>, rest: Seq<u8>)
    requires
        0 <= pos <= b.len(),
        b.subrange(pos, b.len() as int) == a + rest,
    ensures
        pos + a.len() <= b.len(),
        b.subrange(pos, pos + a.len() as int) =~= a,
        b.subrange(pos + a.len() as int, b.len() as int) =~= rest,
{
    assert(b.subrange(pos, b.len() as int).len() == a.len() + rest.len());
    let s = b.subrange(pos, b.len() as int);
    assert(b.subrange(pos, pos + a.len() as int) =~= s.subrange(0, a.len() as int));
    assert(b.subrange(pos + a.len() as int, b.len() as int)
        =~= s.subrange(a.len() as int, s.len() as int));
    assert(s.subrange(0, a.len() as int) =~= a);
    assert(s.subrange(a.len() as int, s.len() as int) =~= rest);
}

pub proof fn lemma_join(b: Seq<u8>, p0: int, p1: int, p2: int)
    requires
        0 <= p0 <= p1 <= p2 <= b.len(),
    ensures
        b.subrange(p0, p2) =~= b.subrange(p0, p1) + b.subrange(p1, p2),
{
}

pub proof fn lemma_enc_comps_split(cs: Seq<Seq<char>>, k: int)
    requires
        0 <= k < cs.len(),
    ensures
        enc_comps(cs.skip(k)) =~= enc_chars(cs[k]) + enc_comps(cs.skip(k + 1)),
{
    assert(cs.skip(k)[0] == cs[k]);
    assert(cs.skip(k).drop_first() =~= cs.skip(k + 1));
    assert(cs.skip(k).len() > 0);
}

pub proof fn lemma_enc_creds_split(cs: Seq<CredentialModel>, k: int)
    requires
        0 <= k < cs.len(),
    ensures
        enc_creds(cs.skip(k)) =~= enc_cred(cs[k]) + enc_creds(cs.skip(k + 1)),
{
    assert(cs.skip(k)[0] == cs[k]);
    assert(cs.skip(k).drop_first() =~= cs.skip(k + 1));
    assert(cs.skip(k).len() > 0);
}

pub proof fn lemma_enc_comps_take_skip(cs: Seq<Seq<char>>, k: int)
    requires
        0 <= k <= cs.len(),
    ensures
        enc_comps(cs) =~= enc_comps(cs.take(k)) + enc_comps(cs.skip(k)),
    decreases k,
{
    if k == 0 {
        assert(cs.take(0) =~= Seq::<Seq<char>>::empty());
        assert(cs.skip(0) =~= cs);
    } else {
        lemma_enc_comps_take_skip(cs, k - 1);
        assert(cs.take(k) =~= cs.take(k - 1).push(cs[k - 1]));
        lemma_enc_comps_push(cs.take(k - 1), cs[k - 1]);
        lemma_enc_comps_split(cs, k - 1);
    }
}

pub proof fn lemma_enc_creds_take_skip(cs: Seq<CredentialModel>, k: int)
    requires
        0 <= k <= cs.len(),
    ensures
        enc_creds(cs) =~= enc_creds(cs.take(k)) + enc_creds(cs.skip(k)),
    decreases k,
{
    if k == 0 {
        assert(cs.take(0) =~= Seq::<CredentialModel>::empty());
        assert(cs.skip(0) =~= cs);
    } else {
        lemma_enc_creds_take_skip(cs, k - 1);
        assert(cs.take(k) =~= cs.take(k - 1).push(cs[k - 1]));
        lemma_enc_creds_push(cs.take(k - 1), cs[k - 1]);
        lemma_enc_creds_split(cs, k - 1);
    }
}

// Shape lemmas: where a suffix of the buffer is a known encoding followed by
// a remainder, they name the subrange each field occupies.

pub proof fn lemma_pn_shape(b: Seq<u8>, pos: int, m: PrincipalNameModel, rest: Seq<u8>)
    requires
        0 <= pos <= b.len(),
        b.subrange(pos, b.len() as int) == enc_pn(m) + rest,
    ensures
        pos + 8 <= b.len(),
        b.subrange(pos, pos + 4) == enc_i32(m.name_type),
        b.subrange(pos + 4, pos + 8) == enc_u32(m.components.len() as u32),
        b.subrange(pos + 8, b.len() as int) == enc_comps(m.components) + rest,
        enc_pn(m).len() == 8 + enc_comps(m.components).len(),
        pos + enc_pn(m).len() + rest.len() == b.len(),
{
    lemma_auto_spec_u32_to_from_le_bytes();
    let tail = enc_u32(m.components.len() as u32) + enc_comps(m.components);
    assert(enc_pn(m) + rest =~= enc_i32(m.name_type) + (tail + rest));
    lemma_chain(b, pos, enc_i32(m.name_type), tail + rest);
    assert(tail + rest =~= enc_u32(m.components.len() as u32) + (enc_comps(m.components) + rest));
    lemma_chain(b, pos + 4, enc_u32(m.components.len() as u32), enc_comps(m.components) + rest);
}

pub proof fn lemma_payload_shape(b: Seq<u8>, pos: int, m: EncryptedPayloadModel, rest: Seq<u8>)
    requires
        0 <= pos <= b.len(),
        b.subrange(pos, b.len() as int) == enc_payload(m) + rest,
    ensures
        pos + 9 <= b.len(),
        b.subrange(pos, pos + 4) == enc_i32(m.etype),
        b.subrange(pos + 4, b.len() as int) == enc_opt_u32(m.kvno) + (enc_bytes(m.cipher) + rest),
        b.subrange(pos + 9, b.len() as int) == enc_bytes(m.cipher) + rest,
        enc_payload(m).len() == 13 + m.cipher.len(),
        pos + enc_payload(m).len() + rest.len() == b.len(),
{
    lemma_auto_spec_u32_to_from_le_bytes();
    match m.kvno {
        Option::None => { assert(enc_opt_u32(m.kvno).len() == 5); },
        Option::Some(v) => { assert(enc_opt_u32(m.kvno).len() == 5); },
    }
    let tail = enc_opt_u32(m.kvno) + enc_bytes(m.cipher);
    assert(enc_payload(m) + rest =~= enc_i32(m.etype) + (tail + rest));
    lemma_chain(b, pos, enc_i32(m.etype), tail + rest);
    assert(tail + rest =~= enc_opt_u32(m.kvno) + (enc_bytes(m.cipher) + rest));
    lemma_chain(b, pos + 4, enc_opt_u32(m.kvno), enc_bytes(m.cipher) + rest);
}

pub proof fn lemma_ticket_shape(b: Seq<u8>, pos: int, m: TicketModel, rest: Seq<u8>)
    requires
        0 <= pos <= b.len(),
        b.subrange(pos, b.len() as int) == enc_ticket(m) + rest,
    ensures
        b.subrange(pos, b.len() as int) == enc_chars(m.realm)
            + ((enc_pn(m.sname) + enc_payload(m.enc_part)) + rest),
        pos + enc_chars(m.realm).len() <= b.len(),
        b.subrange(pos + enc_chars(m.realm).len(), b.len() as int)
            == enc_pn(m.sname) + (enc_payload(m.enc_part) + rest),
        b.subrange(pos + enc_chars(m.realm).len() + enc_pn(m.sname).len(), b.len() as int)
            == enc_payload(m.enc_part) + rest,
        enc_ticket(m).len() == enc_chars(m.realm).len() + enc_pn(m.sname).len()
            + enc_payload(m.enc_part).len(),
        pos + enc_ticket(m).len() + rest.len() == b.len(),
{
    let t2 = enc_pn(m.sname) + enc_payload(m.enc_part);
    assert(enc_ticket(m) + rest =~= enc_chars(m.realm) + (t2 + rest));
    lemma_chain(b, pos, enc_chars(m.realm), t2 + rest);
    assert(t2 + rest =~= enc_pn(m.sname) + (enc_payload(m.enc_part) + rest));
    lemma_chain(b, pos + enc_chars(m.realm).len(), enc_pn(m.sname),
        enc_payload(m.enc_part) + rest);
}

pub proof fn lemma_info_shape(b: Seq<u8>, pos: int, m: SessionKeyInfoModel, rest: Seq<u8>)
    requires
        0 <= pos <= b.len(),
        b.subrange(pos, b.len() as int) == enc_info(m) + rest,
    ensures
        ({
            let o2 = pos + 8 + m.key_value.len();
            let o8 = o2 + 36;
            let o9 = o8 + enc_chars(m.client_realm).len();
            let o10 = o9 + enc_pn(m.client_name).len();
            let o11 = o10 + enc_chars(m.server_realm).len();
            &&& pos + 8 <= b.len()
            &&& b.subrange(pos, pos + 4) == enc_i32(m.key_type)
            &&& b.subrange(pos + 4, b.len() as int) == enc_bytes(m.key_value)
                + ((enc_u32(m.flags) + (enc_i64(m.auth_time) + (enc_i64(m.start_time)
                    + (enc_i64(m.end_time) + (enc_i64(m.renew_till)
                    + (enc_chars(m.client_realm) + (enc_pn(m.client_name)
                    + (enc_chars(m.server_realm) + enc_pn(m.server_name))))))))) + rest)
            &&& b.subrange(o2, o2 + 4) == enc_u32(m.flags)
            &&& b.subrange(o2 + 4, o2 + 12) == enc_i64(m.auth_time)
            &&& b.subrange(o2 + 12, o2 + 20) == enc_i64(m.start_time)
            &&& b.subrange(o2 + 20, o2 + 28) == enc_i64(m.end_time)
            &&& b.subrange(o2 + 28, o2 + 36) == enc_i64(m.renew_till)
            &&& b.subrange(o8, b.len() as int) == enc_chars(m.client_realm)
                + (enc_pn(m.client_name) + (enc_chars(m.server_realm)
                + (enc_pn(m.server_name) + rest)))
            &&& b.subrange(o9, b.len() as int) == enc_pn(m.client_name)
                + (enc_chars(m.server_realm) + (enc_pn(m.server_name) + rest))
            &&& b.subrange(o10, b.len() as int) == enc_chars(m.server_realm)
                + (enc_pn(m.server_name) + rest)
            &&& b.subrange(o11, b.len() as int) == enc_pn(m.server_name) + rest
            &&& enc_info(m).len() == 44 + m.key_value.len() + enc_chars(m.client_realm).len()
                + enc_pn(m.client_name).len() + enc_chars(m.server_realm).len()
                + enc_pn(m.server_name).len()
            &&& pos + enc_info(m).len() + rest.len() == b.len()
        }),
{
    lemma_auto_spec_u32_to_from_le_bytes();
    lemma_auto_spec_u64_to_from_le_bytes();
    let f2 = enc_bytes(m.key_value);
    let f3 = enc_u32(m.flags);
    let f4 = enc_i64(m.auth_time);
    let f5 = enc_i64(m.start_time);
    let f6 = enc_i64(m.end_time);
    let f7 = enc_i64(m.renew_till);
    let f8 = enc_chars(m.client_realm);
    let f9 = enc_pn(m.client_name);
    let f10 = enc_chars(m.server_realm);
    let f11 = enc_pn(m.server_name);
    let t2 = f2 + (f3 + (f4 + (f5 + (f6 + (f7 + (f8 + (f9 + (f10 + f11))))))));
    assert(enc_info(m) + rest =~= enc_i32(m.key_type) + (t2 + rest));
    lemma_chain(b, pos, enc_i32(m.key_type), t2 + rest);
    let o1 = pos + 4;
    let t3 = f3 + (f4 + (f5 + (f6 + (f7 + (f8 + (f9 + (f10 + f11)))))));
    assert(t2 + rest =~= f2 + (t3 + rest));
    lemma_chain(b, o1, f2, t3 + rest);
    let o2 = o1 + 4 + m.key_value.len();
    let t4 = f4 + (f5 + (f6 + (f7 + (f8 + (f9 + (f10 + f11))))));
    assert(t3 + rest =~= f3 + (t4 + rest));
    lemma_chain(b, o2, f3, t4 + rest);
    let t5 = f5 + (f6 + (f7 + (f8 + (f9 + (f10 + f11)))));
    assert(t4 + rest =~= f4 + (t5 + rest));
    lemma_chain(b, o2 + 4, f4, t5 + rest);
    let t6 = f6 + (f7 + (f8 + (f9 + (f10 + f11))));
    assert(t5 + rest =~= f5 + (t6 + rest));
    lemma_chain(b, o2 + 12, f5, t6 + rest);
    let t7 = f7 + (f8 + (f9 + (f10 + f11)));
    assert(t6 + rest =~= f6 + (t7 + rest));
    lemma_chain(b, o2 + 20, f6, t7 + rest);
    let t8 = f8 + (f9 + (f10 + f11));
    assert(t7 + rest =~= f7 + (t8 + rest));
    lemma_chain(b, o2 + 28, f7, t8 + rest);
    let t9 = f9 + (f10 + f11);
    assert(t8 + rest =~= f8 + (t9 + rest));
    lemma_chain(b, o2 + 36, f8, t9 + rest);
    let o9 = o2 + 36 + f8.len();
    let t10 = f10 + f11;
    assert(t9 + rest =~= f9 + (t10 + rest));
    lemma_chain(b, o9, f9, t10 + rest);
    let o10 = o9 + f9.len();
    assert(t10 + rest =~= f10 + (f11 + rest));
    lemma_chain(b, o10, f10, f11 + rest);
    assert(b.subrange(o1, b.len() as int) =~= f2 + (t3 + rest));
    assert(b.subrange(o2 + 36, b.len() as int) =~= f8 + (f9 + (f10 + (f11 + rest))));
    assert(b.subrange(o9, b.len() as int) =~= f9 + (f10 + (f11 + rest)));
    assert(b.subrange(o10, b.len() as int) =~= f10 + (f11 + rest));
}

pub proof fn lemma_cred_shape(b: Seq<u8>, pos: int, m: CredentialModel, rest: Seq<u8>)
    requires
        0 <= pos <= b.len(),
        b.subrange(pos, b.len() as int) == enc_cred(m) + rest,
    ensures
        b.subrange(pos, b.len() as int) == enc_ticket(m.ticket) + (enc_info(m.info) + rest),
        pos + enc_ticket(m.ticket).len() <= b.len(),
        b.subrange(pos + enc_ticket(m.ticket).len(), b.len() as int)
            == enc_info(m.info) + rest,
        enc_cred(m).len() == enc_ticket(m.ticket).len() + enc_info(m.info).len(),
        pos + enc_cred(m).len() + rest.len() == b.len(),
{
    assert(enc_cred(m) + rest =~= enc_ticket(m.ticket) + (enc_info(m.info) + rest));
    lemma_chain(b, pos, enc_ticket(m.ticket), enc_info(m.info) + rest);
}

pub proof fn lemma_set_shape(b: Seq<u8>, m: CredentialSetModel)
    requires
        b == enc_set(m),
    ensures
        ({
            let o1 = 2 + enc_chars(m.client_realm).len();
            let o2 = o1 + enc_pn(m.client_name).len();
            &&& b.len() >= 2
            &&& b[0] == CACHE_MAGIC_0
            &&& b[1] == CACHE_MAGIC_1
            &&& b.subrange(2, b.len() as int) == enc_chars(m.client_realm)
                + (enc_pn(m.client_name) + (enc_u32(m.creds.len() as u32) + enc_creds(m.creds)))
            &&& b.subrange(o1 as int, b.len() as int) == enc_pn(m.client_name)
                + (enc_u32(m.creds.len() as u32) + enc_creds(m.creds))
            &&& b.subrange(o2 as int, o2 as int + 4) == enc_u32(m.creds.len() as u32)
            &&& b.subrange(o2 as int + 4, b.len() as int) == enc_creds(m.creds)
            &&& b.len() == o2 + 4 + enc_creds(m.creds).len()
        }),
{
    lemma_auto_spec_u32_to_from_le_bytes();
    let f1 = enc_chars(m.client_realm);
    let f2 = enc_pn(m.client_name);
    let f3 = enc_u32(m.creds.len() as u32);
    let f4 = enc_creds(m.creds);
    let tail = f1 + (f2 + (f3 + f4));
    assert(b.subrange(0, b.len() as int) =~= b);
    assert(b =~= seq![CACHE_MAGIC_0, CACHE_MAGIC_1] + (tail + Seq::<u8>::empty()));
    lemma_chain(b, 0, seq![CACHE_MAGIC_0, CACHE_MAGIC_1], tail + Seq::<u8>::empty());
    assert(tail + Seq::<u8>::empty() =~= f1 + ((f2 + (f3 + f4)) + Seq::<u8>::empty()));
    lemma_chain(b, 2, f1, (f2 + (f3 + f4)) + Seq::<u8>::empty());
    let o1 = 2 + f1.len();
    assert((f2 + (f3 + f4)) + Seq::<u8>::empty() =~= f2 + ((f3 + f4) + Seq::<u8>::empty()));
    lemma_chain(b, o1 as int, f2, (f3 + f4) + Seq::<u8>::empty());
    let o2 = o1 + f2.len();
    assert((f3 + f4) + Seq::<u8>::empty() =~= f3 + (f4 + Seq::<u8>::empty()));
    lemma_chain(b, o2 as int, f3, f4 + Seq::<u8>::empty());
    assert(b.subrange(2, b.len() as int) =~= f1 + (f2 + (f3 + f4)));
    assert(b.subrange(o1 as int, b.len() as int) =~= f2 + (f3 + f4));
    assert(b.subrange(o2 as int + 4, b.len() as int) =~= f4);
}

pub proof fn lemma_load_step(b: Seq<u8>, p3: int, cur: int, k: int, m: CredentialSetModel)
    requires
        set_wf(m),
        b == enc_set(m),
        0 <= k < m.creds.len(),
        p3 == 2 + enc_chars(m.client_realm).len() + enc_pn(m.client_name).len() + 4,
        cur == p3 + enc_creds(m.creds.take(k)).len(),
    ensures
        0 <= cur <= b.len(),
        b.subrange(cur, b.len() as int)
            == enc_cred(m.creds[k]) + enc_creds(m.creds.skip(k + 1)),
        cred_wf(m.creds[k]),
{
    lemma_set_shape(b, m);
    lemma_enc_creds_take_skip(m.creds, k);
    assert(enc_creds(m.creds)
        =~= enc_creds(m.creds.take(k)) + enc_creds(m.creds.skip(k)));
    lemma_chain(b, p3, enc_creds(m.creds.take(k)), enc_creds(m.creds.skip(k)));
    lemma_enc_creds_split(m.creds, k);
    assert(enc_creds(m.creds.skip(k))
        =~= enc_cred(m.creds[k]) + enc_creds(m.creds.skip(k + 1)));
}

pub proof fn lemma_enc_comps_push(cs: Seq<Seq<char>>, s: Seq<char>)
    ensures
        enc_comps(cs.push(s)) =~= enc_comps(cs) + enc_chars(s),
    decreases cs.len(),
{
    if cs.len() == 0 {
        assert(cs.push(s)[0] == s);
        assert(cs.push(s).drop_first() =~= Seq::<Seq<char>>::empty());
        assert(enc_comps(cs.push(s).drop_first()) == Seq::<u8>::empty());
        assert(enc_comps(cs.push(s)) == enc_chars(s) + enc_comps(cs.push(s).drop_first()));
    } else {
        assert(cs.push(s).drop_first() =~= cs.drop_first().push(s));
        lemma_enc_comps_push(cs.drop_first(), s);
        assert(cs.push(s)[0] == cs[0]);
        assert(enc_comps(cs.push(s)) == enc_chars(cs[0]) + enc_comps(cs.drop_first().push(s)));
        assert(enc_comps(cs) == enc_chars(cs[0]) + enc_comps(cs.drop_first()));
    }
}


pub proof fn lemma_enc_creds_push(cs: Seq<CredentialModel>, c: CredentialModel)
    ensures
        enc_creds(cs.push(c)) =~= enc_creds(cs) + enc_cred(c),
    decreases cs.len(),
{
    if cs.len() == 0 {
        assert(cs.push(c)[0] == c);
        assert(cs.push(c).drop_first() =~= Seq::<CredentialModel>::empty());
        assert(enc_creds(cs.push(c).drop_first()) == Seq::<u8>::empty());
        assert(enc_creds(cs.push(c)) == enc_cred(c) + enc_creds(cs.push(c).drop_first()));
    } else {
        assert(cs.push(c).drop_first() =~= cs.drop_first().push(c));
        lemma_enc_creds_push(cs.drop_first(), c);
        assert(cs.push(c)[0] == cs[0]);
        assert(enc_creds(cs.push(c)) == enc_cred(cs[0]) + enc_creds(cs.drop_first().push(c)));
        assert(enc_creds(cs) == enc_cred(cs[0]) + enc_creds(cs.drop_first()));
    }
}


// Emitters: each appends exactly the specified encoding.

fn emit_u32(out: &mut Vec<u8>, x: u32)
    ensures
        final(out)@ == old(out)@ + enc_u32(x),
{
    let mut b = u32_to_le_bytes(x);
    out.append(&mut b);
}

fn emit_u64(out: &mut Vec<u8>, x: u64)
    ensures
        final(out)@ == old(out)@ + enc_u64(x),
{
    let mut b = u64_to_le_bytes(x);
    out.append(&mut b);
}

fn emit_i32(out: &mut Vec<u8>, x: i32)
    ensures
        final(out)@ == old(out)@ + enc_i32(x),
{
    emit_u32(out, #[verifier::truncate] (x as u32));
}

fn emit_i64(out: &mut Vec<u8>, x: i64)
    ensures
        final(out)@ == old(out)@ + enc_i64(x),
{
    emit_u64(out, #[verifier::truncate] (x as u64));
}

fn emit_bytes(out: &mut Vec<u8>, b: &Vec<u8>)
    requires
        len_fits(b@.len()),
    ensures
        final(out)@ == old(out)@ + enc_bytes(b@),
{
    emit_u32(out, #[verifier::truncate] (b.len() as u32));
    let mut c = slice_to_vec(b.as_slice());
    out.append(&mut c);
    proof {
        assert(final(out)@ =~= old(out)@ + enc_bytes(b@));
    }
}

fn emit_string(out: &mut Vec<u8>, s: &String)
    requires
        chars_wf(s@),
    ensures
        final(out)@ == old(out)@ + enc_chars(s@),
{
    let b = string_to_bytes(s);
    emit_bytes(out, &b);
}

fn emit_opt_u32(out: &mut Vec<u8>, o: &Option<u32>)
    ensures
        final(out)@ == old(out)@ + enc_opt_u32(*o),
{
    match o {
        Option::None => {
            out.push(0u8);
            emit_u32(out, 0);
            proof {
                assert(final(out)@ =~= old(out)@ + enc_opt_u32(Option::<u32>::None));
            }
        },
        Option::Some(v) => {
            out.push(1u8);
            emit_u32(out, *v);
            proof {
                assert(final(out)@ =~= old(out)@ + enc_opt_u32(Option::Some(*v)));
            }
        },
    }
}

fn emit_pn(out: &mut Vec<u8>, p: &PrincipalName)
    requires
        pn_wf(p@),
    ensures
        final(out)@ == old(out)@ + enc_pn(p@),
{
    emit_i32(out, p.name_type);
    emit_u32(out, #[verifier::truncate] (p.components.len() as u32));
    let ghost base = out@;
    let n = p.components.len();
    let mut k: usize = 0;
    while k < n
        invariant
            n == p.components.len(),
            k <= n,
            pn_wf(p@),
            out@ == base + enc_comps(p@.components.take(k as int)),
        decreases n - k,
    {
        proof {
            assert(p@.components.take(k as int).push(p@.components[k as int])
                =~= p@.components.take(k as int + 1));
            lemma_enc_comps_push(p@.components.take(k as int), p@.components[k as int]);
        }
        emit_string(out, &p.components[k]);
        k += 1;
    }
    proof {
        assert(p@.components.take(n as int) =~= p@.components);
        assert(final(out)@ =~= old(out)@ + enc_pn(p@));
    }
}

fn emit_payload(out: &mut Vec<u8>, e: &EncryptedPayload)
    requires
        payload_wf(e@),
    ensures
        final(out)@ == old(out)@ + enc_payload(e@),
{
    emit_i32(out, e.etype);
    emit_opt_u32(out, &e.kvno);
    emit_bytes(out, &e.cipher);
    proof {
        assert(final(out)@ =~= old(out)@ + enc_payload(e@));
    }
}

fn emit_ticket(out: &mut Vec<u8>, t: &Ticket)
    requires
        ticket_wf(t@),
    ensures
        final(out)@ == old(out)@ + enc_ticket(t@),
{
    emit_string(out, &t.realm);
    emit_pn(out, &t.sname);
    emit_payload(out, &t.enc_part);
    proof {
        assert(final(out)@ =~= old(out)@ + enc_ticket(t@));
    }
}

#[verifier::rlimit(100)]
fn emit_info(out: &mut Vec<u8>, i: &SessionKeyInfo)
    requires
        info_wf(i@),
    ensures
        final(out)@ == old(out)@ + enc_info(i@),
{
    emit_i32(out, i.key_type);
    emit_bytes(out, &i.key_value);
    emit_u32(out, i.flags);
    emit_i64(out, i.auth_time);
    emit_i64(out, i.start_time);
    emit_i64(out, i.end_time);
    emit_i64(out, i.renew_till);
    emit_string(out, &i.client_realm);
    emit_pn(out, &i.client_name);
    emit_string(out, &i.server_realm);
    emit_pn(out, &i.server_name);
    proof {
        let f1 = enc_i32(i@.key_type);
        let f2 = enc_bytes(i@.key_value);
        let f3 = enc_u32(i@.flags);
        let f4 = enc_i64(i@.auth_time);
        let f5 = enc_i64(i@.start_time);
        let f6 = enc_i64(i@.end_time);
        let f7 = enc_i64(i@.renew_till);
        let f8 = enc_chars(i@.client_realm);
        let f9 = enc_pn(i@.client_name);
        let f10 = enc_chars(i@.server_realm);
        let f11 = enc_pn(i@.server_name);
        let b = old(out)@;
        assert(final(out)@
            =~= b + f1 + f2 + f3 + f4 + f5 + f6 + f7 + f8 + f9 + f10 + f11);
        let t10 = f10 + f11;
        let t9 = f9 + t10;
        let t8 = f8 + t9;
        let t7 = f7 + t8;
        let t6 = f6 + t7;
        let t5 = f5 + t6;
        let t4 = f4 + t5;
        let t3 = f3 + t4;
        let t2 = f2 + t3;
        assert(b + f1 + f2 + f3 + f4 + f5 + f6 + f7 + f8 + f9 + f10 + f11
            =~= b + f1 + f2 + f3 + f4 + f5 + f6 + f7 + f8 + f9 + t10);
        assert(b + f1 + f2 + f3 + f4 + f5 + f6 + f7 + f8 + f9 + t10
            =~= b + f1 + f2 + f3 + f4 + f5 + f6 + f7 + f8 + t9);
        assert(b + f1 + f2 + f3 + f4 + f5 + f6 + f7 + f8 + t9
            =~= b + f1 + f2 + f3 + f4 + f5 + f6 + f7 + t8);
        assert(b + f1 + f2 + f3 + f4 + f5 + f6 + f7 + t8
            =~= b + f1 + f2 + f3 + f4 + f5 + f6 + t7);
        assert(b + f1 + f2 + f3 + f4 + f5 + f6 + t7
            =~= b + f1 + f2 + f3 + f4 + f5 + t6);
        assert(b + f1 + f2 + f3 + f4 + f5 + t6 =~= b + f1 + f2 + f3 + f4 + t5);
        assert(b + f1 + f2 + f3 + f4 + t5 =~= b + f1 + f2 + f3 + t4);
        assert(b + f1 + f2 + f3 + t4 =~= b + f1 + f2 + t3);
        assert(b + f1 + f2 + t3 =~= b + f1 + t2);
        assert(b + f1 + t2 =~= b + (f1 + t2));
        assert(enc_info(i@) == f1 + t2);
    }
}

fn emit_cred(out: &mut Vec<u8>, c: &Credential)
    requires
        cred_wf(c@),
    ensures
        final(out)@ == old(out)@ + enc_cred(c@),
{
    emit_ticket(out, &c.ticket);
    emit_info(out, &c.info);
    proof {
        assert(final(out)@ =~= old(out)@ + enc_cred(c@));
    }
}

/// Encodes a credential set in the sequential ticket-cache layout. The
/// result is exactly `enc_set` of the set's model, so two sets with equal
/// models persist to identical bytes.
pub fn save_ticket_cache(cs: &CredentialSet) -> (r: Vec<u8>)
    requires
        set_wf(cs@),
    ensures
        r@ == enc_set(cs@),
{
    let mut out: Vec<u8> = Vec::new();
    out.push(CACHE_MAGIC_0);
    out.push(CACHE_MAGIC_1);
    emit_string(&mut out, &cs.client_realm);
    emit_pn(&mut out, &cs.client_name);
    emit_u32(&mut out, #[verifier::truncate] (cs.creds.len() as u32));
    let ghost base = out@;
    let n = cs.creds.len();
    let mut k: usize = 0;
    while k < n
        invariant
            n == cs.creds.len(),
            k <= n,
            set_wf(cs@),
            out@ == base + enc_creds(cs@.creds.take(k as int)),
        decreases n - k,
    {
        proof {
            assert(cs@.creds.take(k as int).push(cs@.creds[k as int])
                =~= cs@.creds.take(k as int + 1));
            lemma_enc_creds_push(cs@.creds.take(k as int), cs@.creds[k as int]);
            assert(cred_wf(cs@.creds[k as int]));
        }
        emit_cred(&mut out, &cs.creds[k]);
        k += 1;
    }
    proof {
        assert(cs@.creds.take(n as int) =~= cs@.creds);
        assert(out@ =~= enc_set(cs@));
    }
    out
}

// Readers: each reports exactly the bytes it consumed (they re-encode to the
// returned value), and is guaranteed to succeed when the suffix at `pos`
// starts with a well-formed encoding.

fn read_u32(b: &Vec<u8>, pos: usize) -> (r: Option<(u32, usize)>)
    requires
        pos <= b@.len(),
    ensures
        r matches Some((v, p)) ==> p == pos + 4 && p <= b@.len()
            && b@.subrange(pos as int, p as int) == enc_u32(v),
        b@.len() - pos >= 4 ==> r is Some,
{
    proof {
        lemma_auto_spec_u32_to_from_le_bytes();
    }
    if b.len() - pos >= 4 {
        let s = slice_subrange(b.as_slice(), pos, pos + 4);
        let v = u32_from_le_bytes(s);
        Some((v, pos + 4))
    } else {
        None
    }
}

fn read_u64(b: &Vec<u8>, pos: usize) -> (r: Option<(u64, usize)>)
    requires
        pos <= b@.len(),
    ensures
        r matches Some((v, p)) ==> p == pos + 8 && p <= b@.len()
            && b@.subrange(pos as int, p as int) == enc_u64(v),
        b@.len() - pos >= 8 ==> r is Some,
{
    proof {
        lemma_auto_spec_u64_to_from_le_bytes();
    }
    if b.len() - pos >= 8 {
        let s = slice_subrange(b.as_slice(), pos, pos + 8);
        let v = u64_from_le_bytes(s);
        Some((v, pos + 8))
    } else {
        None
    }
}

fn read_i32(b: &Vec<u8>, pos: usize) -> (r: Option<(i32, usize)>)
    requires
        pos <= b@.len(),
    ensures
        r matches Some((v, p)) ==> p == pos + 4 && p <= b@.len()
            && b@.subrange(pos as int, p as int) == enc_i32(v),
        b@.len() - pos >= 4 ==> r is Some,
{
    match read_u32(b, pos) {
        Option::Some((u, p)) => {
            proof {
                lemma_u32_i32_cast(u);
            }
            Some((#[verifier::truncate] (u as i32), p))
        },
        Option::None => None,
    }
}

fn read_i64(b: &Vec<u8>, pos: usize) -> (r: Option<(i64, usize)>)
    requires
        pos <= b@.len(),
    ensures
        r matches Some((v, p)) ==> p == pos + 8 && p <= b@.len()
            && b@.subrange(pos as int, p as int) == enc_i64(v),
        b@.len() - pos >= 8 ==> r is Some,
{
    match read_u64(b, pos) {
        Option::Some((u, p)) => {
            proof {
                lemma_u64_i64_cast(u);
            }
            Some((#[verifier::truncate] (u as i64), p))
        },
        Option::None => None,
    }
}

fn read_bytes(b: &Vec<u8>, pos: usize) -> (r: Option<(Vec<u8>, usize)>)
    requires
        pos <= b@.len(),
    ensures
        r matches Some((v, p)) ==> pos <= p <= b@.len()
            && b@.subrange(pos as int, p as int) == enc_bytes(v@) && len_fits(v@.len()),
        forall|d: Seq<u8>, rest: Seq<u8>|
            len_fits(d.len()) && b@.subrange(pos as int, b@.len() as int) == enc_bytes(d) + rest
                ==> (r matches Some((v, p)) && v@ == d && p == pos + 4 + d.len()),
{
    proof {
        lemma_auto_spec_u32_to_from_le_bytes();
    }
    match read_u32(b, pos) {
        Option::None => {
            proof {
                assert forall|d: Seq<u8>, rest: Seq<u8>|
                    len_fits(d.len()) && b@.subrange(pos as int, b@.len() as int) == enc_bytes(d) + rest
                    implies false by {
                    assert(b@.subrange(pos as int, b@.len() as int).len() == 4 + d.len() + rest.len());
                };
            }
            None
        },
        Option::Some((n, p1)) => {
            let nn = n as usize;
            if b.len() - p1 >= nn {
                let v = slice_to_vec(slice_subrange(b.as_slice(), p1, p1 + nn));
                proof {
                    lemma_join(b@, pos as int, p1 as int, p1 as int + nn);
                    assert(b@.subrange(pos as int, p1 as int + nn)
                        =~= enc_bytes(v@));
                    assert forall|d: Seq<u8>, rest: Seq<u8>|
                        len_fits(d.len())
                            && b@.subrange(pos as int, b@.len() as int) == enc_bytes(d) + rest
                        implies v@ == d && p1 + nn == pos + 4 + d.len() by {
                        assert(enc_bytes(d) + rest =~= enc_u32(d.len() as u32) + (d + rest));
                        lemma_chain(b@, pos as int, enc_u32(d.len() as u32), d + rest);
                        assert(b@.subrange(pos as int, pos + 4) == enc_u32(d.len() as u32));
                        assert(enc_u32(n) == enc_u32(d.len() as u32));
                        assert(n == d.len() as u32);
                        assert(nn == d.len());
                        lemma_chain(b@, p1 as int, d, rest);
                        assert(v@ =~= d);
                    };
                }
                Some((v, p1 + nn))
            } else {
                proof {
                    assert forall|d: Seq<u8>, rest: Seq<u8>|
                        len_fits(d.len())
                            && b@.subrange(pos as int, b@.len() as int) == enc_bytes(d) + rest
                        implies false by {
                        assert(enc_bytes(d) + rest =~= enc_u32(d.len() as u32) + (d + rest));
                        lemma_chain(b@, pos as int, enc_u32(d.len() as u32), d + rest);
                        assert(b@.subrange(pos as int, pos + 4) == enc_u32(d.len() as u32));
                        assert(n == d.len() as u32);
                        assert(nn == d.len());
                        lemma_chain(b@, p1 as int, d, rest);
                    };
                }
                None
            }
        },
    }
}

fn read_string(b: &Vec<u8>, pos: usize) -> (r: Option<(String, usize)>)
    requires
        pos <= b@.len(),
    ensures
        r matches Some((s, p)) ==> pos <= p <= b@.len()
            && b@.subrange(pos as int, p as int) == enc_chars(s@) && chars_wf(s@),
        forall|c: Seq<char>, rest: Seq<u8>|
            chars_wf(c) && b@.subrange(pos as int, b@.len() as int) == enc_chars(c) + rest
                ==> (r matches Some((s, p)) && s@ == c && p == pos + enc_chars(c).len()),
{
    match read_bytes(b, pos) {
        Option::None => {
            proof {
                assert forall|c: Seq<char>, rest: Seq<u8>|
                    chars_wf(c) && b@.subrange(pos as int, b@.len() as int) == enc_chars(c) + rest
                    implies false by {};
            }
            None
        },
        Option::Some((v, p)) => {
            match string_of_bytes(v) {
                Option::None => {
                    proof {
                        assert forall|c: Seq<char>, rest: Seq<u8>|
                            chars_wf(c)
                                && b@.subrange(pos as int, b@.len() as int) == enc_chars(c) + rest
                            implies false by {
                            vstd::utf8::encode_utf8_valid_utf8(c);
                        };
                    }
                    None
                },
                Option::Some(s) => {
                    proof {
                        vstd::utf8::decode_utf8_encode_utf8(v@);
                        assert(enc_chars(s@) == enc_bytes(v@));
                        assert forall|c: Seq<char>, rest: Seq<u8>|
                            chars_wf(c)
                                && b@.subrange(pos as int, b@.len() as int) == enc_chars(c) + rest
                            implies s@ == c && p == pos + enc_chars(c).len() by {
                            vstd::utf8::encode_utf8_decode_utf8(c);
                        };
                    }
                    Some((s, p))
                },
            }
        },
    }
}

fn read_opt_u32(b: &Vec<u8>, pos: usize) -> (r: Option<(Option<u32>, usize)>)
    requires
        pos <= b@.len(),
    ensures
        r matches Some((o, p)) ==> p == pos + 5 && p <= b@.len()
            && b@.subrange(pos as int, p as int) == enc_opt_u32(o),
        forall|o2: Option<u32>, rest: Seq<u8>|
            b@.subrange(pos as int, b@.len() as int) == enc_opt_u32(o2) + rest
                ==> (r matches Some((o, p)) && p == pos + 5),
{
    proof {
        lemma_auto_spec_u32_to_from_le_bytes();
        assert forall|o2: Option<u32>, rest: Seq<u8>|
            b@.subrange(pos as int, b@.len() as int) == enc_opt_u32(o2) + rest
            implies b@.len() - pos >= 5 && (b@[pos as int] == 0 || b@[pos as int] == 1)
                && (b@[pos as int] == 0 ==> o2 is None)
                && (b@[pos as int] == 1 ==> o2 is Some) by {
            match o2 {
                Option::None => {
                    assert(enc_opt_u32(o2) =~= seq![0u8] + enc_u32(0));
                    assert(enc_opt_u32(o2)[0] == 0);
                },
                Option::Some(u2) => {
                    assert(enc_opt_u32(o2) =~= seq![1u8] + enc_u32(u2));
                    assert(enc_opt_u32(o2)[0] == 1);
                },
            }
            assert(enc_opt_u32(o2).len() == 5);
            assert(b@.subrange(pos as int, b@.len() as int).len() == b@.len() - pos);
            assert(b@.len() - pos >= 5);
            assert(b@.subrange(pos as int, b@.len() as int)[0] == b@[pos as int]);
            assert(b@[pos as int] == enc_opt_u32(o2)[0]);
        };
    }
    if b.len() - pos < 5 {
        return None;
    }
    let tag = b[pos];
    match read_u32(b, pos + 1) {
        Option::None => {
            // Unreachable: five bytes remain, so four remain past the tag.
            None
        },
        Option::Some((u, p)) => {
            if tag == 0 && u == 0 {
                proof {
                    lemma_join(b@, pos as int, pos as int + 1, p as int);
                    assert(b@.subrange(pos as int, pos as int + 1) =~= seq![b@[pos as int]]);
                    assert(b@.subrange(pos as int, p as int)
                        =~= enc_opt_u32(Option::<u32>::None));
                    assert forall|o2: Option<u32>, rest: Seq<u8>|
                        b@.subrange(pos as int, b@.len() as int) == enc_opt_u32(o2) + rest
                        implies p == pos + 5 by {};
                }
                Some((None, p))
            } else if tag == 1 {
                proof {
                    lemma_join(b@, pos as int, pos as int + 1, p as int);
                    assert(b@.subrange(pos as int, pos as int + 1) =~= seq![b@[pos as int]]);
                    assert(b@.subrange(pos as int, p as int) =~= enc_opt_u32(Option::Some(u)));
                }
                Some((Some(u), p))
            } else {
                proof {
                    assert forall|o2: Option<u32>, rest: Seq<u8>|
                        b@.subrange(pos as int, b@.len() as int) == enc_opt_u32(o2) + rest
                        implies false by {
                        if o2 is None {
                            assert(enc_opt_u32(o2) + rest =~= seq![0u8] + (enc_u32(0) + rest));
                            lemma_chain(b@, pos as int, seq![0u8], enc_u32(0) + rest);
                            lemma_chain(b@, pos as int + 1, enc_u32(0), rest);
                            assert(b@.subrange(pos as int + 1, pos as int + 5) == enc_u32(u));
                            assert(u == 0);
                        }
                    };
                }
                None
            }
        },
    }
}

fn read_pn(b: &Vec<u8>, pos: usize) -> (r: Option<(PrincipalName, usize)>)
    requires
        pos <= b@.len(),
    ensures
        r matches Some((v, p)) ==> pos <= p <= b@.len()
            && b@.subrange(pos as int, p as int) == enc_pn(v@) && pn_wf(v@),
        forall|m: PrincipalNameModel, rest: Seq<u8>|
            pn_wf(m) && b@.subrange(pos as int, b@.len() as int) == enc_pn(m) + rest
                ==> (r matches Some((v, p)) && p == pos + enc_pn(m).len()),
{
    proof {
        lemma_auto_spec_u32_to_from_le_bytes();
    }
    let (t, p1) = match read_i32(b, pos) {
        Option::Some(x) => x,
        Option::None => {
            proof {
                assert forall|m: PrincipalNameModel, rest: Seq<u8>|
                    pn_wf(m) && b@.subrange(pos as int, b@.len() as int) == enc_pn(m) + rest
                    implies false by {
                    lemma_pn_shape(b@, pos as int, m, rest);
                };
            }
            return None;
        },
    };
    let (n, p2) = match read_u32(b, p1) {
        Option::Some(x) => x,
        Option::None => {
            proof {
                assert forall|m: PrincipalNameModel, rest: Seq<u8>|
                    pn_wf(m) && b@.subrange(pos as int, b@.len() as int) == enc_pn(m) + rest
                    implies false by {
                    lemma_pn_shape(b@, pos as int, m, rest);
                };
            }
            return None;
        },
    };
    proof {
        assert forall|m: PrincipalNameModel, rest: Seq<u8>|
            pn_wf(m) && b@.subrange(pos as int, b@.len() as int) == enc_pn(m) + rest
            implies ((m.components.len() as u32) == n
                && p2 == pos + 8 + enc_comps(m.components.take(0)).len()) by {
            lemma_pn_shape(b@, pos as int, m, rest);
            assert(b@.subrange(p1 as int, p2 as int) == enc_u32(n));
            assert(enc_u32(n) == enc_u32((m.components.len() as u32)));
            assert(n == (m.components.len() as u32));
            assert(m.components.take(0) =~= Seq::<Seq<char>>::empty());
            assert(enc_comps(m.components.take(0)) == Seq::<u8>::empty());
        };
    }
    let nn = n as usize;
    let mut comps: Vec<String> = Vec::new();
    let mut cur: usize = p2;
    let mut k: usize = 0;
    while k < nn
        invariant
            k <= nn,
            nn == n,
            p2 <= cur <= b@.len(),
            pos + 8 == p2 <= b@.len(),
            comps.len() == k,
            b@.subrange(p2 as int, cur as int) == enc_comps(comps.deep_view()),
            forall|i: int| 0 <= i < comps.len() ==> chars_wf(#[trigger] comps.deep_view()[i]),
            forall|m: PrincipalNameModel, rest: Seq<u8>|
                pn_wf(m) && b@.subrange(pos as int, b@.len() as int) == enc_pn(m) + rest
                    ==> ((m.components.len() as u32) == n && k <= m.components.len()
                        && cur == pos + 8 + enc_comps(m.components.take(k as int)).len()),
        decreases nn - k,
    {
        proof {
            assert forall|m: PrincipalNameModel, rest: Seq<u8>|
                pn_wf(m) && b@.subrange(pos as int, b@.len() as int) == enc_pn(m) + rest
                implies b@.subrange(cur as int, b@.len() as int)
                    == enc_chars(m.components[k as int])
                        + (enc_comps(m.components.skip(k as int + 1)) + rest)
                    && chars_wf(m.components[k as int]) by {
                lemma_pn_shape(b@, pos as int, m, rest);
                assert((m.components.len() as u32) == n);
                assert(m.components.len() == n);
                lemma_enc_comps_take_skip(m.components, k as int);
                assert(enc_comps(m.components) + rest
                    =~= enc_comps(m.components.take(k as int))
                        + (enc_comps(m.components.skip(k as int)) + rest));
                lemma_chain(b@, pos as int + 8, enc_comps(m.components.take(k as int)),
                    enc_comps(m.components.skip(k as int)) + rest);
                lemma_enc_comps_split(m.components, k as int);
                assert(enc_comps(m.components.skip(k as int)) + rest
                    =~= enc_chars(m.components[k as int])
                        + (enc_comps(m.components.skip(k as int + 1)) + rest));
            };
        }
        let (s, p3) = match read_string(b, cur) {
            Option::Some(x) => x,
            Option::None => { return None; },
        };
        proof {
            lemma_enc_comps_push(comps.deep_view(), s@);
            lemma_join(b@, p2 as int, cur as int, p3 as int);
            assert(b@.subrange(p2 as int, p3 as int)
                =~= enc_comps(comps.deep_view().push(s@)));
            assert forall|m: PrincipalNameModel, rest: Seq<u8>|
                pn_wf(m) && b@.subrange(pos as int, b@.len() as int) == enc_pn(m) + rest
                implies p3 == pos + 8 + enc_comps(m.components.take(k as int + 1)).len() by {
                assert(m.components.take(k as int).push(m.components[k as int])
                    =~= m.components.take(k as int + 1));
                lemma_enc_comps_push(m.components.take(k as int), m.components[k as int]);
            };
        }
        let ghost oldcomps = comps.deep_view();
        comps.push(s);
        proof {
            assert(comps.deep_view() =~= oldcomps.push(s@));
        }
        cur = p3;
        k += 1;
    }
    let v = PrincipalName { name_type: t, components: comps };
    proof {
        lemma_join(b@, pos as int, p1 as int, p2 as int);
        lemma_join(b@, pos as int, p2 as int, cur as int);
        assert((v@.components.len() as u32) == n);
        assert(b@.subrange(pos as int, cur as int) =~= enc_pn(v@));
        assert forall|m: PrincipalNameModel, rest: Seq<u8>|
            pn_wf(m) && b@.subrange(pos as int, b@.len() as int) == enc_pn(m) + rest
            implies cur == pos + enc_pn(m).len() by {
            lemma_pn_shape(b@, pos as int, m, rest);
            assert(m.components.take(nn as int) =~= m.components);
        };
    }
    Some((v, cur))
}

fn read_payload(b: &Vec<u8>, pos: usize) -> (r: Option<(EncryptedPayload, usize)>)
    requires
        pos <= b@.len(),
    ensures
        r matches Some((v, p)) ==> pos <= p <= b@.len()
            && b@.subrange(pos as int, p as int) == enc_payload(v@) && payload_wf(v@),
        forall|m: EncryptedPayloadModel, rest: Seq<u8>|
            payload_wf(m) && b@.subrange(pos as int, b@.len() as int) == enc_payload(m) + rest
                ==> (r matches Some((v, p)) && p == pos + enc_payload(m).len()),
{
    let (etype, p1) = match read_i32(b, pos) {
        Option::Some(x) => x,
        Option::None => {
            proof {
                assert forall|m: EncryptedPayloadModel, rest: Seq<u8>|
                    payload_wf(m)
                        && b@.subrange(pos as int, b@.len() as int) == enc_payload(m) + rest
                    implies false by {
                    lemma_payload_shape(b@, pos as int, m, rest);
                };
            }
            return None;
        },
    };
    let (kvno, p2) = match read_opt_u32(b, p1) {
        Option::Some(x) => x,
        Option::None => {
            proof {
                assert forall|m: EncryptedPayloadModel, rest: Seq<u8>|
                    payload_wf(m)
                        && b@.subrange(pos as int, b@.len() as int) == enc_payload(m) + rest
                    implies false by {
                    lemma_payload_shape(b@, pos as int, m, rest);
                };
            }
            return None;
        },
    };
    let (cipher, p3) = match read_bytes(b, p2) {
        Option::Some(x) => x,
        Option::None => {
            proof {
                assert forall|m: EncryptedPayloadModel, rest: Seq<u8>|
                    payload_wf(m)
                        && b@.subrange(pos as int, b@.len() as int) == enc_payload(m) + rest
                    implies false by {
                    lemma_payload_shape(b@, pos as int, m, rest);
                };
            }
            return None;
        },
    };
    let v = EncryptedPayload { etype, kvno, cipher };
    proof {
        lemma_join(b@, pos as int, p1 as int, p2 as int);
        lemma_join(b@, pos as int, p2 as int, p3 as int);
        assert(b@.subrange(pos as int, p3 as int) =~= enc_payload(v@));
        assert forall|m: EncryptedPayloadModel, rest: Seq<u8>|
            payload_wf(m) && b@.subrange(pos as int, b@.len() as int) == enc_payload(m) + rest
            implies p3 == pos + enc_payload(m).len() by {
            lemma_payload_shape(b@, pos as int, m, rest);
        };
    }
    Some((v, p3))
}

fn read_ticket(b: &Vec<u8>, pos: usize) -> (r: Option<(Ticket, usize)>)
    requires
        pos <= b@.len(),
    ensures
        r matches Some((v, p)) ==> pos <= p <= b@.len()
            && b@.subrange(pos as int, p as int) == enc_ticket(v@) && ticket_wf(v@),
        forall|m: TicketModel, rest: Seq<u8>|
            ticket_wf(m) && b@.subrange(pos as int, b@.len() as int) == enc_ticket(m) + rest
                ==> (r matches Some((v, p)) && p == pos + enc_ticket(m).len()),
{
    let (realm, p1) = match read_string(b, pos) {
        Option::Some(x) => x,
        Option::None => {
            proof {
                assert forall|m: TicketModel, rest: Seq<u8>|
                    ticket_wf(m)
                        && b@.subrange(pos as int, b@.len() as int) == enc_ticket(m) + rest
                    implies false by {
                    lemma_ticket_shape(b@, pos as int, m, rest);
                };
            }
            return None;
        },
    };
    let (sname, p2) = match read_pn(b, p1) {
        Option::Some(x) => x,
        Option::None => {
            proof {
                assert forall|m: TicketModel, rest: Seq<u8>|
                    ticket_wf(m)
                        && b@.subrange(pos as int, b@.len() as int) == enc_ticket(m) + rest
                    implies false by {
                    lemma_ticket_shape(b@, pos as int, m, rest);
                };
            }
            return None;
        },
    };
    let (enc_part, p3) = match read_payload(b, p2) {
        Option::Some(x) => x,
        Option::None => {
            proof {
                assert forall|m: TicketModel, rest: Seq<u8>|
                    ticket_wf(m)
                        && b@.subrange(pos as int, b@.len() as int) == enc_ticket(m) + rest
                    implies false by {
                    lemma_ticket_shape(b@, pos as int, m, rest);
                };
            }
            return None;
        },
    };
    let v = Ticket { realm, sname, enc_part };
    proof {
        lemma_join(b@, pos as int, p1 as int, p2 as int);
        lemma_join(b@, pos as int, p2 as int, p3 as int);
        assert(b@.subrange(pos as int, p3 as int) =~= enc_ticket(v@));
        assert forall|m: TicketModel, rest: Seq<u8>|
            ticket_wf(m) && b@.subrange(pos as int, b@.len() as int) == enc_ticket(m) + rest
            implies p3 == pos + enc_ticket(m).len() by {
            lemma_ticket_shape(b@, pos as int, m, rest);
        };
    }
    Some((v, p3))
}

#[verifier::rlimit(100)]
fn read_info(b: &Vec<u8>, pos: usize) -> (r: Option<(SessionKeyInfo, usize)>)
    requires
        pos <= b@.len(),
    ensures
        r matches Some((v, p)) ==> pos <= p <= b@.len()
            && b@.subrange(pos as int, p as int) == enc_info(v@) && info_wf(v@),
        forall|m: SessionKeyInfoModel, rest: Seq<u8>|
            info_wf(m) && b@.subrange(pos as int, b@.len() as int) == enc_info(m) + rest
                ==> (r matches Some((v, p)) && p == pos + enc_info(m).len()),
{
    let (key_type, p1) = match read_i32(b, pos) {
        Option::Some(x) => x,
        Option::None => {
            proof {
                assert forall|m: SessionKeyInfoModel, rest: Seq<u8>|
                    info_wf(m) && b@.subrange(pos as int, b@.len() as int) == enc_info(m) + rest
                    implies false by {
                    lemma_info_shape(b@, pos as int, m, rest);
                };
            }
            return None;
        },
    };
    let (key_value, p2) = match read_bytes(b, p1) {
        Option::Some(x) => x,
        Option::None => {
            proof {
                assert forall|m: SessionKeyInfoModel, rest: Seq<u8>|
                    info_wf(m) && b@.subrange(pos as int, b@.len() as int) == enc_info(m) + rest
                    implies false by {
                    lemma_info_shape(b@, pos as int, m, rest);
                };
            }
            return None;
        },
    };
    let (flags, p3) = match read_u32(b, p2) {
        Option::Some(x) => x,
        Option::None => {
            proof {
                assert forall|m: SessionKeyInfoModel, rest: Seq<u8>|
                    info_wf(m) && b@.subrange(pos as int, b@.len() as int) == enc_info(m) + rest
                    implies false by {
                    lemma_info_shape(b@, pos as int, m, rest);
                };
            }
            return None;
        },
    };
    let (auth_time, p4) = match read_i64(b, p3) {
        Option::Some(x) => x,
        Option::None => {
            proof {
                assert forall|m: SessionKeyInfoModel, rest: Seq<u8>|
                    info_wf(m) && b@.subrange(pos as int, b@.len() as int) == enc_info(m) + rest
                    implies false by {
                    lemma_info_shape(b@, pos as int, m, rest);
                };
            }
            return None;
        },
    };
    let (start_time, p5) = match read_i64(b, p4) {
        Option::Some(x) => x,
        Option::None => {
            proof {
                assert forall|m: SessionKeyInfoModel, rest: Seq<u8>|
                    info_wf(m) && b@.subrange(pos as int, b@.len() as int) == enc_info(m) + rest
                    implies false by {
                    lemma_info_shape(b@, pos as int, m, rest);
                };
            }
            return None;
        },
    };
    let (end_time, p6) = match read_i64(b, p5) {
        Option::Some(x) => x,
        Option::None => {
            proof {
                assert forall|m: SessionKeyInfoModel, rest: Seq<u8>|
                    info_wf(m) && b@.subrange(pos as int, b@.len() as int) == enc_info(m) + rest
                    implies false by {
                    lemma_info_shape(b@, pos as int, m, rest);
                };
            }
            return None;
        },
    };
    let (renew_till, p7) = match read_i64(b, p6) {
        Option::Some(x) => x,
        Option::None => {
            proof {
                assert forall|m: SessionKeyInfoModel, rest: Seq<u8>|
                    info_wf(m) && b@.subrange(pos as int, b@.len() as int) == enc_info(m) + rest
                    implies false by {
                    lemma_info_shape(b@, pos as int, m, rest);
                };
            }
            return None;
        },
    };
    let (client_realm, p8) = match read_string(b, p7) {
        Option::Some(x) => x,
        Option::None => {
            proof {
                assert forall|m: SessionKeyInfoModel, rest: Seq<u8>|
                    info_wf(m) && b@.subrange(pos as int, b@.len() as int) == enc_info(m) + rest
                    implies false by {
                    lemma_info_shape(b@, pos as int, m, rest);
                };
            }
            return None;
        },
    };
    let (client_name, p9) = match read_pn(b, p8) {
        Option::Some(x) => x,
        Option::None => {
            proof {
                assert forall|m: SessionKeyInfoModel, rest: Seq<u8>|
                    info_wf(m) && b@.subrange(pos as int, b@.len() as int) == enc_info(m) + rest
                    implies false by {
                    lemma_info_shape(b@, pos as int, m, rest);
                };
            }
            return None;
        },
    };
    let (server_realm, p10) = match read_string(b, p9) {
        Option::Some(x) => x,
        Option::None => {
            proof {
                assert forall|m: SessionKeyInfoModel, rest: Seq<u8>|
                    info_wf(m) && b@.subrange(pos as int, b@.len() as int) == enc_info(m) + rest
                    implies false by {
                    lemma_info_shape(b@, pos as int, m, rest);
                };
            }
            return None;
        },
    };
    let (server_name, p11) = match read_pn(b, p10) {
        Option::Some(x) => x,
        Option::None => {
            proof {
                assert forall|m: SessionKeyInfoModel, rest: Seq<u8>|
                    info_wf(m) && b@.subrange(pos as int, b@.len() as int) == enc_info(m) + rest
                    implies false by {
                    lemma_info_shape(b@, pos as int, m, rest);
                };
            }
            return None;
        },
    };
    let v = SessionKeyInfo {
        key_type, key_value, flags, auth_time, start_time, end_time, renew_till,
        client_realm, client_name, server_realm, server_name,
    };
    proof {
        lemma_join(b@, p9 as int, p10 as int, p11 as int);
        lemma_join(b@, p8 as int, p9 as int, p11 as int);
        lemma_join(b@, p7 as int, p8 as int, p11 as int);
        lemma_join(b@, p6 as int, p7 as int, p11 as int);
        lemma_join(b@, p5 as int, p6 as int, p11 as int);
        lemma_join(b@, p4 as int, p5 as int, p11 as int);
        lemma_join(b@, p3 as int, p4 as int, p11 as int);
        lemma_join(b@, p2 as int, p3 as int, p11 as int);
        lemma_join(b@, p1 as int, p2 as int, p11 as int);
        lemma_join(b@, pos as int, p1 as int, p11 as int);
        assert(b@.subrange(pos as int, p11 as int) =~= enc_info(v@));
        assert forall|m: SessionKeyInfoModel, rest: Seq<u8>|
            info_wf(m) && b@.subrange(pos as int, b@.len() as int) == enc_info(m) + rest
            implies p11 == pos + enc_info(m).len() by {
            lemma_info_shape(b@, pos as int, m, rest);
        };
    }
    Some((v, p11))
}

fn read_cred(b: &Vec<u8>, pos: usize) -> (r: Option<(Credential, usize)>)
    requires
        pos <= b@.len(),
    ensures
        r matches Some((v, p)) ==> pos <= p <= b@.len()
            && b@.subrange(pos as int, p as int) == enc_cred(v@) && cred_wf(v@),
        forall|m: CredentialModel, rest: Seq<u8>|
            cred_wf(m) && b@.subrange(pos as int, b@.len() as int) == enc_cred(m) + rest
                ==> (r matches Some((v, p)) && p == pos + enc_cred(m).len()),
{
    let (ticket, p1) = match read_ticket(b, pos) {
        Option::Some(x) => x,
        Option::None => {
            proof {
                assert forall|m: CredentialModel, rest: Seq<u8>|
                    cred_wf(m) && b@.subrange(pos as int, b@.len() as int) == enc_cred(m) + rest
                    implies false by {
                    lemma_cred_shape(b@, pos as int, m, rest);
                };
            }
            return None;
        },
    };
    let (info, p2) = match read_info(b, p1) {
        Option::Some(x) => x,
        Option::None => {
            proof {
                assert forall|m: CredentialModel, rest: Seq<u8>|
                    cred_wf(m) && b@.subrange(pos as int, b@.len() as int) == enc_cred(m) + rest
                    implies false by {
                    lemma_cred_shape(b@, pos as int, m, rest);
                };
            }
            return None;
        },
    };
    let v = Credential { ticket, info };
    proof {
        lemma_join(b@, pos as int, p1 as int, p2 as int);
        assert(b@.subrange(pos as int, p2 as int) =~= enc_cred(v@));
        assert forall|m: CredentialModel, rest: Seq<u8>|
            cred_wf(m) && b@.subrange(pos as int, b@.len() as int) == enc_cred(m) + rest
            implies p2 == pos + enc_cred(m).len() by {
            lemma_cred_shape(b@, pos as int, m, rest);
        };
    }
    Some((v, p2))
}

/// Decodes a ticket-cache image. Whatever it accepts re-encodes to exactly
/// the bytes it was given: a save of the result reproduces the input byte for
/// byte.
#[verifier::rlimit(100)]
pub fn load_ticket_cache(b: &Vec<u8>) -> (r: Result<CredentialSet, KerberosError>)
    ensures
        r matches Ok(cs) ==> b@ == enc_set(cs@) && set_wf(cs@),
        r matches Err(e) ==> e is MalformedCredentialFile,
        (exists|m: CredentialSetModel| set_wf(m) && b@ == enc_set(m)) ==> r is Ok,
{
    proof {
        lemma_auto_spec_u32_to_from_le_bytes();
    }
    if b.len() < 2 {
            proof {
                assert forall|m: CredentialSetModel| set_wf(m) && b@ == enc_set(m)
                    implies false by {
                    lemma_set_shape(b@, m);
                };
            }
            return Err(KerberosError::MalformedCredentialFile);
        }
    if !(b[0] == CACHE_MAGIC_0 && b[1] == CACHE_MAGIC_1) {
            proof {
                assert forall|m: CredentialSetModel| set_wf(m) && b@ == enc_set(m)
                    implies false by {
                    lemma_set_shape(b@, m);
                };
            }
            return Err(KerberosError::MalformedCredentialFile);
        }
    let (client_realm, p1) = match read_string(b, 2) {
        Option::Some(x) => x,
        Option::None => {
            proof {
                assert forall|m: CredentialSetModel| set_wf(m) && b@ == enc_set(m)
                    implies false by {
                    lemma_set_shape(b@, m);
                };
            }
            return Err(KerberosError::MalformedCredentialFile);
        },
    };
    let (client_name, p2) = match read_pn(b, p1) {
        Option::Some(x) => x,
        Option::None => {
            proof {
                assert forall|m: CredentialSetModel| set_wf(m) && b@ == enc_set(m)
                    implies false by {
                    lemma_set_shape(b@, m);
                };
            }
            return Err(KerberosError::MalformedCredentialFile);
        },
    };
    let (n, p3) = match read_u32(b, p2) {
        Option::Some(x) => x,
        Option::None => {
            proof {
                assert forall|m: CredentialSetModel| set_wf(m) && b@ == enc_set(m)
                    implies false by {
                    lemma_set_shape(b@, m);
                };
            }
            return Err(KerberosError::MalformedCredentialFile);
        },
    };
    proof {
        assert forall|m: CredentialSetModel| set_wf(m) && b@ == enc_set(m)
            implies ((m.creds.len() as u32) == n
                && p3 == 2 + enc_chars(m.client_realm).len() + enc_pn(m.client_name).len() + 4
                && p3 + enc_creds(m.creds.take(0)).len() == p3) by {
            lemma_set_shape(b@, m);
            assert(m.creds.take(0) =~= Seq::<CredentialModel>::empty());
            assert(enc_creds(m.creds.take(0)) == Seq::<u8>::empty());
            assert(b@.subrange(p2 as int, p3 as int) == enc_u32(n));
            assert(enc_u32(n) == enc_u32((m.creds.len() as u32)));
        };
    }
    let nn = n as usize;
    let mut creds: Vec<Credential> = Vec::new();
    let mut cur: usize = p3;
    let mut k: usize = 0;
    while k < nn
        invariant
            k <= nn,
            nn == n,
            p3 <= cur <= b@.len(),
            creds.len() == k,
            b@.subrange(p3 as int, cur as int) == enc_creds(creds.deep_view()),
            forall|i: int| 0 <= i < creds.len() ==> cred_wf(#[trigger] creds.deep_view()[i]),
            forall|m: CredentialSetModel| set_wf(m) && b@ == enc_set(m)
                ==> ((m.creds.len() as u32) == n && k <= m.creds.len()
                    && p3 == 2 + enc_chars(m.client_realm).len()
                        + enc_pn(m.client_name).len() + 4
                    && cur == p3 + enc_creds(m.creds.take(k as int)).len()),
        decreases nn - k,
    {
        proof {
            assert forall|m: CredentialSetModel| set_wf(m) && b@ == enc_set(m)
                implies b@.subrange(cur as int, b@.len() as int)
                    == enc_cred(m.creds[k as int])
                        + enc_creds(m.creds.skip(k as int + 1))
                    && cred_wf(m.creds[k as int]) by {
                assert(m.creds.len() == n);
                lemma_load_step(b@, p3 as int, cur as int, k as int, m);
            };
        }
        let (c, p4) = match read_cred(b, cur) {
            Option::Some(x) => x,
            Option::None => { return Err(KerberosError::MalformedCredentialFile); },
        };
        proof {
            lemma_enc_creds_push(creds.deep_view(), c@);
            lemma_join(b@, p3 as int, cur as int, p4 as int);
            assert(b@.subrange(p3 as int, p4 as int)
                =~= enc_creds(creds.deep_view().push(c@)));
            assert forall|m: CredentialSetModel| set_wf(m) && b@ == enc_set(m)
                implies p4 == p3 + enc_creds(m.creds.take(k as int + 1)).len() by {
                assert(m.creds.take(k as int).push(m.creds[k as int])
                    =~= m.creds.take(k as int + 1));
                lemma_enc_creds_push(m.creds.take(k as int), m.creds[k as int]);
            };
        }
        let ghost oldcreds = creds.deep_view();
        creds.push(c);
        proof {
            assert(creds.deep_view() =~= oldcreds.push(c@));
        }
        cur = p4;
        k += 1;
    }
    if cur != b.len() {
        proof {
            assert forall|m: CredentialSetModel| set_wf(m) && b@ == enc_set(m)
                implies false by {
                lemma_set_shape(b@, m);
                assert(m.creds.take(nn as int) =~= m.creds);
            };
        }
        return Err(KerberosError::MalformedCredentialFile);
    }
    let cs = CredentialSet { client_realm, client_name, creds };
    proof {
        assert(b@.subrange(0, 2) =~= seq![CACHE_MAGIC_0, CACHE_MAGIC_1]);
        lemma_join(b@, 0, 2, p1 as int);
        lemma_join(b@, 0, p1 as int, p2 as int);
        lemma_join(b@, 0, p2 as int, p3 as int);
        lemma_join(b@, 0, p3 as int, cur as int);
        assert((cs@.creds.len() as u32) == n);
        assert(b@.subrange(0, b@.len() as int) =~= b@);
        assert(b@.subrange(0, cur as int) =~= enc_set(cs@));
    }
    Ok(cs)
}

} // verus!
