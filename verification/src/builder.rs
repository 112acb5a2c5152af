//! The KDC request builder: accumulates realm, principals, requested
//! encryption types, option flags, a fresh nonce, a far-future validity
//! window and pre-authentication items, and produces an immutable request
//! body wrapped as an AS-REQ or TGS-REQ.

use vstd::prelude::*;
use crate::model::PrincipalName;
use crate::constants::{NT_PRINCIPAL, FORWARDABLE, RENEWABLE, CANONICALIZE, RENEWABLE_OK,
    PA_PAC_REQUEST};
use crate::crypto::supported_etypes;
use crate::asn1::{encode_pa_pac_request, time_wf, MAX_KRB_TIME};

verus! {

/// One pre-authentication item: its type tag and already-encoded value.
pub struct PreAuthData {
    pub patype: i32,
    pub value: Vec<u8>,
}

#[verifier::ext_equal]
pub struct PreAuthDataModel {
    pub patype: i32,
    pub value: Seq<u8>,
}

impl View for PreAuthData {
    type V = PreAuthDataModel;

    open spec fn view(&self) -> PreAuthDataModel {
        PreAuthDataModel { patype: self.patype, value: self.value@ }
    }
}

impl DeepView for PreAuthData {
    type V = PreAuthDataModel;

    open spec fn deep_view(&self) -> PreAuthDataModel {
        self.view()
    }
}

/// An immutable KDC request body, ready to be wrapped as an AS-REQ or
/// TGS-REQ.
pub struct KdcRequest {
    pub realm: String,
    pub cname: Option<PrincipalName>,
    pub sname: Option<PrincipalName>,
    pub etypes: Vec<i32>,
    pub kdc_options: u32,
    pub padatas: Vec<PreAuthData>,
    pub nonce: u32,
    pub till: i64,
    pub rtime: Option<i64>,
}

#[verifier::ext_equal]
pub struct KdcRequestModel {
    pub realm: Seq<char>,
    pub cname: Option<crate::model::PrincipalNameModel>,
    pub sname: Option<crate::model::PrincipalNameModel>,
    pub etypes: Seq<i32>,
    pub kdc_options: u32,
    pub padatas: Seq<PreAuthDataModel>,
    pub nonce: u32,
    pub till: i64,
    pub rtime: Option<i64>,
}

impl View for KdcRequest {
    type V = KdcRequestModel;

    open spec fn view(&self) -> KdcRequestModel {
        KdcRequestModel {
            realm: self.realm@,
            cname: match self.cname {
                Option::Some(ref p) => Option::Some(p@),
                Option::None => Option::None,
            },
            sname: match self.sname {
                Option::Some(ref p) => Option::Some(p@),
                Option::None => Option::None,
            },
            etypes: self.etypes@,
            kdc_options: self.kdc_options,
            padatas: self.padatas.deep_view(),
            nonce: self.nonce,
            till: self.till,
            rtime: self.rtime,
        }
    }
}

/// Both timestamps of a request stay inside the encodable calendar range.
pub open spec fn req_times_wf(r: KdcRequestModel) -> bool {
    &&& time_wf(r.till)
    &&& (r.rtime matches Option::Some(t) ==> time_wf(t))
}

/// An AS-REQ: a request body addressed to the authentication service.
pub struct AsReq(pub KdcRequest);

/// A TGS-REQ: a request body addressed to the ticket-granting service.
pub struct TgsReq(pub KdcRequest);

/// Relies on `rand::random`: a fresh nonce. Nothing is promised of the
/// value.
#[verifier::external_body]
fn random_u32() -> u32 {
    rand::random::<u32>()
}

/// Relies on `chrono::Utc::now`: the clock reading as Unix seconds. Nothing
/// is promised of the value.
#[verifier::external_body]
fn now_unix() -> i64 {
    chrono::Utc::now().timestamp()
}

/// Twenty years of 52 weeks, in seconds: the default distance of the
/// requested end-time and renew-till from now.
pub const FAR_FUTURE_SECS: i64 = 629145600;

/// The clock reading plus twenty years, clamped into the encodable calendar
/// range.
fn default_till() -> (r: i64)
    ensures
        time_wf(r),
{
    let now = now_unix();
    if now < 0 {
        0
    } else if now > MAX_KRB_TIME - FAR_FUTURE_SECS {
        MAX_KRB_TIME
    } else {
        now + FAR_FUTURE_SECS
    }
}

/// The clock reading clamped into the encodable calendar range, for the
/// encrypted-timestamp pre-authentication item.
pub fn current_time() -> (r: i64)
    ensures
        time_wf(r),
{
    let now = now_unix();
    if now < 0 {
        0
    } else if now > MAX_KRB_TIME {
        MAX_KRB_TIME
    } else {
        now
    }
}

/// The default KDC option flags: forwardable, renewable, canonicalize,
/// renewable-ok.
pub open spec fn default_kdc_options() -> u32 {
    FORWARDABLE | RENEWABLE | CANONICALIZE | RENEWABLE_OK
}

/// A mutable builder for a KDC request body.
pub struct KdcReqBuilder {
    pub realm: String,
    pub cname: Option<PrincipalName>,
    pub sname: Option<PrincipalName>,
    pub etypes: Vec<i32>,
    pub kdc_options: u32,
    pub padatas: Vec<PreAuthData>,
    pub nonce: u32,
    pub till: i64,
    pub rtime: Option<i64>,
}

impl KdcReqBuilder {
    /// Fresh builder: server defaults to `krbtgt/REALM`, the requested
    /// encryption types to the supported suites in preference order, the
    /// options to the four defaults, the nonce to a fresh random value, and
    /// the validity end-time and renew-till to twenty years from now.
    pub fn new(realm: String) -> (r: Self)
        ensures
            r.realm@ == realm@,
            r.cname is None,
            r.sname matches Option::Some(s) && s@.name_type == NT_PRINCIPAL
                && s@.components =~= seq!["krbtgt"@, realm@],
            r.etypes@ =~= seq![crate::constants::RC4_HMAC,
                crate::constants::AES128_CTS_HMAC_SHA1_96,
                crate::constants::AES256_CTS_HMAC_SHA1_96],
            r.kdc_options == default_kdc_options(),
            r.padatas@.len() == 0,
            time_wf(r.till),
            r.rtime == Option::Some(r.till),
    {
        let till = default_till();
        Self {
            realm: realm.clone(),
            cname: None,
            sname: Some(crate::model::gen_krbtgt_principal_name(realm, NT_PRINCIPAL)),
            etypes: supported_etypes(),
            kdc_options: FORWARDABLE | RENEWABLE | CANONICALIZE | RENEWABLE_OK,
            padatas: Vec::new(),
            nonce: random_u32(),
            till,
            rtime: Some(till),
        }
    }

    pub fn etypes(self, etypes: Vec<i32>) -> (r: Self)
        ensures
            r == (Self { etypes, ..self }),
    {
        Self { etypes, ..self }
    }

    pub fn cname(self, cname: Option<PrincipalName>) -> (r: Self)
        ensures
            r == (Self { cname, ..self }),
    {
        Self { cname, ..self }
    }

    pub fn sname(self, sname: Option<PrincipalName>) -> (r: Self)
        ensures
            r == (Self { sname, ..self }),
    {
        Self { sname, ..self }
    }

    /// Sets the client principal from a bare user name.
    pub fn username(self, username: String) -> (r: Self)
        ensures
            r.cname matches Option::Some(c) && c@.name_type == NT_PRINCIPAL
                && c@.components =~= seq![username@],
            r.realm == self.realm && r.sname == self.sname && r.etypes == self.etypes
                && r.kdc_options == self.kdc_options && r.padatas == self.padatas
                && r.nonce == self.nonce && r.till == self.till && r.rtime == self.rtime,
    {
        let cname = Some(crate::model::username_to_principal_name(username));
        Self { cname, ..self }
    }

    pub fn push_padata(self, padata: PreAuthData) -> (r: Self)
        ensures
            r.padatas.deep_view() =~= self.padatas.deep_view().push(padata@),
            r.realm == self.realm && r.sname == self.sname && r.cname == self.cname
                && r.etypes == self.etypes && r.kdc_options == self.kdc_options
                && r.nonce == self.nonce && r.till == self.till && r.rtime == self.rtime,
    {
        let mut padatas = self.padatas;
        let ghost oldp = padatas.deep_view();
        padatas.push(padata);
        proof {
            assert(padatas.deep_view() =~= oldp.push(padata@));
        }
        Self {
            realm: self.realm,
            cname: self.cname,
            sname: self.sname,
            etypes: self.etypes,
            kdc_options: self.kdc_options,
            padatas,
            nonce: self.nonce,
            till: self.till,
            rtime: self.rtime,
        }
    }

    pub fn padatas(self, padatas: Vec<PreAuthData>) -> (r: Self)
        ensures
            r == (Self { padatas, ..self }),
    {
        Self { padatas, ..self }
    }

    /// Attaches a PA-PAC-REQUEST item asking the KDC to include a PAC.
    pub fn request_pac(self) -> (r: Self)
        ensures
            r.padatas.deep_view() =~= self.padatas.deep_view().push(PreAuthDataModel {
                patype: PA_PAC_REQUEST,
                value: crate::asn1::pa_pac_request_der_of(true),
            }),
            r.realm == self.realm && r.sname == self.sname && r.cname == self.cname
                && r.etypes == self.etypes && r.kdc_options == self.kdc_options
                && r.nonce == self.nonce && r.till == self.till && r.rtime == self.rtime,
    {
        let value = encode_pa_pac_request(true);
        self.push_padata(PreAuthData { patype: PA_PAC_REQUEST, value })
    }

    /// Freezes the builder into an immutable request body.
    pub fn build(self) -> (r: KdcRequest)
        ensures
            r.realm == self.realm && r.cname == self.cname && r.sname == self.sname
                && r.etypes == self.etypes && r.kdc_options == self.kdc_options
                && r.padatas == self.padatas && r.nonce == self.nonce
                && r.till == self.till && r.rtime == self.rtime,
    {
        KdcRequest {
            realm: self.realm,
            cname: self.cname,
            sname: self.sname,
            etypes: self.etypes,
            kdc_options: self.kdc_options,
            padatas: self.padatas,
            nonce: self.nonce,
            till: self.till,
            rtime: self.rtime,
        }
    }

    pub fn build_as_req(self) -> (r: AsReq)
        ensures
            r.0.realm == self.realm && r.0.cname == self.cname && r.0.sname == self.sname
                && r.0.etypes == self.etypes && r.0.kdc_options == self.kdc_options
                && r.0.padatas == self.padatas && r.0.nonce == self.nonce
                && r.0.till == self.till && r.0.rtime == self.rtime,
    {
        AsReq(self.build())
    }

    pub fn build_tgs_req(self) -> (r: TgsReq)
        ensures
            r.0.realm == self.realm && r.0.cname == self.cname && r.0.sname == self.sname
                && r.0.etypes == self.etypes && r.0.kdc_options == self.kdc_options
                && r.0.padatas == self.padatas && r.0.nonce == self.nonce
                && r.0.till == self.till && r.0.rtime == self.rtime,
    {
        TgsReq(self.build())
    }
}

} // verus!
