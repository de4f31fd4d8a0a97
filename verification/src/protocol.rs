//! The wire-level protocol vocabulary: order, authorization and challenge
//! statuses, the CA's directory document, response classification per the
//! error taxonomy, and verified parsers over the trusted JSON accessors.

use vstd::prelude::*;

use crate::json::{
    json_challenges, json_identifier_value, json_str_field, json_str_list_field,
    spec_json_challenges, spec_json_identifier_value, spec_json_str_field,
    spec_json_str_list_field,
};

verus! {

/// Status of an order, authorization or challenge as the CA reports it.
/// `Unknown` stands for any label outside the protocol's vocabulary.
#[derive(Clone, Copy, PartialEq, Eq, Structural, Debug)]
pub enum Status {
    Pending,
    Ready,
    Processing,
    Valid,
    Invalid,
    Unknown,
}

/// The status a label denotes.
pub open spec fn spec_status_of(s: Seq<char>) -> Status {
    if s == "pending"@ {
        Status::Pending
    } else if s == "ready"@ {
        Status::Ready
    } else if s == "processing"@ {
        Status::Processing
    } else if s == "valid"@ {
        Status::Valid
    } else if s == "invalid"@ {
        Status::Invalid
    } else {
        Status::Unknown
    }
}

fn str_is(s: &String, lit: &str) -> (r: bool)
    ensures
        r == (s@ == lit@),
{
    let l = String::from_str(lit);
    s.eq(&l)
}

/// Read a status label.
pub fn status_of(s: &String) -> (r: Status)
    ensures
        r == spec_status_of(s@),
{
    if str_is(s, "pending") {
        Status::Pending
    } else if str_is(s, "ready") {
        Status::Ready
    } else if str_is(s, "processing") {
        Status::Processing
    } else if str_is(s, "valid") {
        Status::Valid
    } else if str_is(s, "invalid") {
        Status::Invalid
    } else {
        Status::Unknown
    }
}

/// How a CA response is to be handled, per the error taxonomy: success;
/// a rejected nonce, retried at once with a fresh one; CA throttling,
/// surfaced and not retried this cycle; a transient server failure, retried
/// with backoff; or a fatal protocol problem that ends the current order.
#[derive(Clone, Copy, PartialEq, Eq, Structural, Debug)]
pub enum ResponseClass {
    Success,
    BadNonce,
    RateLimited,
    Transient,
    Fatal,
}

/// The class of a response: 2xx succeeds; a problem document of type
/// urn:ietf:params:acme:error:badNonce is a rejected nonce; 429 is
/// throttling; 5xx is transient; any other status is fatal for the order.
pub open spec fn spec_classify(status: int, body: Seq<u8>) -> ResponseClass {
    if 200 <= status < 300 {
        ResponseClass::Success
    } else if spec_json_str_field(body, "type"@) == Some(
        "urn:ietf:params:acme:error:badNonce"@,
    ) {
        ResponseClass::BadNonce
    } else if status == 429 {
        ResponseClass::RateLimited
    } else if 500 <= status < 600 {
        ResponseClass::Transient
    } else {
        ResponseClass::Fatal
    }
}

/// Classify a CA response.
pub fn classify(status: u16, body: &Vec<u8>) -> (r: ResponseClass)
    ensures
        r == spec_classify(status as int, body@),
{
    if 200 <= status && status < 300 {
        return ResponseClass::Success;
    }
    let bad_nonce = match json_str_field(body.as_slice(), "type") {
        Some(t) => str_is(&t, "urn:ietf:params:acme:error:badNonce"),
        None => false,
    };
    if bad_nonce {
        ResponseClass::BadNonce
    } else if status == 429 {
        ResponseClass::RateLimited
    } else if 500 <= status && status < 600 {
        ResponseClass::Transient
    } else {
        ResponseClass::Fatal
    }
}

/// The structured failure a provisioning run surfaces, per the error
/// taxonomy: transient transport failures and rejected nonces are absorbed
/// by bounded retries and surface only once their budget is spent.
#[derive(Clone, Copy, PartialEq, Eq, Structural, Debug)]
pub enum AcmeError {
    /// Transient transport failure; retried with backoff, bounded.
    Network,
    /// Nonce rejected or expired after the bounded immediate retries.
    BadNonce,
    /// CA-reported problem document, fatal for the current order.
    Protocol,
    /// An authorization reached `invalid`, fatal for the current order.
    ChallengeFailed,
    /// CA throttling; surfaced, not auto-retried this cycle.
    RateLimited,
    /// Persistence of account or certificate state failed.
    Storage,
}

/// What a CA response carries back into the protocol core: the HTTP status,
/// the body, and the replay-nonce and location headers when present.
pub struct HttpResponse {
    pub status: u16,
    pub body: Vec<u8>,
    pub nonce: Option<String>,
    pub location: Option<String>,
}

/// The CA-advertised endpoint map, fetched once and cached.
pub struct Directory {
    pub new_nonce: String,
    pub new_account: String,
    pub new_order: String,
    pub revoke_cert: Option<String>,
    pub key_change: Option<String>,
}

impl Directory {
    pub open spec fn wf_for(self, body: Seq<u8>) -> bool {
        &&& Some(self.new_nonce@) == spec_json_str_field(body, "newNonce"@)
        &&& Some(self.new_account@) == spec_json_str_field(body, "newAccount"@)
        &&& Some(self.new_order@) == spec_json_str_field(body, "newOrder"@)
        &&& match self.revoke_cert {
            Some(u) => spec_json_str_field(body, "revokeCert"@) == Some(u@),
            None => spec_json_str_field(body, "revokeCert"@) is None,
        }
        &&& match self.key_change {
            Some(u) => spec_json_str_field(body, "keyChange"@) == Some(u@),
            None => spec_json_str_field(body, "keyChange"@) is None,
        }
    }
}

/// Read the directory document.  Succeeds exactly when the body is a JSON
/// object carrying newNonce, newAccount and newOrder string fields, and
/// then returns exactly those URLs; the revocation and key-change
/// endpoints are carried when advertised.
pub fn parse_directory(body: &Vec<u8>) -> (r: Option<Directory>)
    ensures
        r is Some <==> (spec_json_str_field(body@, "newNonce"@) is Some && spec_json_str_field(
            body@,
            "newAccount"@,
        ) is Some && spec_json_str_field(body@, "newOrder"@) is Some),
        r matches Some(d) ==> d.wf_for(body@),
{
    let new_nonce = json_str_field(body.as_slice(), "newNonce");
    let new_account = json_str_field(body.as_slice(), "newAccount");
    let new_order = json_str_field(body.as_slice(), "newOrder");
    match (new_nonce, new_account, new_order) {
        (Some(new_nonce), Some(new_account), Some(new_order)) => {
            let revoke_cert = json_str_field(body.as_slice(), "revokeCert");
            let key_change = json_str_field(body.as_slice(), "keyChange");
            Some(Directory { new_nonce, new_account, new_order, revoke_cert, key_change })
        },
        _ => None,
    }
}

/// An order object as the CA reports it.
pub struct OrderView {
    pub status: Status,
    pub authorizations: Vec<String>,
    pub finalize: String,
    pub certificate: Option<String>,
}

impl OrderView {
    pub open spec fn wf_for(self, body: Seq<u8>) -> bool {
        &&& spec_json_str_field(body, "status"@) matches Some(s) && self.status
            == spec_status_of(s)
        &&& Some(self.authorizations.deep_view()) == spec_json_str_list_field(
            body,
            "authorizations"@,
        )
        &&& Some(self.finalize@) == spec_json_str_field(body, "finalize"@)
        &&& match self.certificate {
            Some(c) => spec_json_str_field(body, "certificate"@) == Some(c@),
            None => spec_json_str_field(body, "certificate"@) is None,
        }
    }
}

/// Read an order object.  Succeeds exactly when status, authorizations and
/// finalize are present; the certificate URL is carried only once the CA
/// populated it.
pub fn parse_order(body: &Vec<u8>) -> (r: Option<OrderView>)
    ensures
        r is Some <==> (spec_json_str_field(body@, "status"@) is Some
            && spec_json_str_list_field(body@, "authorizations"@) is Some
            && spec_json_str_field(body@, "finalize"@) is Some),
        r matches Some(o) ==> o.wf_for(body@),
{
    let status = json_str_field(body.as_slice(), "status");
    let authorizations = json_str_list_field(body.as_slice(), "authorizations");
    let finalize = json_str_field(body.as_slice(), "finalize");
    match (status, authorizations, finalize) {
        (Some(status), Some(authorizations), Some(finalize)) => {
            let certificate = json_str_field(body.as_slice(), "certificate");
            Some(
                OrderView {
                    status: status_of(&status),
                    authorizations,
                    finalize,
                    certificate,
                },
            )
        },
        _ => None,
    }
}

/// One challenge offered inside an authorization object.
pub struct ChallengeView {
    pub ctype: String,
    pub url: String,
    pub token: String,
}

impl ChallengeView {
    pub open spec fn matches_raw(self, raw: (Seq<char>, Seq<char>, Seq<char>)) -> bool {
        self.ctype@ == raw.0 && self.url@ == raw.1 && self.token@ == raw.2
    }
}

/// An authorization object as the CA reports it.
pub struct AuthorizationView {
    pub status: Status,
    /// The hostname this authorization is for, when the body names it.
    pub identifier: Option<String>,
    pub challenges: Vec<ChallengeView>,
}

impl AuthorizationView {
    pub open spec fn wf_for(self, body: Seq<u8>) -> bool {
        &&& spec_json_str_field(body, "status"@) matches Some(s) && self.status
            == spec_status_of(s)
        &&& match self.identifier {
            Some(h) => spec_json_identifier_value(body) == Some(h@),
            None => spec_json_identifier_value(body) is None,
        }
        &&& spec_json_challenges(body) matches Some(raw) && self.challenges@.len() == raw.len()
            && (forall|i: int|
            0 <= i < raw.len() ==> #[trigger] self.challenges@[i].matches_raw(raw[i]))
    }
}

/// Read an authorization object.  Succeeds exactly when its status and its
/// challenge list are present, and then carries each challenge's type, url
/// and token exactly as the body gives them.
pub fn parse_authorization(body: &Vec<u8>) -> (r: Option<AuthorizationView>)
    ensures
        r is Some <==> (spec_json_str_field(body@, "status"@) is Some && spec_json_challenges(
            body@,
        ) is Some),
        r matches Some(a) ==> a.wf_for(body@),
{
    let status = json_str_field(body.as_slice(), "status");
    let raw = json_challenges(body.as_slice());
    match (status, raw) {
        (Some(status), Some(raw)) => {
            let mut challenges: Vec<ChallengeView> = Vec::new();
            let mut i: usize = 0;
            let ghost raw_view = raw.deep_view();
            while i < raw.len()
                invariant
                    i <= raw@.len(),
                    raw_view == raw.deep_view(),
                    raw_view.len() == raw@.len(),
                    challenges@.len() == i,
                    forall|j: int|
                        0 <= j < i ==> #[trigger] challenges@[j].matches_raw(raw_view[j]),
                decreases raw@.len() - i,
            {
                let entry = &raw[i];
                challenges.push(
                    ChallengeView {
                        ctype: entry.0.clone(),
                        url: entry.1.clone(),
                        token: entry.2.clone(),
                    },
                );
                proof {
                    assert(raw_view[i as int] == (entry.0@, entry.1@, entry.2@));
                }
                i = i + 1;
            }
            let identifier = json_identifier_value(body.as_slice());
            Some(AuthorizationView { status: status_of(&status), identifier, challenges })
        },
        _ => None,
    }
}

/// Whether some challenge in the list is of the given type.
pub open spec fn spec_has_type(chs: Seq<ChallengeView>, t: Seq<char>) -> bool {
    exists|i: int| 0 <= i < chs.len() && chs[i].ctype@ == t
}

fn first_of_type(chs: &Vec<ChallengeView>, t: &str) -> (r: Option<usize>)
    ensures
        r is Some <==> spec_has_type(chs@, t@),
        r matches Some(i) ==> i < chs@.len() && chs@[i as int].ctype@ == t@ && (forall|j: int|
            0 <= j < i ==> chs@[j].ctype@ != t@),
{
    let mut i: usize = 0;
    while i < chs.len()
        invariant
            i <= chs@.len(),
            forall|j: int| 0 <= j < i ==> chs@[j].ctype@ != t@,
        decreases chs@.len() - i,
    {
        if str_is(&chs[i].ctype, t) {
            proof {
                assert(chs@[i as int].ctype@ == t@);
            }
            return Some(i);
        }
        i = i + 1;
    }
    None
}

/// Choose the challenge to satisfy: the first tls-alpn-01 challenge where
/// one is offered, the first http-01 otherwise, and none where neither
/// type is offered.
pub fn select_challenge(chs: &Vec<ChallengeView>) -> (r: Option<usize>)
    ensures
        r is Some <==> (spec_has_type(chs@, "tls-alpn-01"@) || spec_has_type(chs@, "http-01"@)),
        r matches Some(i) ==> i < chs@.len(),
        spec_has_type(chs@, "tls-alpn-01"@) ==> (r matches Some(i) && chs@[i as int].ctype@
            == "tls-alpn-01"@ && (forall|j: int| 0 <= j < i ==> chs@[j].ctype@ != "tls-alpn-01"@)),
        !spec_has_type(chs@, "tls-alpn-01"@) && spec_has_type(chs@, "http-01"@) ==> (r matches Some(
            i,
        ) && chs@[i as int].ctype@ == "http-01"@ && (forall|j: int|
            0 <= j < i ==> chs@[j].ctype@ != "http-01"@)),
{
    match first_of_type(chs, "tls-alpn-01") {
        Some(i) => Some(i),
        None => first_of_type(chs, "http-01"),
    }
}

} // verus!
