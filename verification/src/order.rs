//! The order orchestrator: a single certificate request driven through the
//! order, authorization, challenge, finalize and download sequence as an
//! explicit step machine.  An outside task performs each emitted request
//! and hands the response back, so every decision is a function from state
//! and response to state and next action, cancellable between steps.

use vstd::prelude::*;
use vstd::utf8::encode_utf8;

use crate::b64::spec_b64url;
use crate::cache::CertificateEntry;
use crate::jose::{push_b64, push_str_bytes};
use crate::nonce::{spec_contains_str, NonceManager};
use crate::json::{spec_json_challenges, spec_json_str_field, spec_json_str_list_field};
use crate::protocol::{
    classify, parse_authorization, parse_order, select_challenge, spec_classify, spec_has_type,
    spec_status_of, AcmeError, HttpResponse, ResponseClass, Status,
};

verus! {

/// The error a response class surfaces when its retry budget is spent.
pub open spec fn spec_error_of_class(c: ResponseClass) -> AcmeError {
    match c {
        ResponseClass::Success => AcmeError::Protocol,
        ResponseClass::BadNonce => AcmeError::BadNonce,
        ResponseClass::RateLimited => AcmeError::RateLimited,
        ResponseClass::Transient => AcmeError::Network,
        ResponseClass::Fatal => AcmeError::Protocol,
    }
}

pub fn error_of_class(c: ResponseClass) -> (r: AcmeError)
    ensures
        r == spec_error_of_class(c),
{
    match c {
        ResponseClass::Success => AcmeError::Protocol,
        ResponseClass::BadNonce => AcmeError::BadNonce,
        ResponseClass::RateLimited => AcmeError::RateLimited,
        ResponseClass::Transient => AcmeError::Network,
        ResponseClass::Fatal => AcmeError::Protocol,
    }
}

/// What follows a response to one signed request.
#[derive(Clone, Copy, PartialEq, Eq, Structural, Debug)]
pub enum NextStep {
    /// The response succeeded; hand it to the state machine.
    Proceed,
    /// The nonce was rejected: retry the same logical request at once with
    /// a fresh nonce.
    RetryBadNonce,
    /// Transient failure: retry the same request after backoff.
    RetryTransient,
    /// The retry budget for this class is spent, or the failure is fatal:
    /// surface it.
    Surface,
}

/// Decide what follows a response, given how many immediate badNonce
/// retries and how many backoff retries are still allowed: a 2xx proceeds;
/// a rejected nonce is retried at once while its bounded budget lasts; a
/// transient failure is retried with backoff while its budget lasts;
/// throttling and protocol problems are surfaced, fatal for the order.
pub fn decide_retry(class: ResponseClass, badnonce_left: u32, transient_left: u32) -> (r: NextStep)
    ensures
        class == ResponseClass::Success ==> r == NextStep::Proceed,
        class == ResponseClass::BadNonce && badnonce_left > 0 ==> r == NextStep::RetryBadNonce,
        class == ResponseClass::BadNonce && badnonce_left == 0 ==> r == NextStep::Surface,
        class == ResponseClass::Transient && transient_left > 0 ==> r == NextStep::RetryTransient,
        class == ResponseClass::Transient && transient_left == 0 ==> r == NextStep::Surface,
        class == ResponseClass::RateLimited || class == ResponseClass::Fatal ==> r
            == NextStep::Surface,
{
    match class {
        ResponseClass::Success => NextStep::Proceed,
        ResponseClass::BadNonce => {
            if badnonce_left > 0 {
                NextStep::RetryBadNonce
            } else {
                NextStep::Surface
            }
        },
        ResponseClass::Transient => {
            if transient_left > 0 {
                NextStep::RetryTransient
            } else {
                NextStep::Surface
            }
        },
        ResponseClass::RateLimited => NextStep::Surface,
        ResponseClass::Fatal => NextStep::Surface,
    }
}

/// The nonce a badNonce retry signs with differs from the nonce of the
/// failed attempt: the failed nonce is on the consumed log, and the
/// manager never holds a consumed nonce for the next request.
pub proof fn lemma_badnonce_retry_nonce_differs(m: NonceManager, failed: Seq<char>)
    requires
        m.wf(),
        spec_contains_str(m.consumed@, failed),
    ensures
        m.current matches Some(c) ==> c@ != failed,
{
    match m.current {
        Some(c) => {
            if c@ == failed {
                assert(spec_contains_str(m.consumed@, c@));
            }
        },
        None => {},
    }
}

/// Exponential backoff between polls: the delay starts at a configured
/// value, doubles up to a cap, and the whole wait is bounded by an overall
/// ceiling, all injectable rather than fixed.
pub struct Backoff {
    /// The delay before the next poll, in milliseconds.
    pub delay_ms: u64,
    /// The delay never grows beyond this cap.
    pub cap_ms: u64,
    /// Total delay spent so far.
    pub elapsed_ms: u64,
    /// Once total delay would pass this ceiling, the order is abandoned.
    pub ceiling_ms: u64,
}

impl Backoff {
    pub open spec fn wf(self) -> bool {
        &&& 0 < self.delay_ms
        &&& self.delay_ms <= self.cap_ms
        &&& self.cap_ms <= self.ceiling_ms
    }

    /// Start a backoff schedule.  The initial delay is clamped into the
    /// cap, and the cap into the ceiling, so the schedule is well formed
    /// for any configuration.
    pub fn new(initial_ms: u64, cap_ms: u64, ceiling_ms: u64) -> (r: Backoff)
        ensures
            r.wf(),
            r.elapsed_ms == 0,
            initial_ms >= 1 && initial_ms <= cap_ms && cap_ms <= ceiling_ms ==> r.delay_ms
                == initial_ms && r.cap_ms == cap_ms && r.ceiling_ms == ceiling_ms,
    {
        let ceiling = if ceiling_ms >= 1 {
            ceiling_ms
        } else {
            1
        };
        let cap = if cap_ms >= 1 {
            if cap_ms <= ceiling {
                cap_ms
            } else {
                ceiling
            }
        } else {
            1
        };
        let initial = if initial_ms >= 1 {
            if initial_ms <= cap {
                initial_ms
            } else {
                cap
            }
        } else {
            1
        };
        Backoff { delay_ms: initial, cap_ms: cap, elapsed_ms: 0, ceiling_ms: ceiling }
    }

    /// Take the next inter-poll delay, or nothing once the overall ceiling
    /// is reached.  Each granted delay doubles the next one up to the cap.
    pub fn next_delay(&mut self) -> (r: Option<u64>)
        requires
            old(self).wf(),
        ensures
            final(self).wf(),
            final(self).cap_ms == old(self).cap_ms,
            final(self).ceiling_ms == old(self).ceiling_ms,
            old(self).elapsed_ms + old(self).delay_ms <= old(self).ceiling_ms ==> (r == Some(
                old(self).delay_ms,
            ) && final(self).elapsed_ms == old(self).elapsed_ms + old(self).delay_ms
                && final(self).delay_ms == (if 2 * old(self).delay_ms <= old(self).cap_ms {
                2 * old(self).delay_ms
            } else {
                old(self).cap_ms as int
            })),
            old(self).elapsed_ms + old(self).delay_ms > old(self).ceiling_ms ==> (r is None
                && *final(self) == *old(self)),
    {
        if self.elapsed_ms <= self.ceiling_ms && self.delay_ms <= self.ceiling_ms
            - self.elapsed_ms {
            let granted = self.delay_ms;
            self.elapsed_ms = self.elapsed_ms + granted;
            if granted <= self.cap_ms / 2 {
                self.delay_ms = 2 * granted;
            } else {
                self.delay_ms = self.cap_ms;
            }
            Some(granted)
        } else {
            None
        }
    }
}

/// The phases an order passes through; `Invalid` is the terminal error
/// sink, from which only a fresh order retries.
#[derive(Clone, Copy, PartialEq, Eq, Structural, Debug)]
pub enum Phase {
    Created,
    Pending,
    AuthorizationsInFlight,
    Ready,
    Finalizing,
    Valid,
    Downloaded,
    Invalid,
}

/// One in-flight certificate request: the state the step machine carries
/// between responses.
pub struct OrderRun {
    /// The hostname set this order is for.
    pub identifiers: Vec<String>,
    pub phase: Phase,
    /// Authorization URLs, in the CA's order.
    pub authz_urls: Vec<String>,
    /// How many leading authorizations have reached `valid`.
    pub done_authz: usize,
    /// The order's own URL, from the creation response's location header,
    /// polled after finalize.
    pub order_url: Option<String>,
    pub finalize_url: Option<String>,
    pub certificate_url: Option<String>,
    /// The structured failure, exactly in the `Invalid` phase.
    pub error: Option<AcmeError>,
}

/// The phases an order may only hold once every authorization is valid.
pub open spec fn spec_past_authz(p: Phase) -> bool {
    p == Phase::Ready || p == Phase::Finalizing || p == Phase::Valid || p == Phase::Downloaded
}

impl OrderRun {
    pub open spec fn wf(self) -> bool {
        &&& self.done_authz <= self.authz_urls@.len()
        &&& spec_past_authz(self.phase) ==> self.done_authz == self.authz_urls@.len()
        &&& (self.phase == Phase::Invalid <==> self.error is Some)
        &&& (spec_past_authz(self.phase) || self.phase == Phase::Pending || self.phase
            == Phase::AuthorizationsInFlight) ==> self.finalize_url is Some
        &&& (self.phase == Phase::Valid || self.phase == Phase::Downloaded)
            ==> self.certificate_url is Some
    }

    /// Begin a fresh order for a hostname set.
    pub fn start(identifiers: Vec<String>) -> (r: OrderRun)
        ensures
            r.wf(),
            r.phase == Phase::Created,
            r.identifiers == identifiers,
            r.error is None,
    {
        OrderRun {
            identifiers,
            phase: Phase::Created,
            authz_urls: Vec::new(),
            done_authz: 0,
            order_url: None,
            finalize_url: None,
            certificate_url: None,
            error: None,
        }
    }

    /// Record a fatal failure: the order enters the terminal `Invalid`
    /// phase carrying the structured error.
    fn fail(&mut self, e: AcmeError)
        requires
            old(self).wf(),
        ensures
            final(self).wf(),
            final(self).phase == Phase::Invalid,
            final(self).error == Some(e),
            final(self).identifiers == old(self).identifiers,
            final(self).authz_urls == old(self).authz_urls,
            final(self).done_authz == old(self).done_authz,
            final(self).order_url == old(self).order_url,
            final(self).finalize_url == old(self).finalize_url,
            final(self).certificate_url == old(self).certificate_url,
    {
        self.phase = Phase::Invalid;
        self.error = Some(e);
    }

    /// Consume the new-order response: on success the run holds exactly
    /// the authorization URLs and finalize URL the CA returned and enters
    /// `Pending`; any failure, or a body without them, is fatal.
    pub fn on_order_created(&mut self, resp: &HttpResponse)
        requires
            old(self).wf(),
            old(self).phase == Phase::Created,
        ensures
            final(self).wf(),
            final(self).identifiers == old(self).identifiers,
            ({
                let class = spec_classify(resp.status as int, resp.body@);
                let parse_ok = spec_json_str_field(resp.body@, "status"@) is Some
                    && spec_json_str_list_field(resp.body@, "authorizations"@) is Some
                    && spec_json_str_field(resp.body@, "finalize"@) is Some;
                if class != ResponseClass::Success {
                    final(self).phase == Phase::Invalid && final(self).error == Some(
                        spec_error_of_class(class),
                    )
                } else if !parse_ok {
                    final(self).phase == Phase::Invalid && final(self).error == Some(
                        AcmeError::Protocol,
                    )
                } else {
                    final(self).phase == Phase::Pending && final(self).done_authz == 0 && final(self).authz_urls.deep_view() == spec_json_str_list_field(
                        resp.body@,
                        "authorizations"@,
                    ).unwrap() && (final(self).finalize_url matches Some(f) && f@
                        == spec_json_str_field(resp.body@, "finalize"@).unwrap()) && (match resp
                        .location {
                        Some(l) => final(self).order_url matches Some(u) && u@ == l@,
                        None => final(self).order_url is None,
                    }) && final(self).error is None
                }
            }),
    {
        let class = classify(resp.status, &resp.body);
        if !matches!(class, ResponseClass::Success) {
            self.fail(error_of_class(class));
            return ;
        }
        match parse_order(&resp.body) {
            Some(order) => {
                self.authz_urls = order.authorizations;
                self.finalize_url = Some(order.finalize);
                self.order_url = match &resp.location {
                    Some(l) => Some(l.clone()),
                    None => None,
                };
                self.done_authz = 0;
                self.phase = Phase::Pending;
            },
            None => {
                self.fail(AcmeError::Protocol);
            },
        }
    }

    /// The authorization to work on next, while any is left.
    pub fn current_authorization(&self) -> (r: Option<&String>)
        requires
            self.wf(),
        ensures
            (self.done_authz < self.authz_urls@.len()) ==> r == Some(
                &self.authz_urls@[self.done_authz as int],
            ),
            (self.done_authz >= self.authz_urls@.len()) ==> r is None,
    {
        if self.done_authz < self.authz_urls.len() {
            Some(&self.authz_urls[self.done_authz])
        } else {
            None
        }
    }
}

/// What the driver does after one authorization response.
pub enum AuthzStep {
    /// Satisfy this challenge: its URL to signal the CA, its token, from
    /// which the key authorization and the ephemeral certificate are
    /// computed, and the hostname the authorization names, when its body
    /// carries one, keying the challenge resolver.
    Satisfy(String, String, Option<String>),
    /// Still pending or processing: poll again after backoff.
    Again,
    /// This authorization is valid; move to the next one, or to `Ready`
    /// once none is left.
    Advanced,
    /// The order failed; the run is in `Invalid` with the error set.
    Aborted,
}

impl OrderRun {
    /// Consume an authorization response, fetched or polled.  A `valid`
    /// status advances the run, and `Ready` is reached exactly when every
    /// authorization is valid; an `invalid` status aborts the whole order
    /// as a failed challenge at once; a pending authorization names the
    /// challenge to satisfy, preferring tls-alpn-01 over http-01, and a
    /// body offering neither is a protocol failure.
    pub fn on_authorization(&mut self, resp: &HttpResponse) -> (r: AuthzStep)
        requires
            old(self).wf(),
            old(self).phase == Phase::Pending || old(self).phase
                == Phase::AuthorizationsInFlight,
            old(self).done_authz < old(self).authz_urls@.len(),
        ensures
            final(self).wf(),
            final(self).identifiers == old(self).identifiers,
            final(self).authz_urls == old(self).authz_urls,
            final(self).finalize_url == old(self).finalize_url,
            ({
                let class = spec_classify(resp.status as int, resp.body@);
                let parse_ok = spec_json_str_field(resp.body@, "status"@) is Some
                    && spec_json_challenges(resp.body@) is Some;
                let status = spec_status_of(spec_json_str_field(resp.body@, "status"@).unwrap());
                if class != ResponseClass::Success {
                    (r matches AuthzStep::Aborted) && final(self).phase == Phase::Invalid
                        && final(self).error == Some(spec_error_of_class(class))
                } else if !parse_ok {
                    (r matches AuthzStep::Aborted) && final(self).phase == Phase::Invalid
                        && final(self).error == Some(AcmeError::Protocol)
                } else if status == Status::Valid {
                    (r matches AuthzStep::Advanced) && final(self).done_authz == old(self).done_authz + 1 && (final(self).phase == (if final(self).done_authz == final(self).authz_urls@.len() {
                        Phase::Ready
                    } else {
                        Phase::AuthorizationsInFlight
                    }))
                } else if status == Status::Invalid {
                    (r matches AuthzStep::Aborted) && final(self).phase == Phase::Invalid
                        && final(self).error == Some(AcmeError::ChallengeFailed)
                } else if status == Status::Processing {
                    (r matches AuthzStep::Again) && final(self).phase == old(self).phase && final(self).done_authz == old(self).done_authz
                } else if status == Status::Pending {
                    ({
                        let chs = spec_json_challenges(resp.body@).unwrap();
                        if (exists|i: int|
                            0 <= i < chs.len() && ((#[trigger] chs[i]).0 == "tls-alpn-01"@
                                || chs[i].0 == "http-01"@)) {
                            (r matches AuthzStep::Satisfy(url, token, ident) && (exists|i: int|
                                0 <= i < chs.len() && (#[trigger] chs[i]).1 == url@ && chs[i].2
                                    == token@ && (chs[i].0 == "tls-alpn-01"@ || chs[i].0
                                    == "http-01"@)) && ((exists|i: int|
                                0 <= i < chs.len() && (#[trigger] chs[i]).0 == "tls-alpn-01"@)
                                ==> (exists|i: int|
                                0 <= i < chs.len() && (#[trigger] chs[i]).1 == url@ && chs[i].2
                                    == token@ && chs[i].0 == "tls-alpn-01"@)) && (match crate::json::spec_json_identifier_value(
                                resp.body@,
                            ) {
                                Some(h) => ident matches Some(s) && s@ == h,
                                None => ident is None,
                            })) && final(self).phase == Phase::AuthorizationsInFlight
                        } else {
                            (r matches AuthzStep::Aborted) && final(self).phase == Phase::Invalid
                                && final(self).error == Some(AcmeError::Protocol)
                        }
                    })
                } else {
                    (r matches AuthzStep::Aborted) && final(self).phase == Phase::Invalid
                        && final(self).error == Some(AcmeError::Protocol)
                }
            }),
    {
        let class = classify(resp.status, &resp.body);
        if !matches!(class, ResponseClass::Success) {
            self.fail(error_of_class(class));
            return AuthzStep::Aborted;
        }
        match parse_authorization(&resp.body) {
            Some(authz) => {
                match authz.status {
                    Status::Valid => {
                        let n = self.authz_urls.len();
                        self.done_authz = self.done_authz + 1;
                        if self.done_authz == n {
                            self.phase = Phase::Ready;
                        } else {
                            self.phase = Phase::AuthorizationsInFlight;
                        }
                        AuthzStep::Advanced
                    },
                    Status::Invalid => {
                        self.fail(AcmeError::ChallengeFailed);
                        AuthzStep::Aborted
                    },
                    Status::Processing => AuthzStep::Again,
                    Status::Pending => {
                        proof {
                            let chs = spec_json_challenges(resp.body@).unwrap();
                            let cv = authz.challenges@;
                            lemma_type_bridge(cv, chs, "tls-alpn-01"@);
                            lemma_type_bridge(cv, chs, "http-01"@);
                        }
                        match select_challenge(&authz.challenges) {
                            Some(i) => {
                                self.phase = Phase::AuthorizationsInFlight;
                                let ch = &authz.challenges[i];
                                let url = ch.url.clone();
                                let token = ch.token.clone();
                                proof {
                                    let chs = spec_json_challenges(resp.body@).unwrap();
                                    let cv = authz.challenges@;
                                    assert(cv[i as int].matches_raw(chs[i as int]));
                                    assert(chs[i as int].1 == url@ && chs[i as int].2 == token@);
                                }
                                AuthzStep::Satisfy(url, token, authz.identifier)
                            },
                            None => {
                                self.fail(AcmeError::Protocol);
                                AuthzStep::Aborted
                            },
                        }
                    },
                    _ => {
                        self.fail(AcmeError::Protocol);
                        AuthzStep::Aborted
                    },
                }
            },
            None => {
                self.fail(AcmeError::Protocol);
                AuthzStep::Aborted
            },
        }
    }
}

/// The challenge types a view list offers are exactly those its raw
/// (type, url, token) list offers.
proof fn lemma_type_bridge(
    cv: Seq<crate::protocol::ChallengeView>,
    chs: Seq<(Seq<char>, Seq<char>, Seq<char>)>,
    t: Seq<char>,
)
    requires
        cv.len() == chs.len(),
        forall|j: int| 0 <= j < chs.len() ==> #[trigger] cv[j].matches_raw(chs[j]),
    ensures
        spec_has_type(cv, t) <==> (exists|i: int|
            0 <= i < chs.len() && (#[trigger] chs[i]).0 == t),
        forall|j: int| 0 <= j < chs.len() ==> (#[trigger] cv[j].ctype)@ == chs[j].0,
{
    assert forall|j: int| 0 <= j < chs.len() implies (#[trigger] cv[j].ctype)@ == chs[j].0 by {
        assert(cv[j].matches_raw(chs[j]));
    }
    if spec_has_type(cv, t) {
        let j = choose|j: int| 0 <= j < cv.len() && (#[trigger] cv[j].ctype)@ == t;
        assert(chs[j].0 == t);
    }
    if exists|i: int| 0 <= i < chs.len() && (#[trigger] chs[i]).0 == t {
        let j = choose|i: int| 0 <= i < chs.len() && (#[trigger] chs[i]).0 == t;
        assert((cv[j].ctype)@ == t);
        assert(spec_has_type(cv, t));
    }
}

/// What the driver does after one finalize or order-poll response.
pub enum OrderStep {
    /// The order is `valid` and its certificate URL is known: download it.
    Download(String),
    /// Still processing: poll the order again after backoff.
    Again,
    /// The order failed; the run is in `Invalid` with the error set.
    Aborted,
}

impl OrderRun {
    /// Consume the finalize response or an order poll.  The order becomes
    /// `Valid` exactly when the CA reports `valid` with a certificate URL;
    /// `invalid` or an unreadable body is fatal; anything else is polled
    /// again.
    pub fn on_order_poll(&mut self, resp: &HttpResponse) -> (r: OrderStep)
        requires
            old(self).wf(),
            old(self).phase == Phase::Ready || old(self).phase == Phase::Finalizing,
        ensures
            final(self).wf(),
            final(self).identifiers == old(self).identifiers,
            ({
                let class = spec_classify(resp.status as int, resp.body@);
                let status_field = spec_json_str_field(resp.body@, "status"@);
                if class != ResponseClass::Success {
                    (r matches OrderStep::Aborted) && final(self).phase == Phase::Invalid
                        && final(self).error == Some(spec_error_of_class(class))
                } else if status_field is None {
                    (r matches OrderStep::Aborted) && final(self).phase == Phase::Invalid
                        && final(self).error == Some(AcmeError::Protocol)
                } else {
                    ({
                        let status = spec_status_of(status_field.unwrap());
                        let cert = spec_json_str_field(resp.body@, "certificate"@);
                        if status == Status::Invalid || status == Status::Unknown {
                            (r matches OrderStep::Aborted) && final(self).phase == Phase::Invalid
                                && final(self).error == Some(AcmeError::Protocol)
                        } else if status == Status::Valid && cert is Some {
                            (r matches OrderStep::Download(u) && u@ == cert.unwrap()) && final(self).phase == Phase::Valid && (final(self).certificate_url matches Some(
                                c,
                            ) && c@ == cert.unwrap())
                        } else {
                            (r matches OrderStep::Again) && final(self).phase == Phase::Finalizing
                        }
                    })
                }
            }),
    {
        let class = classify(resp.status, &resp.body);
        if !matches!(class, ResponseClass::Success) {
            self.fail(error_of_class(class));
            return OrderStep::Aborted;
        }
        let status = match crate::json::json_str_field(resp.body.as_slice(), "status") {
            Some(s) => s,
            None => {
                self.fail(AcmeError::Protocol);
                return OrderStep::Aborted;
            },
        };
        match crate::protocol::status_of(&status) {
            Status::Invalid | Status::Unknown => {
                self.fail(AcmeError::Protocol);
                OrderStep::Aborted
            },
            Status::Valid => {
                match crate::json::json_str_field(resp.body.as_slice(), "certificate") {
                    Some(cert) => {
                        self.certificate_url = Some(cert.clone());
                        self.phase = Phase::Valid;
                        OrderStep::Download(cert)
                    },
                    None => {
                        self.phase = Phase::Finalizing;
                        OrderStep::Again
                    },
                }
            },
            _ => {
                self.phase = Phase::Finalizing;
                OrderStep::Again
            },
        }
    }

    /// Consume the certificate download.  Succeeds exactly when the
    /// response succeeded and its body is a PEM chain beginning with a
    /// certificate header; the run then holds a complete entry naming
    /// exactly this order's hostname set, carrying the body as its chain
    /// and the given validity bounds.
    pub fn on_certificate(
        &mut self,
        resp: &HttpResponse,
        key_der: Vec<u8>,
        not_before: u64,
        not_after: u64,
    ) -> (r: Result<CertificateEntry, AcmeError>)
        requires
            old(self).wf(),
            old(self).phase == Phase::Valid,
        ensures
            final(self).wf(),
            final(self).identifiers == old(self).identifiers,
            ({
                let class = spec_classify(resp.status as int, resp.body@);
                if class != ResponseClass::Success {
                    (r matches Err(e) && e == spec_error_of_class(class)) && final(self).phase
                        == Phase::Invalid
                } else if !spec_pem_chain(resp.body@) {
                    (r matches Err(e) && e == AcmeError::Protocol) && final(self).phase
                        == Phase::Invalid
                } else {
                    (r matches Ok(entry) && entry.hostnames.deep_view() == old(self).identifiers.deep_view() && entry.chain_pem@ == resp.body@ && entry.key_der@
                        == key_der@ && entry.not_before == not_before && entry.not_after
                        == not_after) && final(self).phase == Phase::Downloaded
                }
            }),
    {
        let class = classify(resp.status, &resp.body);
        if !matches!(class, ResponseClass::Success) {
            let e = error_of_class(class);
            self.fail(e);
            return Err(e);
        }
        if !is_pem_chain(&resp.body) {
            self.fail(AcmeError::Protocol);
            return Err(AcmeError::Protocol);
        }
        let hostnames = clone_strings(&self.identifiers);
        let mut chain: Vec<u8> = Vec::new();
        chain.extend_from_slice(resp.body.as_slice());
        self.phase = Phase::Downloaded;
        Ok(CertificateEntry { hostnames, chain_pem: chain, key_der, not_before, not_after })
    }
}

/// An order is finalized only once every one of its authorizations is
/// valid: a well-formed run in or past `Ready` has validated them all.
pub proof fn lemma_finalize_needs_all_authorizations(run: OrderRun)
    requires
        run.wf(),
        spec_past_authz(run.phase),
    ensures
        run.done_authz == run.authz_urls@.len(),
{
}

/// Whether a downloaded body is a PEM chain: it begins with the PEM
/// certificate header line.
pub open spec fn spec_pem_chain(body: Seq<u8>) -> bool {
    let p = encode_utf8("-----BEGIN CERTIFICATE-----"@);
    body.len() >= p.len() && body.subrange(0, p.len() as int) == p
}

/// Check the PEM certificate header.
pub fn is_pem_chain(body: &Vec<u8>) -> (r: bool)
    ensures
        r == spec_pem_chain(body@),
{
    let prefix = "-----BEGIN CERTIFICATE-----".as_bytes();
    if body.len() < prefix.len() {
        proof {
            assert(!spec_pem_chain(body@));
        }
        return false;
    }
    let mut i: usize = 0;
    while i < prefix.len()
        invariant
            body@.len() >= prefix@.len(),
            i <= prefix@.len(),
            prefix@ == encode_utf8("-----BEGIN CERTIFICATE-----"@),
            forall|j: int| 0 <= j < i ==> body@[j] == prefix@[j],
        decreases prefix@.len() - i,
    {
        if body[i] != prefix[i] {
            proof {
                if spec_pem_chain(body@) {
                    assert(body@.subrange(0, prefix@.len() as int)[i as int] == prefix@[i as int]);
                }
            }
            return false;
        }
        i = i + 1;
    }
    proof {
        assert(body@.subrange(0, prefix@.len() as int) =~= prefix@);
    }
    true
}

/// Copy a hostname list; the copy reads character for character the same.
pub fn clone_strings(v: &Vec<String>) -> (r: Vec<String>)
    ensures
        r.deep_view() == v.deep_view(),
{
    let mut out: Vec<String> = Vec::new();
    let mut i: usize = 0;
    while i < v.len()
        invariant
            i <= v@.len(),
            out@.len() == i,
            forall|j: int| 0 <= j < i ==> out@[j]@ == v@[j]@,
        decreases v@.len() - i,
    {
        out.push(v[i].clone());
        i = i + 1;
    }
    proof {
        assert(out.deep_view() =~~= v.deep_view());
    }
    out
}

/// The new-order payload: one dns identifier per hostname, in order.
pub open spec fn spec_identifier_item(id: Seq<char>) -> Seq<u8> {
    encode_utf8("{\"type\":\"dns\",\"value\":\""@) + encode_utf8(id) + encode_utf8("\"}"@)
}

pub open spec fn spec_identifier_items(ids: Seq<Seq<char>>) -> Seq<u8>
    decreases ids.len(),
{
    if ids.len() == 0 {
        Seq::empty()
    } else if ids.len() == 1 {
        spec_identifier_item(ids[0])
    } else {
        spec_identifier_item(ids[0]) + encode_utf8(","@) + spec_identifier_items(ids.drop_first())
    }
}

pub open spec fn spec_order_payload(ids: Seq<Seq<char>>) -> Seq<u8> {
    encode_utf8("{\"identifiers\":["@) + spec_identifier_items(ids) + encode_utf8("]}"@)
}

fn push_identifier_items(out: &mut Vec<u8>, ids: &Vec<String>, i: usize)
    requires
        i <= ids@.len(),
        crate::jose::json_safe_all(ids.deep_view()),
    ensures
        final(out)@ == old(out)@ + spec_identifier_items(ids.deep_view().skip(i as int)),
    decreases ids@.len() - i,
{
    if i < ids.len() {
        push_str_bytes(out, "{\"type\":\"dns\",\"value\":\"");
        push_str_bytes(out, ids[i].as_str());
        push_str_bytes(out, "\"}");
        proof {
            assert(ids.deep_view().skip(i as int)[0] == ids@[i as int]@);
        }
        if i + 1 < ids.len() {
            push_str_bytes(out, ",");
            push_identifier_items(out, ids, i + 1);
            proof {
                assert(ids.deep_view().skip(i as int).drop_first() =~= ids.deep_view().skip(
                    i as int + 1,
                ));
            }
        } else {
            proof {
                assert(ids.deep_view().skip(i as int).len() == 1);
            }
        }
    } else {
        proof {
            assert(ids.deep_view().skip(i as int).len() == 0);
        }
    }
}

/// Build the new-order payload for a hostname set.  The identifiers are
/// embedded unescaped, so each must be JSON-safe.
pub fn order_payload(ids: &Vec<String>) -> (r: Vec<u8>)
    requires
        crate::jose::json_safe_all(ids.deep_view()),
    ensures
        r@ == spec_order_payload(ids.deep_view()),
{
    let mut out: Vec<u8> = Vec::new();
    push_str_bytes(&mut out, "{\"identifiers\":[");
    push_identifier_items(&mut out, ids, 0);
    push_str_bytes(&mut out, "]}");
    proof {
        assert(ids.deep_view().skip(0) =~= ids.deep_view());
    }
    out
}

/// The finalize payload: the CSR in base64url.
pub open spec fn spec_finalize_payload(csr: Seq<u8>) -> Seq<u8> {
    encode_utf8("{\"csr\":\""@) + spec_b64url(csr) + encode_utf8("\"}"@)
}

/// Build the finalize payload for a CSR.
pub fn finalize_payload(csr: &Vec<u8>) -> (r: Vec<u8>)
    ensures
        r@ == spec_finalize_payload(csr@),
{
    let mut out: Vec<u8> = Vec::new();
    push_str_bytes(&mut out, "{\"csr\":\"");
    push_b64(&mut out, csr.as_slice());
    push_str_bytes(&mut out, "\"}");
    out
}

} // verus!
