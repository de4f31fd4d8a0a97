//! The per-listener client value: the account key and the nonce pool,
//! created at listener startup and shared by reference with every
//! orchestrator task for the listener's lifetime.  Signing a request here
//! consumes exactly one previously unused nonce and binds it into the
//! envelope's protected header.

use vstd::prelude::*;
use vstd::utf8::encode_utf8;

use crate::jose::{
    is_json_safe, json_safe_bytes, signed_request_kid, spec_protected_kid, spec_signed_envelope,
    AccountKey,
};
use crate::nonce::{spec_contains_str, NonceManager};

verus! {

/// The process-wide ACME client state.
pub struct AcmeClient {
    pub key: AccountKey,
    pub nonces: NonceManager,
}

impl AcmeClient {
    /// The key is well formed, the nonce pool keeps its no-reuse
    /// invariant, and the key id and the nonce on hand, where present,
    /// may stand inside a JSON string unescaped.
    pub open spec fn wf(self) -> bool {
        &&& self.key.wf()
        &&& self.nonces.wf()
        &&& match self.key.kid {
            Some(k) => json_safe_bytes(encode_utf8(k@)),
            None => true,
        }
        &&& match self.nonces.current {
            Some(c) => json_safe_bytes(encode_utf8(c@)),
            None => true,
        }
    }

    /// A client whose account is registered carries a key id.
    pub open spec fn registered(self) -> bool {
        self.key.kid is Some
    }

    pub fn new(key: AccountKey) -> (r: AcmeClient)
        requires
            key.wf(),
            key.kid matches Some(k) ==> json_safe_bytes(encode_utf8(k@)),
        ensures
            r.wf(),
            r.key == key,
            r.nonces.consumed@.len() == 0,
    {
        AcmeClient { key, nonces: NonceManager::new() }
    }

    /// Sign one request, consuming the nonce on hand.  The envelope binds
    /// the account's key id, the target URL and exactly that nonce, which
    /// is appended to the consumed log and differs from every nonce any
    /// earlier request consumed.  Nothing is signed without an unused
    /// nonce on hand, and a failing signing primitive consumes the nonce
    /// of the attempt all the same.
    pub fn sign_request(&mut self, url: &str, payload: &Vec<u8>) -> (r: Option<(Vec<u8>, String)>)
        requires
            old(self).wf(),
            old(self).registered(),
            json_safe_bytes(encode_utf8(url@)),
        ensures
            final(self).wf(),
            final(self).key == old(self).key,
            old(self).nonces.current is None ==> (r is None && final(self).nonces.current is None
                && final(self).nonces.consumed@ == old(self).nonces.consumed@),
            old(self).nonces.current matches Some(n) ==> (final(self).nonces.consumed@ == old(
                self,
            ).nonces.consumed@.push(n) && !spec_contains_str(old(self).nonces.consumed@, n@)
                && (match r {
                Some(p) => p.1 == n && Some(p.0@) == spec_signed_envelope(
                    old(self).key.seed@,
                    spec_protected_kid(old(self).key.kid.unwrap()@, n@, url@),
                    payload@,
                ),
                None => spec_signed_envelope(
                    old(self).key.seed@,
                    spec_protected_kid(old(self).key.kid.unwrap()@, n@, url@),
                    payload@,
                ) is None,
            })),
    {
        let nonce = match self.nonces.take() {
            Some(n) => n,
            None => {
                return None;
            },
        };
        let kid = match &self.key.kid {
            Some(k) => k.clone(),
            None => {
                return None;
            },
        };
        match signed_request_kid(&self.key, kid.as_str(), nonce.as_str(), url, payload) {
            Some(env) => Some((env, nonce)),
            None => None,
        }
    }

    /// Accept the replay-nonce of a response for the next request.  A
    /// value some earlier request already consumed, or one that could not
    /// stand inside a JSON string unescaped, is dropped, leaving the nonce
    /// on hand as it was.
    pub fn accept_nonce(&mut self, n: String)
        requires
            old(self).wf(),
        ensures
            final(self).wf(),
            final(self).key == old(self).key,
            final(self).nonces.consumed@ == old(self).nonces.consumed@,
            !spec_contains_str(old(self).nonces.consumed@, n@) && json_safe_bytes(
                encode_utf8(n@),
            ) ==> final(self).nonces.current == Some(n),
            spec_contains_str(old(self).nonces.consumed@, n@) || !json_safe_bytes(
                encode_utf8(n@),
            ) ==> final(self).nonces.current == old(self).nonces.current,
    {
        if is_json_safe(n.as_str()) {
            self.nonces.offer(n);
        }
    }
}

} // verus!
