//! The JWS signer: every mutating or lookup request to the certificate
//! authority is wrapped in a signed envelope in flattened JSON serialization
//! `{"protected":..,"payload":..,"signature":..}`.  The protected header
//! carries `{alg, nonce, url, kid-or-jwk}`: the bare public key (`jwk`) only
//! for the account-creation request, the CA-assigned key id (`kid`) for all
//! later ones.  Idempotent reads use the same path with an empty payload
//! (POST-as-GET).

use vstd::prelude::*;
use vstd::utf8::encode_utf8;

use crate::b64::{b64url_encode, spec_b64url};
use crate::crypto::{
    es256_sign, p256_public_xy, p256_seed_ok, sha256, spec_es256_sig, spec_p256_pub_x,
    spec_p256_pub_y, spec_p256_seed_ok, spec_sha256,
};

verus! {

/// The ACME account keypair and, once the CA has assigned one, its key id.
/// Created once per listener lifetime; the keypair never changes afterward.
pub struct AccountKey {
    /// The raw P-256 secret scalar.
    pub seed: Vec<u8>,
    /// The key id the CA assigned at registration, if any yet.
    pub kid: Option<String>,
}

impl AccountKey {
    /// The seed is a well-formed P-256 secret scalar.
    pub open spec fn wf(self) -> bool {
        spec_p256_seed_ok(self.seed@)
    }

    /// Accepts a seed exactly when it is a valid P-256 secret scalar.
    pub fn new(seed: Vec<u8>) -> (r: Option<AccountKey>)
        ensures
            r is Some <==> spec_p256_seed_ok(seed@),
            r matches Some(k) ==> k.wf() && k.seed@ == seed@ && k.kid is None,
    {
        if p256_seed_ok(seed.as_slice()) {
            Some(AccountKey { seed, kid: None })
        } else {
            None
        }
    }

    /// Record the key id the CA assigned; the keypair itself is unchanged.
    pub fn set_kid(&mut self, kid: String)
        ensures
            final(self).seed@ == old(self).seed@,
            final(self).kid == Some(kid),
    {
        self.kid = Some(kid);
    }
}

/// The canonical JWK of a P-256 public key, fields in the lexicographic
/// order RFC 7638 fixes for thumbprints.
pub open spec fn spec_jwk_json(x: Seq<u8>, y: Seq<u8>) -> Seq<u8> {
    encode_utf8("{\"crv\":\"P-256\",\"kty\":\"EC\",\"x\":\""@) + spec_b64url(x) + encode_utf8(
        "\",\"y\":\""@,
    ) + spec_b64url(y) + encode_utf8("\"}"@)
}

/// The protected header of a request signed with the account's key id.
pub open spec fn spec_protected_kid(kid: Seq<char>, nonce: Seq<char>, url: Seq<char>) -> Seq<u8> {
    encode_utf8("{\"alg\":\"ES256\",\"kid\":\""@) + encode_utf8(kid) + encode_utf8(
        "\",\"nonce\":\""@,
    ) + encode_utf8(nonce) + encode_utf8("\",\"url\":\""@) + encode_utf8(url) + encode_utf8(
        "\"}"@,
    )
}

/// The protected header of the account-creation request, carrying the bare
/// public key instead of a key id.
pub open spec fn spec_protected_jwk(x: Seq<u8>, y: Seq<u8>, nonce: Seq<char>, url: Seq<char>) -> Seq<
    u8,
> {
    encode_utf8("{\"alg\":\"ES256\",\"jwk\":"@) + spec_jwk_json(x, y) + encode_utf8(
        ",\"nonce\":\""@,
    ) + encode_utf8(nonce) + encode_utf8("\",\"url\":\""@) + encode_utf8(url) + encode_utf8(
        "\"}"@,
    )
}

/// What is signed: base64url(protected) "." base64url(payload).
pub open spec fn spec_signing_input(protected: Seq<u8>, payload: Seq<u8>) -> Seq<u8> {
    spec_b64url(protected) + encode_utf8("."@) + spec_b64url(payload)
}

/// The flattened JWS serialization carrying the given signature.
pub open spec fn spec_envelope_json(protected: Seq<u8>, payload: Seq<u8>, sig: Seq<u8>) -> Seq<
    u8,
> {
    encode_utf8("{\"protected\":\""@) + spec_b64url(protected) + encode_utf8(
        "\",\"payload\":\""@,
    ) + spec_b64url(payload) + encode_utf8("\",\"signature\":\""@) + spec_b64url(sig)
        + encode_utf8("\"}"@)
}

/// The envelope a given key produces for a given protected header and
/// payload: determined by them alone, absent only where the signing
/// primitive reports failure.
pub open spec fn spec_signed_envelope(seed: Seq<u8>, protected: Seq<u8>, payload: Seq<u8>) -> Option<
    Seq<u8>,
> {
    match spec_es256_sig(seed, spec_signing_input(protected, payload)) {
        Some(sig) => Some(spec_envelope_json(protected, payload, sig)),
        None => None,
    }
}

/// Bytes that may stand inside a JSON string without escaping: printable
/// ASCII without the quote and the backslash.  Every value the protocol
/// embeds in a document here — URLs, base64url nonces and tokens, key ids,
/// mailto addresses, dns identifiers — lies in this range.
pub open spec fn json_safe_bytes(b: Seq<u8>) -> bool {
    forall|i: int| 0 <= i < b.len() ==> 32 <= #[trigger] b[i] <= 126 && b[i] != 34 && b[i] != 92
}

/// Every string of the list may stand inside a JSON string unescaped.
pub open spec fn json_safe_all(ss: Seq<Seq<char>>) -> bool {
    forall|i: int| 0 <= i < ss.len() ==> json_safe_bytes(encode_utf8(#[trigger] ss[i]))
}

/// Check that a string may stand inside a JSON string unescaped.
pub fn is_json_safe(s: &str) -> (r: bool)
    ensures
        r == json_safe_bytes(encode_utf8(s@)),
{
    let b = s.as_bytes();
    let mut i: usize = 0;
    while i < b.len()
        invariant
            b@ == encode_utf8(s@),
            i <= b@.len(),
            forall|j: int| 0 <= j < i ==> 32 <= #[trigger] b@[j] <= 126 && b@[j] != 34 && b@[j]
                != 92,
        decreases b@.len() - i,
    {
        let c = b[i];
        if c < 32 || c > 126 || c == 34 || c == 92 {
            return false;
        }
        i = i + 1;
    }
    true
}

/// Append the UTF-8 bytes of a string slice.
pub(crate) fn push_str_bytes(out: &mut Vec<u8>, s: &str)
    ensures
        final(out)@ == old(out)@ + encode_utf8(s@),
{
    out.extend_from_slice(s.as_bytes());
}

/// Append the base64url encoding of `data`.
pub(crate) fn push_b64(out: &mut Vec<u8>, data: &[u8])
    ensures
        final(out)@ == old(out)@ + spec_b64url(data@),
{
    let mut enc = b64url_encode(data);
    out.append(&mut enc);
}

/// Build the canonical JWK document for the public key coordinates.
pub fn jwk_json(x: &Vec<u8>, y: &Vec<u8>) -> (r: Vec<u8>)
    ensures
        r@ == spec_jwk_json(x@, y@),
{
    let mut out: Vec<u8> = Vec::new();
    push_str_bytes(&mut out, "{\"crv\":\"P-256\",\"kty\":\"EC\",\"x\":\"");
    push_b64(&mut out, x.as_slice());
    push_str_bytes(&mut out, "\",\"y\":\"");
    push_b64(&mut out, y.as_slice());
    push_str_bytes(&mut out, "\"}");
    out
}

/// Build the protected header naming the account by its key id.  The
/// values are embedded unescaped, so each must be JSON-safe.
pub fn protected_kid(kid: &str, nonce: &str, url: &str) -> (r: Vec<u8>)
    requires
        json_safe_bytes(encode_utf8(kid@)),
        json_safe_bytes(encode_utf8(nonce@)),
        json_safe_bytes(encode_utf8(url@)),
    ensures
        r@ == spec_protected_kid(kid@, nonce@, url@),
{
    let mut out: Vec<u8> = Vec::new();
    push_str_bytes(&mut out, "{\"alg\":\"ES256\",\"kid\":\"");
    push_str_bytes(&mut out, kid);
    push_str_bytes(&mut out, "\",\"nonce\":\"");
    push_str_bytes(&mut out, nonce);
    push_str_bytes(&mut out, "\",\"url\":\"");
    push_str_bytes(&mut out, url);
    push_str_bytes(&mut out, "\"}");
    out
}

/// Build the protected header carrying the bare public key.  The nonce
/// and URL are embedded unescaped, so each must be JSON-safe.
pub fn protected_jwk(x: &Vec<u8>, y: &Vec<u8>, nonce: &str, url: &str) -> (r: Vec<u8>)
    requires
        json_safe_bytes(encode_utf8(nonce@)),
        json_safe_bytes(encode_utf8(url@)),
    ensures
        r@ == spec_protected_jwk(x@, y@, nonce@, url@),
{
    let mut out: Vec<u8> = Vec::new();
    push_str_bytes(&mut out, "{\"alg\":\"ES256\",\"jwk\":");
    let mut jwk = jwk_json(x, y);
    out.append(&mut jwk);
    push_str_bytes(&mut out, ",\"nonce\":\"");
    push_str_bytes(&mut out, nonce);
    push_str_bytes(&mut out, "\",\"url\":\"");
    push_str_bytes(&mut out, url);
    push_str_bytes(&mut out, "\"}");
    out
}

/// Sign a protected header and payload into a flattened JWS envelope.
/// Returns the envelope exactly when the signing primitive succeeds.
pub fn sign_envelope(key: &AccountKey, protected: &Vec<u8>, payload: &Vec<u8>) -> (r: Option<
    Vec<u8>,
>)
    requires
        key.wf(),
    ensures
        match r {
            Some(env) => Some(env@) == spec_signed_envelope(key.seed@, protected@, payload@),
            None => spec_signed_envelope(key.seed@, protected@, payload@) is None,
        },
{
    let mut input: Vec<u8> = Vec::new();
    push_b64(&mut input, protected.as_slice());
    push_str_bytes(&mut input, ".");
    push_b64(&mut input, payload.as_slice());
    match es256_sign(key.seed.as_slice(), input.as_slice()) {
        Some(sig) => {
            let mut out: Vec<u8> = Vec::new();
            push_str_bytes(&mut out, "{\"protected\":\"");
            push_b64(&mut out, protected.as_slice());
            push_str_bytes(&mut out, "\",\"payload\":\"");
            push_b64(&mut out, payload.as_slice());
            push_str_bytes(&mut out, "\",\"signature\":\"");
            push_b64(&mut out, sig.as_slice());
            push_str_bytes(&mut out, "\"}");
            Some(out)
        },
        None => None,
    }
}

/// Sign a request under the account's key id, consuming the given nonce.
/// Succeeds exactly when the signing primitive does.
pub fn signed_request_kid(key: &AccountKey, kid: &str, nonce: &str, url: &str, payload: &Vec<
    u8,
>) -> (r: Option<Vec<u8>>)
    requires
        key.wf(),
        json_safe_bytes(encode_utf8(kid@)),
        json_safe_bytes(encode_utf8(nonce@)),
        json_safe_bytes(encode_utf8(url@)),
    ensures
        match r {
            Some(env) => Some(env@) == spec_signed_envelope(
                key.seed@,
                spec_protected_kid(kid@, nonce@, url@),
                payload@,
            ),
            None => spec_signed_envelope(
                key.seed@,
                spec_protected_kid(kid@, nonce@, url@),
                payload@,
            ) is None,
        },
{
    let protected = protected_kid(kid, nonce, url);
    sign_envelope(key, &protected, payload)
}

/// Sign the account-creation request, carrying the bare public key.
/// Succeeds exactly when the signing primitive does.
pub fn signed_request_jwk(key: &AccountKey, nonce: &str, url: &str, payload: &Vec<u8>) -> (r:
    Option<Vec<u8>>)
    requires
        key.wf(),
        json_safe_bytes(encode_utf8(nonce@)),
        json_safe_bytes(encode_utf8(url@)),
    ensures
        match r {
            Some(env) => Some(env@) == spec_signed_envelope(
                key.seed@,
                spec_protected_jwk(
                    spec_p256_pub_x(key.seed@),
                    spec_p256_pub_y(key.seed@),
                    nonce@,
                    url@,
                ),
                payload@,
            ),
            None => spec_signed_envelope(
                key.seed@,
                spec_protected_jwk(
                    spec_p256_pub_x(key.seed@),
                    spec_p256_pub_y(key.seed@),
                    nonce@,
                    url@,
                ),
                payload@,
            ) is None,
        },
{
    match p256_public_xy(key.seed.as_slice()) {
        Some(xy) => {
            let protected = protected_jwk(&xy.0, &xy.1, nonce, url);
            sign_envelope(key, &protected, payload)
        },
        None => None,
    }
}

/// The RFC 7638 thumbprint of the account's public key: the SHA-256 digest
/// of its canonical JWK document.
pub open spec fn spec_thumbprint(seed: Seq<u8>) -> Seq<u8> {
    spec_sha256(spec_jwk_json(spec_p256_pub_x(seed), spec_p256_pub_y(seed)))
}

/// The key authorization of a challenge token for this account:
/// token "." base64url(thumbprint).
pub open spec fn spec_key_authorization(token: Seq<char>, seed: Seq<u8>) -> Seq<u8> {
    encode_utf8(token) + encode_utf8("."@) + spec_b64url(spec_thumbprint(seed))
}

/// The digest a TLS-ALPN-01 challenge certificate must embed: the SHA-256
/// digest of the key authorization.
pub open spec fn spec_challenge_digest(token: Seq<char>, seed: Seq<u8>) -> Seq<u8> {
    spec_sha256(spec_key_authorization(token, seed))
}

/// Compute the key authorization of a challenge token; for a well-formed
/// key this always succeeds.
pub fn key_authorization(key: &AccountKey, token: &str) -> (r: Option<Vec<u8>>)
    requires
        key.wf(),
    ensures
        r is Some,
        r matches Some(v) ==> v@ == spec_key_authorization(token@, key.seed@),
{
    match p256_public_xy(key.seed.as_slice()) {
        Some(xy) => {
            let jwk = jwk_json(&xy.0, &xy.1);
            let thumb = sha256(jwk.as_slice());
            let mut out: Vec<u8> = Vec::new();
            push_str_bytes(&mut out, token);
            push_str_bytes(&mut out, ".");
            push_b64(&mut out, thumb.as_slice());
            Some(out)
        },
        None => None,
    }
}

/// Compute the digest a TLS-ALPN-01 challenge certificate embeds; for a
/// well-formed key this always succeeds.
pub fn challenge_digest(key: &AccountKey, token: &str) -> (r: Option<Vec<u8>>)
    requires
        key.wf(),
    ensures
        r is Some,
        r matches Some(v) ==> v@ == spec_challenge_digest(token@, key.seed@) && v@.len() == 32,
{
    match key_authorization(key, token) {
        Some(auth) => Some(sha256(auth.as_slice())),
        None => None,
    }
}

} // verus!
