//! Trusted wrappers for the cryptographic primitives the ACME core needs:
//! SHA-256 digests and deterministic ES256 (ECDSA P-256) signatures.  Each
//! result is a function of its arguments alone, so it is given a name that
//! the callers' contracts speak of exactly.

use p256::ecdsa::signature::Signer;
use p256::elliptic_curve::sec1::ToEncodedPoint;
use sha2::Digest;
use vstd::prelude::*;

verus! {

pub uninterp spec fn spec_sha256(data: Seq<u8>) -> Seq<u8>;

pub uninterp spec fn spec_p256_seed_ok(seed: Seq<u8>) -> bool;

pub uninterp spec fn spec_es256_sig(seed: Seq<u8>, msg: Seq<u8>) -> Option<Seq<u8>>;

pub uninterp spec fn spec_p256_pub_x(seed: Seq<u8>) -> Seq<u8>;

pub uninterp spec fn spec_p256_pub_y(seed: Seq<u8>) -> Seq<u8>;

/// Relies on sha2::Sha256 (FIPS 180-4 SHA-256): the digest is exactly 32
/// bytes and depends on the input bytes alone.
#[verifier::external_body]
pub(crate) fn sha256(data: &[u8]) -> (r: Vec<u8>)
    ensures
        r@ == spec_sha256(data@),
        r@.len() == 32,
{
    sha2::Sha256::digest(data).to_vec()
}

/// Relies on p256::ecdsa::SigningKey::from_slice: whether a byte string is a
/// well-formed non-zero P-256 secret scalar depends on the bytes alone.
#[verifier::external_body]
pub(crate) fn p256_seed_ok(seed: &[u8]) -> (r: bool)
    ensures
        r == spec_p256_seed_ok(seed@),
{
    p256::ecdsa::SigningKey::from_slice(seed).is_ok()
}

/// Relies on p256::ecdsa::SigningKey::try_sign, which signs with the
/// deterministic ephemeral scalar of RFC 6979, and Signature::to_bytes,
/// which yields the fixed-width r||s form that JWS carries: the outcome
/// depends on the key and the message alone.
#[verifier::external_body]
pub(crate) fn es256_sign(seed: &[u8], msg: &[u8]) -> (r: Option<Vec<u8>>)
    requires
        spec_p256_seed_ok(seed@),
    ensures
        match r {
            Some(sig) => spec_es256_sig(seed@, msg@) == Some(sig@) && sig@.len() == 64,
            None => spec_es256_sig(seed@, msg@) is None,
        },
{
    let key = match p256::ecdsa::SigningKey::from_slice(seed) {
        Ok(key) => key,
        Err(_) => return None,
    };
    let sig: Result<p256::ecdsa::Signature, _> = key.try_sign(msg);
    sig.ok().map(|s| s.to_bytes().to_vec())
}

/// Relies on p256::ecdsa::SigningKey::verifying_key and
/// elliptic_curve::sec1::ToEncodedPoint::to_encoded_point(false): the
/// public point of a valid non-zero scalar is never the identity, and its
/// uncompressed SEC1 encoding always carries both 32-byte coordinates, so
/// for a valid seed the derivation always succeeds, with the coordinates
/// determined by the seed alone.
#[verifier::external_body]
pub(crate) fn p256_public_xy(seed: &[u8]) -> (r: Option<(Vec<u8>, Vec<u8>)>)
    requires
        spec_p256_seed_ok(seed@),
    ensures
        match r {
            Some(xy) => xy.0@ == spec_p256_pub_x(seed@) && xy.1@ == spec_p256_pub_y(seed@)
                && xy.0@.len() == 32 && xy.1@.len() == 32,
            None => false,
        },
{
    let key = match p256::ecdsa::SigningKey::from_slice(seed) {
        Ok(key) => key,
        Err(_) => return None,
    };
    let point = key.verifying_key().to_encoded_point(false);
    match (point.x(), point.y()) {
        (Some(x), Some(y)) => Some((x.to_vec(), y.to_vec())),
        _ => None,
    }
}

} // verus!
