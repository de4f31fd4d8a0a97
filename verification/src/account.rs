//! Account bootstrap: the registration request, the key id the CA assigns,
//! and the persisted account state.  Registration happens once; persisted
//! state found in the injected storage is reused and registration skipped.

use vstd::prelude::*;
use vstd::utf8::encode_utf8;

use crate::jose::{push_str_bytes, AccountKey};
use crate::protocol::{
    classify, spec_classify, AcmeError, HttpResponse, ResponseClass,
};

verus! {

/// One quoted contact entry.
pub open spec fn spec_contact_item(c: Seq<char>) -> Seq<u8> {
    encode_utf8("\""@) + encode_utf8(c) + encode_utf8("\""@)
}

pub open spec fn spec_contact_items(cs: Seq<Seq<char>>) -> Seq<u8>
    decreases cs.len(),
{
    if cs.len() == 0 {
        Seq::empty()
    } else if cs.len() == 1 {
        spec_contact_item(cs[0])
    } else {
        spec_contact_item(cs[0]) + encode_utf8(","@) + spec_contact_items(cs.drop_first())
    }
}

/// The account-creation payload: the contact list and the
/// terms-of-service acknowledgement.
pub open spec fn spec_account_payload(cs: Seq<Seq<char>>) -> Seq<u8> {
    encode_utf8("{\"contact\":["@) + spec_contact_items(cs) + encode_utf8(
        "],\"termsOfServiceAgreed\":true}"@,
    )
}

fn push_contact_items(out: &mut Vec<u8>, cs: &Vec<String>, i: usize)
    requires
        i <= cs@.len(),
        crate::jose::json_safe_all(cs.deep_view()),
    ensures
        final(out)@ == old(out)@ + spec_contact_items(cs.deep_view().skip(i as int)),
    decreases cs@.len() - i,
{
    if i < cs.len() {
        push_str_bytes(out, "\"");
        push_str_bytes(out, cs[i].as_str());
        push_str_bytes(out, "\"");
        proof {
            assert(cs.deep_view().skip(i as int)[0] == cs@[i as int]@);
        }
        if i + 1 < cs.len() {
            push_str_bytes(out, ",");
            push_contact_items(out, cs, i + 1);
            proof {
                assert(cs.deep_view().skip(i as int).drop_first() =~= cs.deep_view().skip(
                    i as int + 1,
                ));
            }
        } else {
            proof {
                assert(cs.deep_view().skip(i as int).len() == 1);
            }
        }
    } else {
        proof {
            assert(cs.deep_view().skip(i as int).len() == 0);
        }
    }
}

/// Build the account-creation payload for the configured contacts.  The
/// contacts are embedded unescaped, so each must be JSON-safe.
pub fn account_payload(contacts: &Vec<String>) -> (r: Vec<u8>)
    requires
        crate::jose::json_safe_all(contacts.deep_view()),
    ensures
        r@ == spec_account_payload(contacts.deep_view()),
{
    let mut out: Vec<u8> = Vec::new();
    push_str_bytes(&mut out, "{\"contact\":[");
    push_contact_items(&mut out, contacts, 0);
    push_str_bytes(&mut out, "],\"termsOfServiceAgreed\":true}");
    proof {
        assert(contacts.deep_view().skip(0) =~= contacts.deep_view());
    }
    out
}

/// Consume the registration response: on success the key id is taken from
/// the response location and persists for the process lifetime; a response
/// without a location, or any failure, leaves the key unregistered.
pub fn on_account_response(key: &mut AccountKey, resp: &HttpResponse) -> (r: Result<
    (),
    AcmeError,
>)
    requires
        old(key).wf(),
    ensures
        final(key).wf(),
        final(key).seed@ == old(key).seed@,
        ({
            let class = spec_classify(resp.status as int, resp.body@);
            if class != ResponseClass::Success {
                (r matches Err(e) && e == crate::order::spec_error_of_class(class)) && final(key).kid == old(key).kid
            } else {
                match resp.location {
                    Some(l) => (r is Ok) && (final(key).kid matches Some(k) && k@ == l@),
                    None => (r matches Err(e) && e == AcmeError::Protocol) && final(key).kid
                        == old(key).kid,
                }
            }
        }),
{
    let class = classify(resp.status, &resp.body);
    if !matches!(class, ResponseClass::Success) {
        return Err(crate::order::error_of_class(class));
    }
    match &resp.location {
        Some(l) => {
            key.set_kid(l.clone());
            Ok(())
        },
        None => Err(AcmeError::Protocol),
    }
}

/// The persisted account state: the key seed, and the key id when one was
/// assigned.  Encoded as the seed length, the seed, then the key id bytes.
pub open spec fn spec_account_encoding(seed: Seq<u8>, kid: Option<Seq<char>>) -> Seq<u8> {
    seq![(seed.len() % 256) as u8] + seed + (match kid {
        Some(k) => seq![1u8] + encode_utf8(k),
        None => seq![0u8],
    })
}

/// Serialize account state for the injected storage.  The seed of a P-256
/// account key is 32 bytes, which the length prefix requires.
pub fn encode_account(key: &AccountKey) -> (r: Vec<u8>)
    requires
        key.seed@.len() < 256,
    ensures
        r@ == spec_account_encoding(
            key.seed@,
            match key.kid {
                Some(k) => Some(k@),
                None => None,
            },
        ),
{
    let mut out: Vec<u8> = Vec::new();
    let len8: u8 = (key.seed.len() % 256) as u8;
    out.push(len8);
    out.extend_from_slice(key.seed.as_slice());
    match &key.kid {
        Some(k) => {
            out.push(1u8);
            push_str_bytes(&mut out, k.as_str());
        },
        None => {
            out.push(0u8);
        },
    }
    proof {
        assert(out@ =~= spec_account_encoding(
            key.seed@,
            match key.kid {
                Some(k) => Some(k@),
                None => None,
            },
        ));
    }
    out
}

/// What an encoded account state holds: the seed and, when a key id was
/// assigned, its UTF-8 bytes.
pub open spec fn spec_account_decoding(data: Seq<u8>) -> Option<(Seq<u8>, Option<Seq<u8>>)> {
    if data.len() < 1 {
        None
    } else {
        let n = data[0] as int;
        if data.len() < n + 2 {
            None
        } else {
            let seed = data.subrange(1, n + 1);
            if data[n + 1] == 1 {
                Some((seed, Some(data.skip(n + 2))))
            } else if data[n + 1] == 0 && data.len() == n + 2 {
                Some((seed, None))
            } else {
                None
            }
        }
    }
}

/// Read persisted account state back.  Succeeds exactly on the bodies the
/// encoding produces, and then returns exactly what was encoded.
pub fn decode_account(data: &Vec<u8>) -> (r: Option<(Vec<u8>, Option<Vec<u8>>)>)
    ensures
        match r {
            Some(p) => spec_account_decoding(data@) matches Some(q) && p.0@ == q.0 && (match p
                .1 {
                Some(k) => q.1 == Some(k@),
                None => q.1 is None,
            }),
            None => spec_account_decoding(data@) is None,
        },
{
    if data.len() < 1 {
        return None;
    }
    let n = data[0] as usize;
    if data.len() < n + 2 {
        return None;
    }
    let mut seed: Vec<u8> = Vec::new();
    let mut i: usize = 0;
    while i < n
        invariant
            n + 2 <= data@.len(),
            i <= n,
            seed@.len() == i,
            forall|j: int| 0 <= j < i ==> seed@[j] == data@[j + 1],
        decreases n - i,
    {
        seed.push(data[i + 1]);
        i = i + 1;
    }
    proof {
        assert(seed@ =~= data@.subrange(1, n as int + 1));
    }
    if data[n + 1] == 1 {
        let mut kid: Vec<u8> = Vec::new();
        let mut j: usize = n + 2;
        while j < data.len()
            invariant
                n + 2 <= j <= data@.len(),
                kid@.len() == j - (n + 2),
                forall|k: int| 0 <= k < kid@.len() ==> kid@[k] == data@[k + n + 2],
            decreases data@.len() - j,
        {
            kid.push(data[j]);
            j = j + 1;
        }
        proof {
            assert(kid@ =~= data@.skip(n as int + 2));
        }
        Some((seed, Some(kid)))
    } else if data[n + 1] == 0 && data.len() == n + 2 {
        Some((seed, None))
    } else {
        None
    }
}

/// Persisted account state reads back byte for byte as it was written:
/// decoding an encoding yields the same seed and the UTF-8 bytes of the
/// same key id.
pub proof fn lemma_account_round_trip(seed: Seq<u8>, kid: Option<Seq<char>>)
    requires
        seed.len() < 256,
    ensures
        spec_account_decoding(spec_account_encoding(seed, kid)) == Some(
            (
                seed,
                match kid {
                    Some(k) => Some(encode_utf8(k)),
                    None => None,
                },
            ),
        ),
{
    let data = spec_account_encoding(seed, kid);
    let n = seed.len() as int;
    assert(data[0] == n as u8);
    assert(data[0] as int == n);
    assert(data.subrange(1, n + 1) =~= seed);
    match kid {
        Some(k) => {
            assert(data[n + 1] == 1);
            assert(data.skip(n + 2) =~= encode_utf8(k));
        },
        None => {
            assert(data[n + 1] == 0);
            assert(data.len() == n + 2);
        },
    }
}

} // verus!
