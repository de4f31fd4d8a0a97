//! The TLS-ALPN-01 challenge resolver and the listener adapter's
//! certificate selection.  The resolver keeps a short-lived table of
//! ephemeral challenge certificates, keyed by hostname, consulted only when
//! the negotiated protocol is the ACME validation protocol; each entry is
//! removed as soon as its authorization resolves, never outliving the
//! challenge it serves.

use vstd::prelude::*;

use crate::cache::{spec_covered, spec_lookup, CertificateCache, CertificateEntry};
use crate::nonce::spec_contains_str;

verus! {

/// The ALPN protocol name a validation-only connection negotiates.
pub open spec fn spec_acme_alpn() -> Seq<char> {
    "acme-tls/1"@
}

/// No two table entries are keyed by the same hostname.
pub open spec fn unique_hosts(entries: Seq<(String, Vec<u8>)>) -> bool {
    forall|i: int, j: int|
        0 <= i < j < entries.len() ==> (#[trigger] entries[i].0)@ != (#[trigger] entries[j].0)@
}

/// The challenge certificate registered for `h`, if any: the bytes of the
/// self-signed certificate whose critical extension holds the
/// key-authorization digest.
pub open spec fn spec_challenge_cert(entries: Seq<(String, Vec<u8>)>, h: Seq<char>) -> Option<
    Seq<u8>,
>
    decreases entries.len(),
{
    if entries.len() == 0 {
        None
    } else if entries[0].0@ == h {
        Some(entries[0].1@)
    } else {
        spec_challenge_cert(entries.drop_first(), h)
    }
}

proof fn lemma_challenge_skip(entries: Seq<(String, Vec<u8>)>, h: Seq<char>, i: int)
    requires
        0 <= i <= entries.len(),
        forall|j: int| 0 <= j < i ==> (#[trigger] entries[j].0)@ != h,
    ensures
        spec_challenge_cert(entries, h) == spec_challenge_cert(entries.skip(i), h),
    decreases i,
{
    if i > 0 {
        lemma_challenge_skip(entries, h, i - 1);
        assert(entries.skip(i - 1).drop_first() =~= entries.skip(i));
        assert(entries.skip(i - 1)[0] == entries[i - 1]);
    } else {
        assert(entries.skip(0) =~= entries);
    }
}

/// Where no entry is keyed by `h`, the table resolves `h` to nothing.
proof fn lemma_all_absent_none(entries: Seq<(String, Vec<u8>)>, h: Seq<char>)
    requires
        forall|j: int| 0 <= j < entries.len() ==> (#[trigger] entries[j].0)@ != h,
    ensures
        spec_challenge_cert(entries, h) is None,
    decreases entries.len(),
{
    if entries.len() > 0 {
        lemma_all_absent_none(entries.drop_first(), h);
    }
}

/// Where the table resolves `h` to nothing, no entry is keyed by `h`.
proof fn lemma_none_means_absent(entries: Seq<(String, Vec<u8>)>, h: Seq<char>, j: int)
    requires
        spec_challenge_cert(entries, h) is None,
        0 <= j < entries.len(),
    ensures
        (entries[j].0)@ != h,
    decreases entries.len(),
{
    if j > 0 {
        lemma_none_means_absent(entries.drop_first(), h, j - 1);
        assert(entries.drop_first()[j - 1] == entries[j]);
    }
}

/// With unique hostnames, the entry keyed by `h` is what `h` resolves to.
proof fn lemma_unique_key_resolves(entries: Seq<(String, Vec<u8>)>, h: Seq<char>, j: int)
    requires
        unique_hosts(entries),
        0 <= j < entries.len(),
        (entries[j].0)@ == h,
    ensures
        spec_challenge_cert(entries, h) == Some(entries[j].1@),
    decreases entries.len(),
{
    if j > 0 {
        assert((entries[0].0)@ != (entries[j].0)@);
        assert forall|i1: int, i2: int|
            0 <= i1 < i2 < entries.drop_first().len() implies (#[trigger] entries.drop_first()[i1].0)@
            != (#[trigger] entries.drop_first()[i2].0)@ by {
            assert(entries.drop_first()[i1] == entries[i1 + 1]);
            assert(entries.drop_first()[i2] == entries[i2 + 1]);
            assert((entries[i1 + 1].0)@ != (entries[i2 + 1].0)@);
        }
        assert(entries.drop_first()[j - 1] == entries[j]);
        lemma_unique_key_resolves(entries.drop_first(), h, j - 1);
    }
}

/// Appending an entry of another hostname leaves `h`'s resolution as it was.
proof fn lemma_cert_push_other(entries: Seq<(String, Vec<u8>)>, e: (String, Vec<u8>), h: Seq<char>)
    requires
        e.0@ != h,
    ensures
        spec_challenge_cert(entries.push(e), h) == spec_challenge_cert(entries, h),
    decreases entries.len(),
{
    let p = entries.push(e);
    assert(p.len() == entries.len() + 1);
    if entries.len() == 0 {
        assert(p[0] == e);
        assert(p[0].0@ != h);
        assert(p.drop_first() =~= Seq::<(String, Vec<u8>)>::empty());
        assert(spec_challenge_cert(p, h) == spec_challenge_cert(p.drop_first(), h));
        assert(spec_challenge_cert(p.drop_first(), h) is None);
    } else {
        assert(p[0] == entries[0]);
        assert(p.drop_first() =~= entries.drop_first().push(e));
        lemma_cert_push_other(entries.drop_first(), e, h);
        if entries[0].0@ == h {
            assert(spec_challenge_cert(p, h) == Some(p[0].1@));
            assert(spec_challenge_cert(entries, h) == Some(entries[0].1@));
        } else {
            assert(spec_challenge_cert(p, h) == spec_challenge_cert(p.drop_first(), h));
            assert(spec_challenge_cert(entries, h) == spec_challenge_cert(
                entries.drop_first(),
                h,
            ));
        }
    }
}

/// The short-lived table of ephemeral challenge certificates.
pub struct ChallengeTable {
    pub entries: Vec<(String, Vec<u8>)>,
}

impl ChallengeTable {
    /// Each hostname holds at most one pending challenge certificate.
    pub open spec fn wf(self) -> bool {
        unique_hosts(self.entries@)
    }

    pub fn new() -> (r: ChallengeTable)
        ensures
            r.wf(),
            r.entries@.len() == 0,
    {
        ChallengeTable { entries: Vec::new() }
    }

    /// The certificate registered for a hostname, if its challenge is
    /// still pending.
    pub fn get(&self, hostname: &String) -> (r: Option<&Vec<u8>>)
        ensures
            match r {
                Some(c) => spec_challenge_cert(self.entries@, hostname@) == Some(c@),
                None => spec_challenge_cert(self.entries@, hostname@) is None,
            },
    {
        let mut i: usize = 0;
        while i < self.entries.len()
            invariant
                i <= self.entries@.len(),
                forall|j: int| 0 <= j < i ==> (#[trigger] self.entries@[j].0)@ != hostname@,
            decreases self.entries@.len() - i,
        {
            if self.entries[i].0.eq(hostname) {
                proof {
                    lemma_challenge_skip(self.entries@, hostname@, i as int);
                    assert(self.entries@.skip(i as int)[0] == self.entries@[i as int]);
                }
                return Some(&self.entries[i].1);
            }
            i = i + 1;
        }
        proof {
            lemma_challenge_skip(self.entries@, hostname@, i as int);
        }
        None
    }

    /// Register the ephemeral certificate for a hostname's pending
    /// challenge, replacing any certificate of an earlier attempt: the
    /// hostname afterward resolves to exactly this certificate, and every
    /// other hostname resolves as before.
    pub fn put(&mut self, hostname: String, cert: Vec<u8>)
        requires
            old(self).wf(),
        ensures
            final(self).wf(),
            spec_challenge_cert(final(self).entries@, hostname@) == Some(cert@),
            forall|h: Seq<char>|
                h != hostname@ ==> #[trigger] spec_challenge_cert(final(self).entries@, h)
                    == spec_challenge_cert(old(self).entries@, h),
    {
        self.remove(&hostname);
        let ghost pre = self.entries@;
        let ghost mid = *self;
        self.entries.push((hostname, cert));
        proof {
            let fin = self.entries@;
            let last = fin[fin.len() - 1];
            assert(forall|i: int| 0 <= i < pre.len() ==> fin[i] == pre[i]);
            assert(last.0@ == hostname@ && last.1@ == cert@);
            assert forall|j: int| 0 <= j < pre.len() implies (#[trigger] pre[j].0)@
                != hostname@ by {
                lemma_none_means_absent(pre, hostname@, j);
            }
            assert forall|k1: int, k2: int| 0 <= k1 < k2 < fin.len() implies (
            #[trigger] fin[k1].0)@ != (#[trigger] fin[k2].0)@ by {
                if k2 == fin.len() - 1 {
                    assert((pre[k1].0)@ != hostname@);
                }
            }
            lemma_challenge_skip(fin, hostname@, fin.len() - 1);
            assert(fin.skip(fin.len() - 1)[0] == last);
            assert forall|h: Seq<char>| h != hostname@ implies #[trigger] spec_challenge_cert(
                fin,
                h,
            ) == spec_challenge_cert(pre, h) by {
                lemma_cert_push_other(pre, last, h);
                assert(fin =~= pre.push(last));
            }
        }
    }

    /// Drop the challenge certificate of a hostname once its authorization
    /// resolves or times out: the hostname afterward resolves to nothing,
    /// and every other hostname resolves as before.
    pub fn remove(&mut self, hostname: &String)
        requires
            old(self).wf(),
        ensures
            final(self).wf(),
            spec_challenge_cert(final(self).entries@, hostname@) is None,
            forall|h: Seq<char>|
                h != hostname@ ==> #[trigger] spec_challenge_cert(final(self).entries@, h)
                    == spec_challenge_cert(old(self).entries@, h),
    {
        let mut kept: Vec<(String, Vec<u8>)> = Vec::new();
        let ghost orig = self.entries@;
        let ghost mut src: Seq<int> = Seq::empty();
        loop
            invariant
                self.entries@.len() <= orig.len(),
                self.entries@ == orig.take(self.entries@.len() as int),
                src.len() == kept@.len(),
                forall|k: int|
                    0 <= k < kept@.len() ==> self.entries@.len() as int <= #[trigger] src[k]
                        < orig.len(),
                forall|k: int| 0 <= k < kept@.len() ==> #[trigger] kept@[k] == orig[src[k]],
                forall|k1: int, k2: int| 0 <= k1 < k2 < src.len() ==> src[k1] > src[k2],
                forall|k: int| 0 <= k < kept@.len() ==> (#[trigger] kept@[k].0)@ != hostname@,
                forall|j: int|
                    self.entries@.len() <= j < orig.len() && (orig[j].0)@ != hostname@ ==> exists|
                        k: int,
                    | 0 <= k < src.len() && #[trigger] src[k] == j,
                orig == old(self).entries@,
                old(self).wf(),
            ensures
                self.entries@.len() == 0,
            decreases self.entries@.len(),
        {
            let popped = self.entries.pop();
            match popped {
                Some(e) => {
                    let ghost n = self.entries@.len() as int;
                    proof {
                        assert(e == orig[n]);
                        assert(self.entries@ =~= orig.take(n));
                    }
                    if !e.0.eq(hostname) {
                        kept.push(e);
                        proof {
                            let pre = src;
                            src = src.push(n);
                            assert(src[src.len() - 1] == n);
                            assert(forall|k: int| 0 <= k < pre.len() ==> src[k] == pre[k]);
                        }
                    }
                },
                None => {
                    break ;
                },
            }
        }
        self.entries = kept;
        proof {
            let fin = self.entries@;
            assert forall|k1: int, k2: int| 0 <= k1 < k2 < fin.len() implies (
            #[trigger] fin[k1].0)@ != (#[trigger] fin[k2].0)@ by {
                assert(fin[k1] == orig[src[k1]] && fin[k2] == orig[src[k2]]);
                assert(src[k2] < src[k1]);
            }
            lemma_all_absent_none(fin, hostname@);
            assert forall|h: Seq<char>| h != hostname@ implies #[trigger] spec_challenge_cert(
                fin,
                h,
            ) == spec_challenge_cert(orig, h) by {
                match spec_challenge_cert(orig, h) {
                    Some(c) => {
                        let j = lemma_resolved_entry(orig, h);
                        assert((orig[j].0)@ == h && h != hostname@);
                        let k = choose|k: int| 0 <= k < src.len() && #[trigger] src[k] == j;
                        assert(fin[k] == orig[j]);
                        lemma_unique_key_resolves(fin, h, k);
                    },
                    None => {
                        assert forall|k: int| 0 <= k < fin.len() implies (#[trigger] fin[k].0)@
                            != h by {
                            lemma_none_means_absent(orig, h, src[k]);
                        }
                        lemma_all_absent_none(fin, h);
                    },
                }
            }
        }
    }
}

/// Where `h` resolves to a certificate, some entry keyed by `h` holds it.
proof fn lemma_resolved_entry(entries: Seq<(String, Vec<u8>)>, h: Seq<char>) -> (j: int)
    requires
        spec_challenge_cert(entries, h) is Some,
    ensures
        0 <= j < entries.len(),
        (entries[j].0)@ == h,
        spec_challenge_cert(entries, h) == Some(entries[j].1@),
    decreases entries.len(),
{
    if entries[0].0@ == h {
        0
    } else {
        let j = lemma_resolved_entry(entries.drop_first(), h);
        assert(entries.drop_first()[j] == entries[j + 1]);
        j + 1
    }
}

/// What the listener adapter hands the handshake: the resolver's ephemeral
/// challenge certificate, the cache's production certificate, or nothing.
pub enum CertChoice<'a> {
    Challenge(&'a Vec<u8>),
    Production(&'a CertificateEntry),
    NoCertificate,
}

/// The adapter's fixed two-step check: a connection negotiating the ACME
/// validation protocol is served the hostname's pending challenge
/// certificate and never a production one; any other connection is served
/// the cache's current certificate of the requested name, and the
/// handshake fails only when no usable certificate exists at all.
pub fn select_certificate<'a>(
    table: &'a ChallengeTable,
    cache: &'a CertificateCache,
    server_name: &String,
    alpn: &Vec<String>,
) -> (r: CertChoice<'a>)
    ensures
        spec_contains_str(alpn@, spec_acme_alpn()) ==> (match r {
            CertChoice::Challenge(c) => spec_challenge_cert(table.entries@, server_name@) == Some(
                c@,
            ),
            CertChoice::Production(_) => false,
            CertChoice::NoCertificate => spec_challenge_cert(
                table.entries@,
                server_name@,
            ) is None,
        }),
        !spec_contains_str(alpn@, spec_acme_alpn()) ==> (match r {
            CertChoice::Challenge(_) => false,
            CertChoice::Production(e) => spec_lookup(cache.entries@, server_name@) == Some(*e),
            CertChoice::NoCertificate => !spec_covered(cache.entries@, server_name@),
        }),
{
    let mut requested_acme = false;
    let mut i: usize = 0;
    while i < alpn.len()
        invariant
            i <= alpn@.len(),
            requested_acme == exists|j: int| 0 <= j < i && (#[trigger] alpn@[j])@ == spec_acme_alpn(),
        decreases alpn@.len() - i,
    {
        let p = String::from_str("acme-tls/1");
        if alpn[i].eq(&p) {
            proof {
                assert(alpn@[i as int]@ == spec_acme_alpn());
            }
            requested_acme = true;
        }
        i = i + 1;
    }
    if requested_acme {
        match table.get(server_name) {
            Some(c) => CertChoice::Challenge(c),
            None => CertChoice::NoCertificate,
        }
    } else {
        match cache.lookup(server_name) {
            Some(e) => CertChoice::Production(e),
            None => CertChoice::NoCertificate,
        }
    }
}

} // verus!
