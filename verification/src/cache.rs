//! The certificate cache and renewal scheduling rules.  The cache owns one
//! complete entry per hostname set, replaced as a whole unit only; a lookup
//! always sees a complete entry whose chain and key belong together, and a
//! failed renewal never removes a usable certificate.

use vstd::prelude::*;

verus! {

/// A complete issued certificate: the hostname set it names, the full PEM
/// chain, the matching private key and the validity bounds, as seconds of
/// Unix time.  Replaced as a whole unit, never field-mutated in place.
#[derive(Clone, Debug)]
pub struct CertificateEntry {
    pub hostnames: Vec<String>,
    pub chain_pem: Vec<u8>,
    pub key_der: Vec<u8>,
    pub not_before: u64,
    pub not_after: u64,
}

/// Whether the entry names the hostname.
pub open spec fn entry_has_host(e: CertificateEntry, h: Seq<char>) -> bool {
    exists|k: int| 0 <= k < e.hostnames@.len() && e.hostnames@[k]@ == h
}

/// Whether two entries name a common hostname.
pub open spec fn entries_share(a: CertificateEntry, b: CertificateEntry) -> bool {
    exists|h: Seq<char>| entry_has_host(a, h) && entry_has_host(b, h)
}

/// Whether some entry of the list names the hostname.
pub open spec fn spec_covered(entries: Seq<CertificateEntry>, h: Seq<char>) -> bool {
    exists|i: int| 0 <= i < entries.len() && entry_has_host(entries[i], h)
}

/// The entry a lookup of `h` returns: the first one naming `h`.
pub open spec fn spec_lookup(entries: Seq<CertificateEntry>, h: Seq<char>) -> Option<
    CertificateEntry,
>
    decreases entries.len(),
{
    if entries.len() == 0 {
        None
    } else if entry_has_host(entries[0], h) {
        Some(entries[0])
    } else {
        spec_lookup(entries.drop_first(), h)
    }
}

/// Sharing a hostname is symmetric.
proof fn lemma_share_symmetric(a: CertificateEntry, b: CertificateEntry)
    ensures
        entries_share(a, b) == entries_share(b, a),
{
    if entries_share(a, b) {
        let h = choose|h: Seq<char>| entry_has_host(a, h) && entry_has_host(b, h);
        assert(entry_has_host(b, h) && entry_has_host(a, h));
    }
    if entries_share(b, a) {
        let h = choose|h: Seq<char>| entry_has_host(b, h) && entry_has_host(a, h);
        assert(entry_has_host(a, h) && entry_has_host(b, h));
    }
}

/// A lookup skips every leading entry that does not name `h`.
proof fn lemma_lookup_skip(entries: Seq<CertificateEntry>, h: Seq<char>, i: int)
    requires
        0 <= i <= entries.len(),
        forall|j: int| 0 <= j < i ==> !entry_has_host(#[trigger] entries[j], h),
    ensures
        spec_lookup(entries, h) == spec_lookup(entries.skip(i), h),
    decreases i,
{
    if i > 0 {
        lemma_lookup_skip(entries, h, i - 1);
        assert(entries.skip(i - 1).drop_first() =~= entries.skip(i));
        assert(entries.skip(i - 1)[0] == entries[i - 1]);
    } else {
        assert(entries.skip(0) =~= entries);
    }
}

/// The certificate cache: exclusively owns its entries and serves the
/// current certificate of each hostname to the listener.
pub struct CertificateCache {
    pub entries: Vec<CertificateEntry>,
}

impl CertificateCache {
    /// No two entries name a common hostname, so each hostname has at most
    /// one current certificate.
    pub open spec fn wf(self) -> bool {
        forall|i: int, j: int|
            0 <= i < j < self.entries@.len() ==> !entries_share(
                #[trigger] self.entries@[i],
                #[trigger] self.entries@[j],
            )
    }

    pub fn new() -> (r: CertificateCache)
        ensures
            r.wf(),
            r.entries@.len() == 0,
    {
        CertificateCache { entries: Vec::new() }
    }

    /// Return the current certificate of `hostname`, or nothing: the
    /// complete entry held for it.  Never blocks on a concurrent renewal.
    pub fn lookup(&self, hostname: &String) -> (r: Option<&CertificateEntry>)
        ensures
            match r {
                Some(e) => spec_lookup(self.entries@, hostname@) == Some(*e),
                None => spec_lookup(self.entries@, hostname@) is None,
            },
            r is Some <==> spec_covered(self.entries@, hostname@),
    {
        let mut i: usize = 0;
        while i < self.entries.len()
            invariant
                i <= self.entries@.len(),
                forall|j: int|
                    0 <= j < i ==> !entry_has_host(#[trigger] self.entries@[j], hostname@),
            decreases self.entries@.len() - i,
        {
            if entry_names(&self.entries[i], hostname) {
                proof {
                    lemma_lookup_skip(self.entries@, hostname@, i as int);
                    assert(self.entries@.skip(i as int)[0] == self.entries@[i as int]);
                }
                return Some(&self.entries[i]);
            }
            i = i + 1;
        }
        proof {
            lemma_lookup_skip(self.entries@, hostname@, i as int);
            assert(self.entries@.skip(i as int).len() == 0);
        }
        None
    }

    /// Swap in a freshly issued certificate as a whole unit: every entry
    /// naming a hostname of the new entry is replaced by it, every other
    /// entry is kept, and afterwards each hostname of the new entry is
    /// served exactly this entry.
    pub fn store(&mut self, entry: CertificateEntry)
        requires
            old(self).wf(),
        ensures
            final(self).wf(),
            final(self).entries@.len() > 0,
            final(self).entries@.last() == entry,
            forall|i: int|
                0 <= i < final(self).entries@.len() - 1 ==> !entries_share(
                    #[trigger] final(self).entries@[i],
                    entry,
                ),
            forall|i: int|
                0 <= i < final(self).entries@.len() - 1 ==> exists|j: int|
                    0 <= j < old(self).entries@.len() && #[trigger] final(self).entries@[i] == old(
                        self,
                    ).entries@[j],
            forall|j: int|
                0 <= j < old(self).entries@.len() && !entries_share(
                    #[trigger] old(self).entries@[j],
                    entry,
                ) ==> exists|i: int|
                    0 <= i < final(self).entries@.len() && final(self).entries@[i] == old(
                        self,
                    ).entries@[j],
            forall|h: Seq<char>|
                entry_has_host(entry, h) ==> #[trigger] spec_lookup(final(self).entries@, h)
                    == Some(entry),
    {
        let ghost orig = self.entries@;
        let mut kept: Vec<CertificateEntry> = Vec::new();
        let ghost mut src: Seq<int> = Seq::empty();
        loop
            invariant
                self.entries@.len() <= orig.len(),
                self.entries@ == orig.take(self.entries@.len() as int),
                src.len() == kept@.len(),
                forall|k: int|
                    0 <= k < kept@.len() ==> self.entries@.len() as int <= #[trigger] src[k]
                        < orig.len(),
                forall|k: int| 0 <= k < kept@.len() ==> #[trigger] kept@[k] == orig[src[k]],
                forall|k1: int, k2: int| 0 <= k1 < k2 < src.len() ==> src[k1] > src[k2],
                forall|k: int|
                    0 <= k < kept@.len() ==> !entries_share(#[trigger] kept@[k], entry),
                forall|j: int|
                    self.entries@.len() <= j < orig.len() && !entries_share(
                        #[trigger] orig[j],
                        entry,
                    ) ==> exists|k: int| 0 <= k < src.len() && #[trigger] src[k] == j,
                old(self).wf(),
                orig == old(self).entries@,
            ensures
                self.entries@.len() == 0,
            decreases self.entries@.len(),
        {
            let popped = self.entries.pop();
            match popped {
                Some(e) => {
                    let ghost n = self.entries@.len() as int;
                    proof {
                        assert(e == orig[n]);
                        assert(self.entries@ =~= orig.take(n));
                    }
                    if !shares_host(&e, &entry) {
                        let ghost pre_kept = kept@;
                        kept.push(e);
                        proof {
                            let pre = src;
                            src = src.push(n);
                            assert(src[src.len() - 1] == n);
                            assert(forall|k: int| 0 <= k < pre.len() ==> src[k] == pre[k]);
                            assert(forall|k: int|
                                0 <= k < pre_kept.len() ==> kept@[k] == pre_kept[k]);
                            assert(kept@[kept@.len() - 1] == e);
                        }
                    }
                },
                None => {
                    break ;
                },
            }
        }
        let ghost pre_final = kept@;
        let ghost pre_src = src;
        kept.push(entry);
        self.entries = kept;
        proof {
            let fin = self.entries@;
            assert(fin[fin.len() - 1] == entry);
            assert(forall|i: int| 0 <= i < pre_final.len() ==> fin[i] == pre_final[i]);
            assert(fin.len() == pre_final.len() + 1);
            assert forall|i: int, j: int| 0 <= i < j < fin.len() implies !entries_share(
                #[trigger] fin[i],
                #[trigger] fin[j],
            ) by {
                if j == fin.len() - 1 {
                    assert(!entries_share(pre_final[i], entry));
                } else {
                    assert(fin[i] == orig[pre_src[i]] && fin[j] == orig[pre_src[j]]);
                    assert(pre_src[j] < pre_src[i]);
                    assert(!entries_share(orig[pre_src[j]], orig[pre_src[i]]));
                    lemma_share_symmetric(orig[pre_src[j]], orig[pre_src[i]]);
                }
            }
            assert forall|i: int| 0 <= i < fin.len() - 1 implies exists|j: int|
                0 <= j < orig.len() && #[trigger] fin[i] == orig[j] by {
                assert(0 <= pre_src[i] < orig.len() && fin[i] == orig[pre_src[i]]);
            }
            assert forall|j: int|
                0 <= j < orig.len() && !entries_share(#[trigger] orig[j], entry) implies exists|
                i: int,
            | 0 <= i < fin.len() && fin[i] == orig[j] by {
                let k = choose|k: int| 0 <= k < pre_src.len() && #[trigger] pre_src[k] == j;
                assert(fin[k] == orig[j]);
            }
            assert forall|h: Seq<char>| entry_has_host(entry, h) implies #[trigger] spec_lookup(
                fin,
                h,
            ) == Some(entry) by {
                assert forall|j: int| 0 <= j < fin.len() - 1 implies !entry_has_host(
                    #[trigger] fin[j],
                    h,
                ) by {
                    if entry_has_host(fin[j], h) {
                        assert(entries_share(fin[j], entry));
                    }
                }
                lemma_lookup_skip(fin, h, fin.len() - 1);
                assert(fin.skip(fin.len() - 1)[0] == entry);
            }
        }
    }
}

/// Whether the entry names the hostname.
pub fn entry_names(e: &CertificateEntry, hostname: &String) -> (r: bool)
    ensures
        r == entry_has_host(*e, hostname@),
{
    let mut k: usize = 0;
    while k < e.hostnames.len()
        invariant
            k <= e.hostnames@.len(),
            forall|j: int| 0 <= j < k ==> e.hostnames@[j]@ != hostname@,
        decreases e.hostnames@.len() - k,
    {
        if e.hostnames[k].eq(hostname) {
            proof {
                assert(e.hostnames@[k as int]@ == hostname@);
            }
            return true;
        }
        k = k + 1;
    }
    false
}

fn shares_host(a: &CertificateEntry, b: &CertificateEntry) -> (r: bool)
    ensures
        r == entries_share(*a, *b),
{
    let mut k: usize = 0;
    while k < a.hostnames.len()
        invariant
            k <= a.hostnames@.len(),
            forall|j: int| 0 <= j < k ==> !entry_has_host(*b, a.hostnames@[j]@),
        decreases a.hostnames@.len() - k,
    {
        if entry_names(b, &a.hostnames[k]) {
            proof {
                assert(entry_has_host(*a, a.hostnames@[k as int]@));
            }
            return true;
        }
        k = k + 1;
    }
    proof {
        if entries_share(*a, *b) {
            let h = choose|h: Seq<char>| entry_has_host(*a, h) && entry_has_host(*b, h);
            let j = choose|j: int| 0 <= j < a.hostnames@.len() && a.hostnames@[j]@ == h;
            assert(!entry_has_host(*b, a.hostnames@[j]@));
        }
    }
    false
}

/// After a fresh entry is stored, looking up any hostname it names returns
/// exactly that entry; with an unexpired entry the listener therefore
/// serves a certificate naming the hostname, whose not-after lies strictly
/// after the present time.
pub proof fn lemma_store_then_lookup(
    cache: CertificateCache,
    entry: CertificateEntry,
    h: Seq<char>,
    now: int,
)
    requires
        cache.entries@.len() > 0,
        cache.entries@.last() == entry,
        forall|i: int|
            0 <= i < cache.entries@.len() - 1 ==> !entries_share(
                #[trigger] cache.entries@[i],
                entry,
            ),
        entry_has_host(entry, h),
        entry.not_after > now,
    ensures
        spec_lookup(cache.entries@, h) matches Some(e) && entry_has_host(e, h) && e.not_after
            > now,
{
    let s = cache.entries@;
    assert forall|i: int| 0 <= i < s.len() - 1 implies !entry_has_host(#[trigger] s[i], h) by {
        if entry_has_host(s[i], h) {
            assert(entries_share(s[i], entry));
        }
    }
    lemma_lookup_skip(s, h, s.len() - 1);
    assert(s.skip(s.len() - 1)[0] == entry);
}

/// Whether an entry lies within the renewal window: its not-after is no
/// more than `window` seconds past `now` (an already expired entry included).
pub open spec fn spec_needs_renewal(not_after: int, now: int, window: int) -> bool {
    not_after <= now + window
}

/// Renewal boundary check: an entry expiring within the window is due for
/// reissuance, one expiring later is not.
pub fn needs_renewal(e: &CertificateEntry, now: u64, window: u64) -> (r: bool)
    ensures
        r == spec_needs_renewal(e.not_after as int, now as int, window as int),
{
    if e.not_after <= now {
        true
    } else {
        e.not_after - now <= window
    }
}

/// One sweep of the scheduler: the indices of exactly the entries due for
/// reissuance, strictly ascending, so no entry is reported twice.
pub fn sweep_due(cache: &CertificateCache, now: u64, window: u64) -> (r: Vec<usize>)
    ensures
        forall|k1: int, k2: int| 0 <= k1 < k2 < r@.len() ==> r@[k1] < r@[k2],
        forall|k: int|
            0 <= k < r@.len() ==> #[trigger] r@[k] < cache.entries@.len() && spec_needs_renewal(
                cache.entries@[r@[k] as int].not_after as int,
                now as int,
                window as int,
            ),
        forall|i: int|
            0 <= i < cache.entries@.len() && spec_needs_renewal(
                cache.entries@[i].not_after as int,
                now as int,
                window as int,
            ) ==> exists|k: int| 0 <= k < r@.len() && #[trigger] r@[k] == i,
{
    let mut due: Vec<usize> = Vec::new();
    let mut i: usize = 0;
    while i < cache.entries.len()
        invariant
            i <= cache.entries@.len(),
            forall|k1: int, k2: int| 0 <= k1 < k2 < due@.len() ==> due@[k1] < due@[k2],
            forall|k: int| 0 <= k < due@.len() ==> #[trigger] due@[k] < i,
            forall|k: int|
                0 <= k < due@.len() ==> #[trigger] due@[k] < cache.entries@.len()
                    && spec_needs_renewal(
                    cache.entries@[due@[k] as int].not_after as int,
                    now as int,
                    window as int,
                ),
            forall|j: int|
                0 <= j < i && spec_needs_renewal(
                    cache.entries@[j].not_after as int,
                    now as int,
                    window as int,
                ) ==> exists|k: int| 0 <= k < due@.len() && #[trigger] due@[k] == j,
        decreases cache.entries@.len() - i,
    {
        if needs_renewal(&cache.entries[i], now, window) {
            let ghost pre = due@;
            due.push(i);
            proof {
                assert forall|j: int|
                    0 <= j < i + 1 && spec_needs_renewal(
                        cache.entries@[j].not_after as int,
                        now as int,
                        window as int,
                    ) implies exists|k: int| 0 <= k < due@.len() && #[trigger] due@[k] == j by {
                    if j == i as int {
                        assert(due@[due@.len() - 1] == i as usize);
                    } else {
                        let k = choose|k: int| 0 <= k < pre.len() && #[trigger] pre[k] == j;
                        assert(due@[k] == j);
                    }
                }
            }
        }
        i = i + 1;
    }
    due
}

/// Accept a freshly issued entry only while it is unexpired: an entry
/// whose not-after lies strictly after the present time is swapped in
/// atomically and true returned; any other entry leaves the cache exactly
/// as it was.  Afterward every hostname of an accepted entry is served a
/// certificate naming it whose not-after lies strictly after `now`.
pub fn accept_issued(cache: &mut CertificateCache, entry: CertificateEntry, now: u64) -> (r: bool)
    requires
        old(cache).wf(),
    ensures
        final(cache).wf(),
        r == (entry.not_after > now),
        entry.not_after > now ==> (forall|h: Seq<char>|
            entry_has_host(entry, h) ==> (#[trigger] spec_lookup(final(cache).entries@, h)
                matches Some(e) && entry_has_host(e, h) && e.not_after > now)),
        entry.not_after <= now ==> *final(cache) == *old(cache),
{
    if entry.not_after > now {
        let ghost e = entry;
        let ghost n = now as int;
        cache.store(entry);
        proof {
            assert forall|h: Seq<char>| entry_has_host(e, h) implies (#[trigger] spec_lookup(
                cache.entries@,
                h,
            ) matches Some(x) && entry_has_host(x, h) && x.not_after > n) by {
                assert(spec_lookup(cache.entries@, h) == Some(e));
            }
        }
        true
    } else {
        false
    }
}

/// Fold a renewal outcome into the cache.  A successful run swaps its entry
/// in atomically; a failed one leaves the cache exactly as it was, so the
/// previously issued certificate is still served.
pub fn apply_renewal(cache: &mut CertificateCache, outcome: Result<CertificateEntry, ()>) -> (r:
    bool)
    requires
        old(cache).wf(),
    ensures
        final(cache).wf(),
        r == (outcome is Ok),
        outcome matches Ok(entry) ==> (final(cache).entries@.len() > 0
            && final(cache).entries@.last() == entry && (forall|h: Seq<char>|
            entry_has_host(entry, h) ==> #[trigger] spec_lookup(final(cache).entries@, h) == Some(
                entry,
            ))),
        outcome is Err ==> *final(cache) == *old(cache),
{
    match outcome {
        Ok(entry) => {
            cache.store(entry);
            true
        },
        Err(_) => false,
    }
}

} // verus!
