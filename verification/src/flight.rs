//! The single-flight guard: the set of hostname sets whose provisioning run
//! is in progress.  Concurrent handshakes for the same hostname set await
//! one shared orchestrator execution instead of issuing duplicate orders.

use vstd::prelude::*;

verus! {

/// Whether some registered hostname set equals `key`.
pub open spec fn spec_in_flight(keys: Seq<Vec<String>>, key: Seq<Seq<char>>) -> bool {
    exists|i: int| 0 <= i < keys.len() && keys[i].deep_view() == key
}

fn keys_eq(a: &Vec<String>, b: &Vec<String>) -> (r: bool)
    ensures
        r == (a.deep_view() == b.deep_view()),
{
    if a.len() != b.len() {
        proof {
            assert(a.deep_view().len() == a@.len());
            assert(b.deep_view().len() == b@.len());
        }
        return false;
    }
    let mut i: usize = 0;
    while i < a.len()
        invariant
            a@.len() == b@.len(),
            i <= a@.len(),
            forall|j: int| 0 <= j < i ==> a@[j]@ == b@[j]@,
        decreases a@.len() - i,
    {
        if !a[i].eq(&b[i]) {
            proof {
                assert(a.deep_view()[i as int] == a@[i as int]@);
                assert(b.deep_view()[i as int] == b@[i as int]@);
            }
            return false;
        }
        i = i + 1;
    }
    proof {
        assert(a.deep_view() =~~= b.deep_view());
    }
    true
}

/// The keyed guard itself.  A key is held from the moment a run is started
/// for it until that run ends.
pub struct InFlight {
    pub keys: Vec<Vec<String>>,
}

impl InFlight {
    /// No hostname set is held twice.
    pub open spec fn wf(self) -> bool {
        forall|i: int, j: int|
            0 <= i < j < self.keys@.len() ==> self.keys@[i].deep_view()
                != self.keys@[j].deep_view()
    }

    pub fn new() -> (r: InFlight)
        ensures
            r.wf(),
            r.keys@.len() == 0,
    {
        InFlight { keys: Vec::new() }
    }

    /// Whether a run for this hostname set is in progress.
    pub fn contains(&self, key: &Vec<String>) -> (r: bool)
        ensures
            r == spec_in_flight(self.keys@, key.deep_view()),
    {
        let mut i: usize = 0;
        while i < self.keys.len()
            invariant
                i <= self.keys@.len(),
                forall|j: int| 0 <= j < i ==> self.keys@[j].deep_view() != key.deep_view(),
            decreases self.keys@.len() - i,
        {
            if keys_eq(&self.keys[i], key) {
                proof {
                    assert(self.keys@[i as int].deep_view() == key.deep_view());
                }
                return true;
            }
            i = i + 1;
        }
        false
    }

    /// Try to start a run for this hostname set.  Exactly when no run for
    /// it is in progress, the key is claimed and true is returned: of any
    /// number of concurrent attempts, only the first starts an execution,
    /// and every later one joins it.
    pub fn begin(&mut self, key: Vec<String>) -> (r: bool)
        requires
            old(self).wf(),
        ensures
            final(self).wf(),
            r == !spec_in_flight(old(self).keys@, key.deep_view()),
            r ==> final(self).keys@ == old(self).keys@.push(key),
            !r ==> final(self).keys@ == old(self).keys@,
            spec_in_flight(final(self).keys@, key.deep_view()),
    {
        if self.contains(&key) {
            false
        } else {
            let ghost pre = self.keys@;
            self.keys.push(key);
            proof {
                assert(self.keys@[self.keys@.len() - 1].deep_view() == key.deep_view());
                assert(forall|i: int| 0 <= i < pre.len() ==> self.keys@[i] == pre[i]);
            }
            true
        }
    }

    /// End the run for this hostname set: afterward no run for it is in
    /// progress, and every other key is still held.
    pub fn end(&mut self, key: &Vec<String>)
        requires
            old(self).wf(),
        ensures
            final(self).wf(),
            !spec_in_flight(final(self).keys@, key.deep_view()),
            forall|k: Seq<Seq<char>>|
                k != key.deep_view() ==> #[trigger] spec_in_flight(final(self).keys@, k)
                    == spec_in_flight(old(self).keys@, k),
    {
        let mut kept: Vec<Vec<String>> = Vec::new();
        let ghost orig = self.keys@;
        let ghost mut src: Seq<int> = Seq::empty();
        loop
            invariant
                self.keys@.len() <= orig.len(),
                self.keys@ == orig.take(self.keys@.len() as int),
                src.len() == kept@.len(),
                forall|k: int|
                    0 <= k < kept@.len() ==> self.keys@.len() as int <= #[trigger] src[k]
                        < orig.len(),
                forall|k: int| 0 <= k < kept@.len() ==> #[trigger] kept@[k] == orig[src[k]],
                forall|k1: int, k2: int| 0 <= k1 < k2 < src.len() ==> src[k1] > src[k2],
                forall|k: int|
                    0 <= k < kept@.len() ==> #[trigger] kept@[k].deep_view() != key.deep_view(),
                forall|j: int|
                    self.keys@.len() <= j < orig.len() && orig[j].deep_view() != key.deep_view()
                        ==> exists|k: int| 0 <= k < src.len() && #[trigger] src[k] == j,
                orig == old(self).keys@,
                old(self).wf(),
            ensures
                self.keys@.len() == 0,
            decreases self.keys@.len(),
        {
            let popped = self.keys.pop();
            match popped {
                Some(e) => {
                    let ghost n = self.keys@.len() as int;
                    proof {
                        assert(e == orig[n]);
                        assert(self.keys@ =~= orig.take(n));
                    }
                    if !keys_eq(&e, key) {
                        kept.push(e);
                        proof {
                            let pre = src;
                            src = src.push(n);
                            assert(src[src.len() - 1] == n);
                            assert(forall|k: int| 0 <= k < pre.len() ==> src[k] == pre[k]);
                        }
                    }
                },
                None => {
                    break ;
                },
            }
        }
        self.keys = kept;
        proof {
            let fin = self.keys@;
            assert forall|k: Seq<Seq<char>>|
                k != key.deep_view() implies #[trigger] spec_in_flight(fin, k)
                == spec_in_flight(orig, k) by {
                if spec_in_flight(fin, k) {
                    let i = choose|i: int| 0 <= i < fin.len() && fin[i].deep_view() == k;
                    assert(orig[src[i]].deep_view() == k);
                }
                if spec_in_flight(orig, k) {
                    let j = choose|j: int| 0 <= j < orig.len() && orig[j].deep_view() == k;
                    let k2 = choose|k2: int| 0 <= k2 < src.len() && #[trigger] src[k2] == j;
                    assert(fin[k2].deep_view() == k);
                }
            }
        }
    }
}

/// Concurrent handshakes for a previously unseen hostname set start
/// exactly one orchestrator run.  `r1` and `r2` are what `begin` returns
/// for the first and for any later attempt, and `claimed` is the state the
/// first attempt leaves: the first attempt starts the run and every later
/// one joins it instead of starting a second.
pub proof fn lemma_single_flight(
    unseen: InFlight,
    claimed: InFlight,
    key: Vec<String>,
    r1: bool,
    r2: bool,
)
    requires
        !spec_in_flight(unseen.keys@, key.deep_view()),
        r1 == !spec_in_flight(unseen.keys@, key.deep_view()),
        spec_in_flight(claimed.keys@, key.deep_view()),
        r2 == !spec_in_flight(claimed.keys@, key.deep_view()),
    ensures
        r1,
        !r2,
{
}

} // verus!
