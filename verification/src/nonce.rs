//! Anti-replay nonce management.  Every signed request consumes exactly one
//! previously-unused nonce; the nonce for the next request always comes from
//! the most recent CA response header and is never reused.

use vstd::prelude::*;

verus! {

/// Whether some entry of `v` has the same characters as `n`.
pub open spec fn spec_contains_str(v: Seq<String>, n: Seq<char>) -> bool {
    exists|i: int| 0 <= i < v.len() && v[i]@ == n
}

fn contains_str(v: &Vec<String>, n: &String) -> (r: bool)
    ensures
        r == spec_contains_str(v@, n@),
{
    let mut i: usize = 0;
    while i < v.len()
        invariant
            i <= v@.len(),
            forall|j: int| 0 <= j < i ==> v@[j]@ != n@,
        decreases v@.len() - i,
    {
        if v[i].eq(n) {
            proof {
                assert(v@[i as int]@ == n@);
            }
            return true;
        }
        i = i + 1;
    }
    false
}

/// Holds at most one unused nonce and the log of every nonce consumed so
/// far.  The invariant keeps the unused nonce distinct from every consumed
/// one, so the consumed log can never acquire a duplicate.
pub struct NonceManager {
    /// The nonce the next signed request will consume, if one is on hand.
    pub current: Option<String>,
    /// Every nonce consumed by a signed request, oldest first.
    pub consumed: Vec<String>,
}

impl NonceManager {
    /// No two consumed nonces are equal, and the nonce on hand, if any, has
    /// not been consumed.
    pub open spec fn wf(self) -> bool {
        &&& forall|i: int, j: int|
            0 <= i < j < self.consumed@.len() ==> self.consumed@[i]@ != self.consumed@[j]@
        &&& match self.current {
            Some(c) => !spec_contains_str(self.consumed@, c@),
            None => true,
        }
    }

    pub fn new() -> (r: NonceManager)
        ensures
            r.wf(),
            r.current is None,
            r.consumed@.len() == 0,
    {
        NonceManager { current: None, consumed: Vec::new() }
    }

    /// Accept the replay-nonce a CA response carried.  A value that some
    /// earlier request already consumed is dropped rather than held for
    /// reuse; the log of consumed nonces never changes here.
    pub fn offer(&mut self, n: String)
        requires
            old(self).wf(),
        ensures
            final(self).wf(),
            final(self).consumed@ == old(self).consumed@,
            !spec_contains_str(old(self).consumed@, n@) ==> final(self).current == Some(n),
            spec_contains_str(old(self).consumed@, n@) ==> final(self).current == old(
                self,
            ).current,
    {
        if !contains_str(&self.consumed, &n) {
            self.current = Some(n);
        }
    }

    /// Consume the nonce on hand for a signed request.  The returned nonce
    /// is recorded as consumed and differs from every nonce consumed before.
    pub fn take(&mut self) -> (r: Option<String>)
        requires
            old(self).wf(),
        ensures
            final(self).wf(),
            final(self).current is None,
            match old(self).current {
                Some(c) => r == Some(c) && final(self).consumed@ == old(self).consumed@.push(c)
                    && !spec_contains_str(old(self).consumed@, c@),
                None => r is None && final(self).consumed@ == old(self).consumed@,
            },
    {
        let cur = self.current.take();
        match cur {
            Some(c) => {
                let r = c.clone();
                self.consumed.push(c);
                proof {
                    assert(forall|i: int|
                        0 <= i < old(self).consumed@.len() ==> self.consumed@[i] == old(
                            self,
                        ).consumed@[i]);
                }
                Some(r)
            },
            None => None,
        }
    }

    /// How many nonces signed requests have consumed so far.
    pub fn consumed_count(&self) -> (r: usize)
        ensures
            r == self.consumed@.len(),
    {
        self.consumed.len()
    }
}

/// The sequence of nonces consumed across any sequence of signed requests
/// contains no duplicates: consuming goes through `take`, which appends to
/// the log only a nonce that the invariant keeps distinct from every entry
/// already there.
pub proof fn lemma_consumed_nonces_distinct(m: NonceManager)
    requires
        m.wf(),
    ensures
        forall|i: int, j: int|
            0 <= i < j < m.consumed@.len() ==> m.consumed@[i]@ != m.consumed@[j]@,
{
}

} // verus!
