use vstd::prelude::*;

verus! {

/// The host's capability-based authorization primitive, injected as a plain
/// witness value: the set of principals that have authorized the current
/// call. Principals are the opaque identifiers the host assigns to accounts.
///
/// The host builds one `CallAuths` per incoming call (from whatever
/// signature or session-token verification it performs) and hands it to the
/// registry operation; the registries never verify signatures themselves.
pub struct CallAuths {
    granted: Vec<u64>,
}

impl CallAuths {
    /// Whether this witness vouches for principal `p`.
    pub closed spec fn allows(&self, p: u64) -> bool {
        self.granted@.contains(p)
    }

    /// A witness that authorizes no principal at all.
    pub fn new() -> (r: CallAuths)
        ensures
            forall|p: u64| !r.allows(p),
    {
        CallAuths { granted: Vec::new() }
    }

    /// Record that principal `p` has authorized the current call.
    pub fn grant(&mut self, p: u64)
        ensures
            forall|q: u64| final(self).allows(q) <==> old(self).allows(q) || q == p,
    {
        self.granted.push(p);
        proof {
            broadcast use vstd::seq_lib::lemma_seq_contains_after_push;
        }
    }

    /// Executable membership test, equal to [`Self::allows`].
    pub fn is_granted(&self, p: u64) -> (r: bool)
        ensures
            r == self.allows(p),
    {
        let mut i: usize = 0;
        while i < self.granted.len()
            invariant
                i <= self.granted.len(),
                forall|j: int| 0 <= j < i ==> self.granted@[j] != p,
            decreases self.granted.len() - i,
        {
            if self.granted[i] == p {
                return true;
            }
            i += 1;
        }
        false
    }
}

} // verus!
