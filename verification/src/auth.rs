use vstd::prelude::*;

verus! {

/// The authorization context of a single invocation: the set of identities
/// that the host platform cryptographically verified as having authorized
/// the current call.
///
/// The host resolves signatures before the core logic runs; the core only
/// consults this value. Identities are the plain integers the library uses
/// throughout in place of host addresses.
pub struct AuthContext {
    granted: Vec<u64>,
}

impl AuthContext {
    /// Identity `id` authorized the current invocation.
    pub closed spec fn grants(&self, id: u64) -> bool {
        exists|i: int| 0 <= i < self.granted@.len() && self.granted@[i] == id
    }

    /// An invocation nobody authorized.
    pub fn new() -> (a: AuthContext)
        ensures
            forall|id: u64| !a.grants(id),
    {
        AuthContext { granted: Vec::new() }
    }

    /// Record that `id` authorized this invocation.
    pub fn grant(&mut self, id: u64)
        ensures
            forall|x: u64| final(self).grants(x) <==> old(self).grants(x) || x == id,
    {
        self.granted.push(id);
        proof {
            assert forall|x: u64| final(self).grants(x) <==> old(self).grants(x) || x == id by {
                if old(self).grants(x) {
                    let i = choose|i: int| 0 <= i < old(self).granted@.len()
                        && old(self).granted@[i] == x;
                    assert(self.granted@[i] == x);
                }
                if x == id {
                    assert(self.granted@[old(self).granted@.len() as int] == id);
                }
            }
        }
    }

    /// Whether `id` authorized the current invocation.
    pub fn verifies(&self, id: u64) -> (r: bool)
        ensures
            r == self.grants(id),
    {
        let mut i: usize = 0;
        while i < self.granted.len()
            invariant
                0 <= i <= self.granted@.len(),
                forall|j: int| 0 <= j < i ==> self.granted@[j] != id,
            decreases self.granted@.len() - i,
        {
            if self.granted[i] == id {
                return true;
            }
            i += 1;
        }
        false
    }
}

} // verus!
