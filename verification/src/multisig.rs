use crate::auth::AuthContext;
use crate::errors::DistributionError;
use std::collections::HashMap;
use vstd::prelude::*;

verus! {

broadcast use vstd::std_specs::hash::group_hash_axioms;

/// The sum of a batch of percent allocations.
pub open spec fn sum_of(ps: Seq<u32>) -> int
    decreases ps.len(),
{
    if ps.len() == 0 {
        0
    } else {
        sum_of(ps.drop_last()) + ps.last()
    }
}

/// The registry a bulk registration writes: every `(member, percent)` pair
/// in listing order, a later pair overwriting an earlier one with the same
/// identity.
pub open spec fn registry_of(ms: Seq<u64>, ps: Seq<u32>) -> Map<u64, u32>
    decreases ms.len(),
{
    if ms.len() == 0 {
        Map::empty()
    } else {
        registry_of(ms.drop_last(), ps.drop_last()).insert(ms.last(), ps.last())
    }
}

/// The threshold-onboarding distribution ledger: the registry is written
/// exactly once, in bulk, under K-of-N approver authorization, and never
/// mutated afterwards.
///
/// Two states follow configuration: configured (after `initialize`) and
/// populated (after the one allowed `add_members_multisig`); there is no
/// transition back.
pub struct MultisigDistribution {
    admin: Option<u64>,
    required_approvals: u32,
    populated: bool,
    members: HashMap<u64, u32>,
}

impl MultisigDistribution {
    /// The administrator identity, once configured.
    pub closed spec fn admin_id(&self) -> Option<u64> {
        self.admin
    }

    /// How many approvers the one bulk registration needs.
    pub closed spec fn required(&self) -> u32 {
        self.required_approvals
    }

    /// The one allowed bulk registration has happened.
    pub closed spec fn is_populated(&self) -> bool {
        self.populated
    }

    /// The member registry: identity to percent allocation.
    pub closed spec fn members(&self) -> Map<u64, u32> {
        self.members@
    }

    /// The one-time configuration has happened.
    pub open spec fn initialized(&self) -> bool {
        self.admin_id() is Some
    }

    /// The invariants every operation preserves: percents lie in `[1, 100]`,
    /// the registry is empty until the bulk registration, and a ledger
    /// cannot be populated before it is configured.
    pub open spec fn wf(&self) -> bool {
        &&& forall|m: u64| #[trigger]
            self.members().contains_key(m) ==> 1 <= self.members()[m] <= 100
        &&& (!self.is_populated() ==> self.members() =~= Map::<u64, u32>::empty())
        &&& (!self.initialized() ==> !self.is_populated())
    }

    /// The outcome of the one bulk registration, in the order the checks
    /// are made: the ledger must be configured but not yet populated; at
    /// least `required()` approvers must be listed; every listed approver
    /// must have authorized this same invocation; the member and percent
    /// listings must have equal length; every percent must lie in
    /// `[1, 100]` and the percents must sum to exactly one hundred.
    pub open spec fn populate_outcome(
        &self,
        auth: &AuthContext,
        approvers: Seq<u64>,
        ms: Seq<u64>,
        ps: Seq<u32>,
    ) -> Option<DistributionError> {
        if self.admin_id() is None {
            Some(DistributionError::NotInitialized)
        } else if self.is_populated() {
            Some(DistributionError::AlreadyInitialized)
        } else if approvers.len() < self.required() {
            Some(DistributionError::Unauthorized)
        } else if !(forall|i: int| 0 <= i < approvers.len() ==> #[trigger] auth.grants(
            approvers[i],
        )) {
            Some(DistributionError::Unauthorized)
        } else if ms.len() != ps.len() {
            Some(DistributionError::InvalidAmount)
        } else if !(forall|i: int| 0 <= i < ps.len() ==> 1 <= #[trigger] ps[i] <= 100) {
            Some(DistributionError::InvalidPercent)
        } else if sum_of(ps) != 100 {
            Some(DistributionError::InvalidPercent)
        } else {
            None
        }
    }

    /// A fresh, unconfigured ledger.
    pub fn new() -> (d: MultisigDistribution)
        ensures
            d.wf(),
            !d.initialized(),
            !d.is_populated(),
            d.members() == Map::<u64, u32>::empty(),
    {
        MultisigDistribution {
            admin: None,
            required_approvals: 0,
            populated: false,
            members: HashMap::new(),
        }
    }

    /// One-time configuration: records the administrator and the approval
    /// threshold; the registry stays empty until the bulk registration.
    pub fn initialize(&mut self, auth: &AuthContext, admin: u64, required_approvals: u32) -> (r:
        Result<(), DistributionError>)
        requires
            old(self).wf(),
        ensures
            final(self).wf(),
            (if old(self).initialized() {
                &&& r == Err::<(), DistributionError>(DistributionError::AlreadyInitialized)
                &&& *final(self) == *old(self)
            } else if !auth.grants(admin) {
                &&& r == Err::<(), DistributionError>(DistributionError::Unauthorized)
                &&& *final(self) == *old(self)
            } else {
                &&& r == Ok::<(), DistributionError>(())
                &&& final(self).admin_id() == Some(admin)
                &&& final(self).required() == required_approvals
                &&& !final(self).is_populated()
                &&& final(self).members() == old(self).members()
            }),
    {
        if self.admin.is_some() {
            return Err(DistributionError::AlreadyInitialized);
        }
        if !auth.verifies(admin) {
            return Err(DistributionError::Unauthorized);
        }
        self.admin = Some(admin);
        self.required_approvals = required_approvals;
        proof {
            assert(self.members() == old(self).members());
        }
        Ok(())
    }

    /// The one allowed bulk registration. All-or-nothing: on any failed
    /// check the call returns the error and nothing changes; on success
    /// every listed pair is written, a later duplicate overwriting an
    /// earlier one, and the ledger is irreversibly populated.
    #[verifier::loop_isolation(false)]
    pub fn add_members_multisig(
        &mut self,
        auth: &AuthContext,
        approvers: &Vec<u64>,
        members: &Vec<u64>,
        percents: &Vec<u32>,
    ) -> (r: Result<(), DistributionError>)
        requires
            old(self).wf(),
        ensures
            final(self).wf(),
            (match old(self).populate_outcome(auth, approvers@, members@, percents@) {
                Some(e) => {
                    &&& r == Err::<(), DistributionError>(e)
                    &&& *final(self) == *old(self)
                },
                None => {
                    &&& r == Ok::<(), DistributionError>(())
                    &&& final(self).is_populated()
                    &&& final(self).members() == registry_of(members@, percents@)
                    &&& final(self).admin_id() == old(self).admin_id()
                    &&& final(self).required() == old(self).required()
                },
            }),
    {
        if self.admin.is_none() {
            return Err(DistributionError::NotInitialized);
        }
        if self.populated {
            return Err(DistributionError::AlreadyInitialized);
        }
        if (approvers.len() as u64) < (self.required_approvals as u64) {
            return Err(DistributionError::Unauthorized);
        }
        let mut i: usize = 0;
        while i < approvers.len()
            invariant
                0 <= i <= approvers@.len(),
                forall|j: int| 0 <= j < i ==> #[trigger] auth.grants(approvers@[j]),
            decreases approvers@.len() - i,
        {
            if !auth.verifies(approvers[i]) {
                return Err(DistributionError::Unauthorized);
            }
            i += 1;
        }
        if members.len() != percents.len() {
            return Err(DistributionError::InvalidAmount);
        }
        let mut sum: u64 = 0;
        let mut i: usize = 0;
        while i < percents.len()
            invariant
                0 <= i <= percents@.len(),
                forall|j: int| 0 <= j < i ==> 1 <= #[trigger] percents@[j] <= 100,
                sum == sum_of(percents@.take(i as int)),
                sum <= 100,
            decreases percents@.len() - i,
        {
            let p = percents[i];
            if p == 0 || p > 100 {
                return Err(DistributionError::InvalidPercent);
            }
            proof {
                lemma_sum_of_take_step(percents@, i as int);
            }
            sum = sum + p as u64;
            if sum > 100 {
                proof {
                    lemma_sum_of_prefix_le(percents@, i as int + 1);
                }
                return Err(DistributionError::InvalidPercent);
            }
            i += 1;
        }
        proof {
            assert(percents@.take(percents@.len() as int) =~= percents@);
        }
        if sum != 100 {
            return Err(DistributionError::InvalidPercent);
        }
        let n = members.len();
        let mut i: usize = 0;
        while i < n
            invariant
                members@.len() == n,
                percents@.len() == n,
                0 <= i <= n,
                forall|j: int| 0 <= j < n ==> 1 <= #[trigger] percents@[j] <= 100,
                self.members@ == registry_of(members@.take(i as int), percents@.take(i as int)),
                forall|m: u64| #[trigger]
                    self.members@.contains_key(m) ==> 1 <= self.members@[m] <= 100,
                self.admin == old(self).admin,
                self.required_approvals == old(self).required_approvals,
                self.populated == old(self).populated,
            decreases n - i,
        {
            let m = members[i];
            let p = percents[i];
            self.members.insert(m, p);
            proof {
                assert(members@.take(i as int + 1).drop_last() =~= members@.take(i as int));
                assert(percents@.take(i as int + 1).drop_last() =~= percents@.take(i as int));
                assert(members@.take(i as int + 1).last() == m);
                assert(percents@.take(i as int + 1).last() == p);
            }
            i += 1;
        }
        self.populated = true;
        proof {
            assert(members@.take(n as int) =~= members@);
            assert(percents@.take(n as int) =~= percents@);
            assert(self.members() == registry_of(members@, percents@));
        }
        Ok(())
    }

    /// Whether `address` is a registered member.
    pub fn is_member(&self, address: u64) -> (r: bool)
        ensures
            r == self.members().contains_key(address),
    {
        self.members.contains_key(&address)
    }

    /// The percent allocation of `member`, if registered.
    pub fn get_member_percent(&self, member: u64) -> (r: Option<u32>)
        ensures
            r == (if self.members().contains_key(member) {
                Some(self.members()[member])
            } else {
                None::<u32>
            }),
    {
        match self.members.get(&member) {
            Some(p) => Some(*p),
            None => None,
        }
    }

    /// The stored administrator, if configured.
    pub fn get_admin(&self) -> (r: Option<u64>)
        ensures
            r == self.admin_id(),
    {
        self.admin
    }

    /// The approval threshold, once configured.
    pub fn get_required_approvals(&self) -> (r: Option<u32>)
        ensures
            r == (if self.initialized() {
                Some(self.required())
            } else {
                None::<u32>
            }),
    {
        if self.admin.is_some() {
            Some(self.required_approvals)
        } else {
            None
        }
    }

    /// Whether the one bulk registration has happened.
    pub fn are_members_initialized(&self) -> (r: bool)
        ensures
            r == self.is_populated(),
    {
        self.populated
    }
}

/// A prefix of a batch never sums to more than the whole batch.
proof fn lemma_sum_of_prefix_le(ps: Seq<u32>, k: int)
    requires
        0 <= k <= ps.len(),
    ensures
        sum_of(ps.take(k)) <= sum_of(ps),
    decreases ps.len(),
{
    if k == ps.len() {
        assert(ps.take(k) =~= ps);
    } else {
        assert(ps.drop_last().take(k) =~= ps.take(k));
        lemma_sum_of_prefix_le(ps.drop_last(), k);
    }
}

/// Extending a prefix by one element adds exactly that element to its sum.
proof fn lemma_sum_of_take_step(ps: Seq<u32>, i: int)
    requires
        0 <= i < ps.len(),
    ensures
        sum_of(ps.take(i + 1)) == sum_of(ps.take(i)) + ps[i],
{
    assert(ps.take(i + 1).drop_last() =~= ps.take(i));
    assert(ps.take(i + 1).last() == ps[i]);
}

/// Every member listed in a successful bulk registration reports the
/// percent listed with its last occurrence; with distinct identities, each
/// member reports exactly the percent beside it.
pub proof fn lemma_registry_of_reports_percent(ms: Seq<u64>, ps: Seq<u32>, i: int)
    requires
        ms.len() == ps.len(),
        0 <= i < ms.len(),
        forall|j: int| i < j < ms.len() ==> ms[j] != ms[i],
    ensures
        registry_of(ms, ps).contains_key(ms[i]),
        registry_of(ms, ps)[ms[i]] == ps[i],
    decreases ms.len(),
{
    if i == ms.len() - 1 {
    } else {
        assert(ms.drop_last()[i] == ms[i]);
        lemma_registry_of_reports_percent(ms.drop_last(), ps.drop_last(), i);
        assert(ms.last() != ms[i]);
    }
}

/// The bulk registration registers exactly the listed identities: a key is
/// in the written registry if and only if it occurs in the member listing.
pub proof fn lemma_registry_of_members(ms: Seq<u64>, ps: Seq<u32>, k: u64)
    ensures
        registry_of(ms, ps).contains_key(k) <==> exists|i: int|
            0 <= i < ms.len() && ms[i] == k,
    decreases ms.len(),
{
    if ms.len() > 0 {
        lemma_registry_of_members(ms.drop_last(), ps.drop_last(), k);
        if k == ms.last() {
            assert(ms[ms.len() - 1] == k);
        } else {
            if registry_of(ms, ps).contains_key(k) {
                let i = choose|i: int|
                    0 <= i < ms.drop_last().len() && ms.drop_last()[i] == k;
                assert(ms[i] == k);
            }
            if exists|i: int| 0 <= i < ms.len() && ms[i] == k {
                let i = choose|i: int| 0 <= i < ms.len() && ms[i] == k;
                assert(ms.drop_last()[i] == k);
            }
        }
    }
}

} // verus!
