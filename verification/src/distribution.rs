use crate::auth::AuthContext;
use crate::errors::DistributionError;
use crate::share::{compute_share, proportional_share};
use std::collections::HashMap;
use vstd::prelude::*;

verus! {

broadcast use vstd::std_specs::hash::group_hash_axioms;

/// The notification owed to the host's event channel when a claim succeeds
/// against a non-empty pool: the claiming member and the amount computed
/// for it.
#[derive(Clone, Copy, Debug, PartialEq, Eq, Structural)]
pub struct EnergyClaimed {
    pub recipient: u64,
    pub amount: i128,
}

/// The single-administrator distribution ledger: a registry mapping each
/// member identity to its percent allocation, a non-negative counter of
/// generated energy, and the per-member time of the last claim.
///
/// Identities are plain integers standing for host addresses; the host
/// resolves an address to such an integer before calling in. The last-claim
/// record lives in the host's ephemeral storage tier and is informational
/// only: nothing here relies on it.
pub struct EnergyDistribution {
    admin: Option<u64>,
    total: i128,
    members: HashMap<u64, u32>,
    last_claimed: HashMap<u64, u64>,
}

impl EnergyDistribution {
    /// The administrator identity, once initialized.
    pub closed spec fn admin_id(&self) -> Option<u64> {
        self.admin
    }

    /// The energy generated since the last reset.
    pub closed spec fn total(&self) -> int {
        self.total as int
    }

    /// The member registry: identity to percent allocation.
    pub closed spec fn members(&self) -> Map<u64, u32> {
        self.members@
    }

    /// The ledger time at which each member last claimed.
    pub closed spec fn last_claims(&self) -> Map<u64, u64> {
        self.last_claimed@
    }

    /// The one-time initialization has happened.
    pub open spec fn initialized(&self) -> bool {
        self.admin_id() is Some
    }

    /// The invariants every operation preserves: the counter is never
    /// negative, and every registered percent lies in `[1, 100]`. The sum
    /// of the percents across members is deliberately not constrained.
    pub open spec fn wf(&self) -> bool {
        &&& 0 <= self.total()
        &&& forall|m: u64| #[trigger]
            self.members().contains_key(m) ==> 1 <= self.members()[m] <= 100
    }

    /// The outcome of the admin check that opens every admin-only
    /// operation: the invocation must be authorized by `admin`, the ledger
    /// must be initialized, and `admin` must be the stored administrator.
    pub open spec fn admin_gate(&self, auth: &AuthContext, admin: u64) -> Option<
        DistributionError,
    > {
        if !auth.grants(admin) {
            Some(DistributionError::Unauthorized)
        } else if self.admin_id() is None {
            Some(DistributionError::NotInitialized)
        } else if self.admin_id() != Some(admin) {
            Some(DistributionError::Unauthorized)
        } else {
            None
        }
    }

    /// A fresh, uninitialized ledger: no administrator, an empty registry,
    /// and a zero counter.
    pub fn new() -> (d: EnergyDistribution)
        ensures
            d.wf(),
            !d.initialized(),
            d.total() == 0,
            d.members() == Map::<u64, u32>::empty(),
            d.last_claims() == Map::<u64, u64>::empty(),
    {
        EnergyDistribution {
            admin: None,
            total: 0,
            members: HashMap::new(),
            last_claimed: HashMap::new(),
        }
    }

    /// One-time initialization: records `admin` as the administrator and
    /// zeroes the counter. Fails with `AlreadyInitialized` on a second call,
    /// before the invocation's authorization is even consulted, and with
    /// `Unauthorized` when `admin` did not authorize the invocation.
    pub fn initialize(&mut self, auth: &AuthContext, admin: u64) -> (r: Result<
        (),
        DistributionError,
    >)
        requires
            old(self).wf(),
        ensures
            final(self).wf(),
            (if old(self).initialized() {
                &&& r == Err::<(), DistributionError>(DistributionError::AlreadyInitialized)
                &&& *final(self) == *old(self)
            } else if !auth.grants(admin) {
                &&& r == Err::<(), DistributionError>(DistributionError::Unauthorized)
                &&& *final(self) == *old(self)
            } else {
                &&& r == Ok::<(), DistributionError>(())
                &&& final(self).admin_id() == Some(admin)
                &&& final(self).total() == 0
                &&& final(self).members() == old(self).members()
                &&& final(self).last_claims() == old(self).last_claims()
            }),
    {
        if self.admin.is_some() {
            return Err(DistributionError::AlreadyInitialized);
        }
        if !auth.verifies(admin) {
            return Err(DistributionError::Unauthorized);
        }
        self.admin = Some(admin);
        self.total = 0;
        proof {
            assert(self.members() == old(self).members());
        }
        Ok(())
    }

    /// Registers `member` with a share of `percent`, overwriting any
    /// earlier allocation. Only the stored administrator, with the
    /// invocation authorized by it, may call; `percent` must lie in
    /// `[1, 100]`, else the call fails with `InvalidPercent`. On failure
    /// nothing changes.
    pub fn add_member(
        &mut self,
        auth: &AuthContext,
        admin: u64,
        member: u64,
        percent: u32,
    ) -> (r: Result<(), DistributionError>)
        requires
            old(self).wf(),
        ensures
            final(self).wf(),
            (match old(self).admin_gate(auth, admin) {
                Some(e) => {
                    &&& r == Err::<(), DistributionError>(e)
                    &&& *final(self) == *old(self)
                },
                None => {
                    if percent == 0 || percent > 100 {
                        &&& r == Err::<(), DistributionError>(DistributionError::InvalidPercent)
                        &&& *final(self) == *old(self)
                    } else {
                        &&& r == Ok::<(), DistributionError>(())
                        &&& final(self).members() == old(self).members().insert(member, percent)
                        &&& final(self).admin_id() == old(self).admin_id()
                        &&& final(self).total() == old(self).total()
                        &&& final(self).last_claims() == old(self).last_claims()
                    }
                },
            }),
    {
        if let Err(e) = self.check_admin(auth, admin) {
            return Err(e);
        }
        if percent == 0 || percent > 100 {
            return Err(DistributionError::InvalidPercent);
        }
        self.members.insert(member, percent);
        proof {
            assert(self.members() == old(self).members().insert(member, percent));
        }
        Ok(())
    }

    /// Changes the allocation of an existing member. The checks of
    /// `add_member` apply, and additionally the member must already be
    /// registered, else the call fails with `MemberNotFound`.
    pub fn update_member_percent(
        &mut self,
        auth: &AuthContext,
        admin: u64,
        member: u64,
        new_percent: u32,
    ) -> (r: Result<(), DistributionError>)
        requires
            old(self).wf(),
        ensures
            final(self).wf(),
            (match old(self).admin_gate(auth, admin) {
                Some(e) => {
                    &&& r == Err::<(), DistributionError>(e)
                    &&& *final(self) == *old(self)
                },
                None => {
                    if new_percent == 0 || new_percent > 100 {
                        &&& r == Err::<(), DistributionError>(DistributionError::InvalidPercent)
                        &&& *final(self) == *old(self)
                    } else if !old(self).members().contains_key(member) {
                        &&& r == Err::<(), DistributionError>(DistributionError::MemberNotFound)
                        &&& *final(self) == *old(self)
                    } else {
                        &&& r == Ok::<(), DistributionError>(())
                        &&& final(self).members() == old(self).members().insert(
                            member,
                            new_percent,
                        )
                        &&& final(self).admin_id() == old(self).admin_id()
                        &&& final(self).total() == old(self).total()
                        &&& final(self).last_claims() == old(self).last_claims()
                    }
                },
            }),
    {
        if let Err(e) = self.check_admin(auth, admin) {
            return Err(e);
        }
        if new_percent == 0 || new_percent > 100 {
            return Err(DistributionError::InvalidPercent);
        }
        if !self.members.contains_key(&member) {
            return Err(DistributionError::MemberNotFound);
        }
        self.members.insert(member, new_percent);
        proof {
            assert(self.members() == old(self).members().insert(member, new_percent));
        }
        Ok(())
    }

    /// Unregisters `member`. Admin-gated; the delete is idempotent: removing
    /// an absent member succeeds and changes nothing.
    pub fn remove_member(&mut self, auth: &AuthContext, admin: u64, member: u64) -> (r: Result<
        (),
        DistributionError,
    >)
        requires
            old(self).wf(),
        ensures
            final(self).wf(),
            (match old(self).admin_gate(auth, admin) {
                Some(e) => {
                    &&& r == Err::<(), DistributionError>(e)
                    &&& *final(self) == *old(self)
                },
                None => {
                    &&& r == Ok::<(), DistributionError>(())
                    &&& final(self).members() == old(self).members().remove(member)
                    &&& final(self).admin_id() == old(self).admin_id()
                    &&& final(self).total() == old(self).total()
                    &&& final(self).last_claims() == old(self).last_claims()
                },
            }),
    {
        if let Err(e) = self.check_admin(auth, admin) {
            return Err(e);
        }
        self.members.remove(&member);
        proof {
            assert(self.members() == old(self).members().remove(member));
        }
        Ok(())
    }

    /// Adds `kwh` to the generation counter. Admin-gated; a negative `kwh`
    /// fails with `InvalidAmount`. The counter would be unrecoverably lost
    /// on overflow, so a call that would pass every check must keep the sum
    /// within range; the host checks this before calling in.
    pub fn record_generation(&mut self, auth: &AuthContext, admin: u64, kwh: i128) -> (r: Result<
        (),
        DistributionError,
    >)
        requires
            old(self).wf(),
            old(self).admin_gate(auth, admin) is None && kwh >= 0 ==> old(self).total() + kwh
                <= i128::MAX,
        ensures
            final(self).wf(),
            (match old(self).admin_gate(auth, admin) {
                Some(e) => {
                    &&& r == Err::<(), DistributionError>(e)
                    &&& *final(self) == *old(self)
                },
                None => {
                    if kwh < 0 {
                        &&& r == Err::<(), DistributionError>(DistributionError::InvalidAmount)
                        &&& *final(self) == *old(self)
                    } else {
                        &&& r == Ok::<(), DistributionError>(())
                        &&& final(self).total() == old(self).total() + kwh
                        &&& final(self).members() == old(self).members()
                        &&& final(self).admin_id() == old(self).admin_id()
                        &&& final(self).last_claims() == old(self).last_claims()
                    }
                },
            }),
    {
        if let Err(e) = self.check_admin(auth, admin) {
            return Err(e);
        }
        if kwh < 0 {
            return Err(DistributionError::InvalidAmount);
        }
        self.total = self.total + kwh;
        proof {
            assert(self.members() == old(self).members());
        }
        Ok(())
    }

    /// Sets the generation counter back to zero. Admin-gated; the registry
    /// and the claim records are untouched.
    pub fn reset_generation(&mut self, auth: &AuthContext, admin: u64) -> (r: Result<
        (),
        DistributionError,
    >)
        requires
            old(self).wf(),
        ensures
            final(self).wf(),
            (match old(self).admin_gate(auth, admin) {
                Some(e) => {
                    &&& r == Err::<(), DistributionError>(e)
                    &&& *final(self) == *old(self)
                },
                None => {
                    &&& r == Ok::<(), DistributionError>(())
                    &&& final(self).total() == 0
                    &&& final(self).members() == old(self).members()
                    &&& final(self).admin_id() == old(self).admin_id()
                    &&& final(self).last_claims() == old(self).last_claims()
                },
            }),
    {
        if let Err(e) = self.check_admin(auth, admin) {
            return Err(e);
        }
        self.total = 0;
        proof {
            assert(self.members() == old(self).members());
        }
        Ok(())
    }

    /// A member claims its proportional share of the current pool,
    /// `floor(total * percent / 100)`, at ledger time `now`. The invocation
    /// must be authorized by the member itself, and the member must be
    /// registered. Claiming debits nothing: the pool is unchanged. With an
    /// empty pool the call returns zero and records nothing; otherwise it
    /// records `now` as the member's last claim time, and the host owes the
    /// event channel an `EnergyClaimed` notification for the returned
    /// amount.
    pub fn claim_energy(&mut self, auth: &AuthContext, member: u64, now: u64) -> (r: Result<
        i128,
        DistributionError,
    >)
        requires
            old(self).wf(),
        ensures
            final(self).wf(),
            final(self).total() == old(self).total(),
            final(self).members() == old(self).members(),
            final(self).admin_id() == old(self).admin_id(),
            (if !auth.grants(member) {
                &&& r == Err::<i128, DistributionError>(DistributionError::Unauthorized)
                &&& *final(self) == *old(self)
            } else if !old(self).members().contains_key(member) {
                &&& r == Err::<i128, DistributionError>(DistributionError::MemberNotFound)
                &&& *final(self) == *old(self)
            } else if old(self).total() <= 0 {
                &&& r == Ok::<i128, DistributionError>(0)
                &&& *final(self) == *old(self)
            } else {
                &&& r matches Ok(amount) && amount as int == proportional_share(
                    old(self).total(),
                    old(self).members()[member] as int,
                )
                &&& final(self).last_claims() == old(self).last_claims().insert(member, now)
            }),
    {
        if !auth.verifies(member) {
            return Err(DistributionError::Unauthorized);
        }
        let percent: u32 = match self.members.get(&member) {
            Some(p) => *p,
            None => {
                return Err(DistributionError::MemberNotFound);
            },
        };
        if self.total <= 0 {
            return Ok(0);
        }
        proof {
            assert(self.members().contains_key(member));
        }
        let amount = compute_share(self.total, percent);
        self.last_claimed.insert(member, now);
        proof {
            assert(self.members() == old(self).members());
            assert(self.last_claims() == old(self).last_claims().insert(member, now));
        }
        Ok(amount)
    }

    /// The amount a claim by `member` would return right now:
    /// `floor(total * percent / 100)`, or `MemberNotFound` if the member is
    /// not registered. An unauthenticated read; nothing changes.
    pub fn get_claimable_energy(&self, member: u64) -> (r: Result<i128, DistributionError>)
        requires
            self.wf(),
        ensures
            (if self.members().contains_key(member) {
                r matches Ok(amount) && amount as int == proportional_share(
                    self.total(),
                    self.members()[member] as int,
                )
            } else {
                r == Err::<i128, DistributionError>(DistributionError::MemberNotFound)
            }),
    {
        let percent: u32 = match self.members.get(&member) {
            Some(p) => *p,
            None => {
                return Err(DistributionError::MemberNotFound);
            },
        };
        proof {
            assert(self.members().contains_key(member));
        }
        Ok(compute_share(self.total, percent))
    }

    /// The percent allocation of `member`, if registered.
    pub fn get_member_percent(&self, member: u64) -> (r: Option<u32>)
        ensures
            r == (if self.members().contains_key(member) {
                Some(self.members()[member])
            } else {
                None::<u32>
            }),
    {
        match self.members.get(&member) {
            Some(p) => Some(*p),
            None => None,
        }
    }

    /// Whether `address` is a registered member.
    pub fn is_member(&self, address: u64) -> (r: bool)
        ensures
            r == self.members().contains_key(address),
    {
        self.members.contains_key(&address)
    }

    /// The energy generated since the last reset.
    pub fn get_total_generated(&self) -> (r: i128)
        ensures
            r as int == self.total(),
    {
        self.total
    }

    /// The ledger time of the member's last recorded claim, if any survives
    /// in the ephemeral tier.
    pub fn get_last_claimed(&self, member: u64) -> (r: Option<u64>)
        ensures
            r == (if self.last_claims().contains_key(member) {
                Some(self.last_claims()[member])
            } else {
                None::<u64>
            }),
    {
        match self.last_claimed.get(&member) {
            Some(t) => Some(*t),
            None => None,
        }
    }

    /// The stored administrator, if initialized.
    pub fn get_admin(&self) -> (r: Option<u64>)
        ensures
            r == self.admin_id(),
    {
        self.admin
    }

    /// The shared admin gate: `admin` must have authorized the invocation,
    /// the ledger must be initialized, and `admin` must equal the stored
    /// administrator.
    fn check_admin(&self, auth: &AuthContext, admin: u64) -> (r: Result<(), DistributionError>)
        ensures
            r == (match self.admin_gate(auth, admin) {
                Some(e) => Err::<(), DistributionError>(e),
                None => Ok::<(), DistributionError>(()),
            }),
    {
        if !auth.verifies(admin) {
            return Err(DistributionError::Unauthorized);
        }
        match self.admin {
            None => Err(DistributionError::NotInitialized),
            Some(stored) => {
                if stored != admin {
                    Err(DistributionError::Unauthorized)
                } else {
                    Ok(())
                }
            },
        }
    }
}

/// A member added with a given percent reports exactly that percent: after
/// `add_member` succeeds, leaving the registry at `pre.insert(member,
/// percent)` as its contract states, the lookup that `get_member_percent`
/// reports yields `percent`.
pub proof fn lemma_added_member_reports_percent(pre: Map<u64, u32>, member: u64, percent: u32)
    ensures
        pre.insert(member, percent).contains_key(member),
        pre.insert(member, percent)[member] == percent,
{
}

/// Resetting clears every subsequent total reading: a ledger whose counter
/// `reset_generation` has just zeroed, as its contract states, makes
/// `get_total_generated`, whose contract ties its result to the counter,
/// report zero.
pub proof fn lemma_reset_clears_reading(post: EnergyDistribution, reading: i128)
    requires
        post.total() == 0,
        reading as int == post.total(),
    ensures
        reading == 0,
{
}

/// Claiming debits nothing, so claims repeat: two ledgers with the same
/// counter and the same allocation for a member — as `claim_energy` leaves
/// them, since it changes neither — owe that member the same amount.
pub proof fn lemma_repeat_claim_same_amount(
    first: EnergyDistribution,
    second: EnergyDistribution,
    member: u64,
)
    requires
        second.total() == first.total(),
        second.members() == first.members(),
        first.members().contains_key(member),
    ensures
        proportional_share(second.total(), second.members()[member] as int) == proportional_share(
            first.total(),
            first.members()[member] as int,
        ),
{
}

} // verus!
