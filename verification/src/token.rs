use crate::auth::AuthContext;
use crate::errors::DistributionError;
use vstd::prelude::*;

verus! {

/// The admin gate of the fungible energy token.
///
/// The token's balance and supply bookkeeping is delegated to a conforming
/// token-ledger component on the host; this type owns only the decisions
/// the wrapper makes around it: who may mint, who may burn, and against
/// which balance. The caller reads the balance from the token ledger,
/// hands it in, and performs the mint or burn the decision allows.
pub struct EnergyToken {
    admin: u64,
}

impl EnergyToken {
    /// The identity authorized to mint.
    pub closed spec fn admin_id(&self) -> u64 {
        self.admin
    }

    /// A token gate with `admin` as the minting authority, as the
    /// constructor records it.
    pub fn new(admin: u64) -> (t: EnergyToken)
        ensures
            t.admin_id() == admin,
    {
        EnergyToken { admin }
    }

    /// May `kwh_amount` be minted to `to`? Only with the administrator's
    /// authorization, and only for a positive amount; the recipient does
    /// not bear on the decision.
    #[allow(unused_variables)]
    pub fn mint_energy(&self, auth: &AuthContext, to: u64, kwh_amount: i128) -> (r: Result<
        (),
        DistributionError,
    >)
        ensures
            (if !auth.grants(self.admin_id()) {
                r == Err::<(), DistributionError>(DistributionError::Unauthorized)
            } else if kwh_amount <= 0 {
                r == Err::<(), DistributionError>(DistributionError::InvalidAmount)
            } else {
                r == Ok::<(), DistributionError>(())
            }),
    {
        if !auth.verifies(self.admin) {
            return Err(DistributionError::Unauthorized);
        }
        if kwh_amount <= 0 {
            return Err(DistributionError::InvalidAmount);
        }
        Ok(())
    }

    /// May `from` burn `kwh_amount` against its current `balance`? Only
    /// with its own authorization, for a positive amount covered by the
    /// balance.
    pub fn burn_consumption(
        &self,
        auth: &AuthContext,
        from: u64,
        kwh_amount: i128,
        balance: i128,
    ) -> (r: Result<(), DistributionError>)
        ensures
            (if !auth.grants(from) {
                r == Err::<(), DistributionError>(DistributionError::Unauthorized)
            } else if kwh_amount <= 0 {
                r == Err::<(), DistributionError>(DistributionError::InvalidAmount)
            } else if balance < kwh_amount {
                r == Err::<(), DistributionError>(DistributionError::InsufficientEnergy)
            } else {
                r == Ok::<(), DistributionError>(())
            }),
    {
        if !auth.verifies(from) {
            return Err(DistributionError::Unauthorized);
        }
        if kwh_amount <= 0 {
            return Err(DistributionError::InvalidAmount);
        }
        if balance < kwh_amount {
            return Err(DistributionError::InsufficientEnergy);
        }
        Ok(())
    }

    /// Hands the minting authority to `new_admin`; only the current
    /// administrator, with its authorization, may do so.
    pub fn update_admin(&mut self, auth: &AuthContext, new_admin: u64) -> (r: Result<
        (),
        DistributionError,
    >)
        ensures
            (if !auth.grants(old(self).admin_id()) {
                &&& r == Err::<(), DistributionError>(DistributionError::Unauthorized)
                &&& *final(self) == *old(self)
            } else {
                &&& r == Ok::<(), DistributionError>(())
                &&& final(self).admin_id() == new_admin
            }),
    {
        if !auth.verifies(self.admin) {
            return Err(DistributionError::Unauthorized);
        }
        self.admin = new_admin;
        Ok(())
    }

    /// The current minting authority.
    pub fn get_admin(&self) -> (r: u64)
        ensures
            r == self.admin_id(),
    {
        self.admin
    }
}

} // verus!
