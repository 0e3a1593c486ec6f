use beenergy::auth::AuthContext;
use beenergy::errors::DistributionError;
use beenergy::token::EnergyToken;

const ADMIN: u64 = 3;
const USER: u64 = 42;

#[test]
fn minting_is_admin_gated() {
    let t = EnergyToken::new(ADMIN);
    let mut auth = AuthContext::new();
    auth.grant(ADMIN);
    assert_eq!(t.mint_energy(&auth, USER, 1_000), Ok(()));
    let unauthorized = AuthContext::new();
    assert_eq!(
        t.mint_energy(&unauthorized, USER, 1_000),
        Err(DistributionError::Unauthorized)
    );
}

#[test]
fn minting_needs_a_positive_amount() {
    let t = EnergyToken::new(ADMIN);
    let mut auth = AuthContext::new();
    auth.grant(ADMIN);
    assert_eq!(
        t.mint_energy(&auth, USER, 0),
        Err(DistributionError::InvalidAmount)
    );
    assert_eq!(
        t.mint_energy(&auth, USER, -5),
        Err(DistributionError::InvalidAmount)
    );
}

#[test]
fn burning_is_covered_by_the_balance() {
    let t = EnergyToken::new(ADMIN);
    let mut auth = AuthContext::new();
    auth.grant(USER);
    assert_eq!(t.burn_consumption(&auth, USER, 30, 100), Ok(()));
    assert_eq!(
        t.burn_consumption(&auth, USER, 101, 100),
        Err(DistributionError::InsufficientEnergy)
    );
    assert_eq!(
        t.burn_consumption(&auth, USER, 0, 100),
        Err(DistributionError::InvalidAmount)
    );
    let unauthorized = AuthContext::new();
    assert_eq!(
        t.burn_consumption(&unauthorized, USER, 30, 100),
        Err(DistributionError::Unauthorized)
    );
}

#[test]
fn admin_handover_is_gated_by_the_current_admin() {
    let mut t = EnergyToken::new(ADMIN);
    let mut old_auth = AuthContext::new();
    old_auth.grant(ADMIN);
    assert_eq!(t.update_admin(&old_auth, USER), Ok(()));
    assert_eq!(t.get_admin(), USER);
    assert_eq!(
        t.update_admin(&old_auth, ADMIN),
        Err(DistributionError::Unauthorized)
    );
    let mut new_auth = AuthContext::new();
    new_auth.grant(USER);
    assert_eq!(t.update_admin(&new_auth, ADMIN), Ok(()));
    assert_eq!(t.get_admin(), ADMIN);
}
