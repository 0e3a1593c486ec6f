use beenergy::auth::AuthContext;
use beenergy::errors::DistributionError;
use beenergy::multisig::MultisigDistribution;

const ADMIN: u64 = 1;
const APPROVERS: [u64; 3] = [11, 12, 13];
const MEMBERS: [u64; 5] = [21, 22, 23, 24, 25];

fn configured() -> (MultisigDistribution, AuthContext) {
    let mut auth = AuthContext::new();
    auth.grant(ADMIN);
    for a in APPROVERS {
        auth.grant(a);
    }
    let mut d = MultisigDistribution::new();
    assert_eq!(d.initialize(&auth, ADMIN, 3), Ok(()));
    (d, auth)
}

#[test]
fn bulk_registration_with_full_quorum_succeeds() {
    let (mut d, auth) = configured();
    let percents: Vec<u32> = vec![20, 30, 15, 25, 10];
    let r = d.add_members_multisig(&auth, &APPROVERS.to_vec(), &MEMBERS.to_vec(), &percents);
    assert_eq!(r, Ok(()));
    assert!(d.are_members_initialized());
    for (m, p) in MEMBERS.iter().zip(percents.iter()) {
        assert!(d.is_member(*m));
        assert_eq!(d.get_member_percent(*m), Some(*p));
    }
}

#[test]
fn bulk_registration_with_deficient_sum_fails() {
    let (mut d, auth) = configured();
    let percents: Vec<u32> = vec![20, 30, 15, 25, 9];
    let r = d.add_members_multisig(&auth, &APPROVERS.to_vec(), &MEMBERS.to_vec(), &percents);
    assert_eq!(r, Err(DistributionError::InvalidPercent));
    assert!(!d.are_members_initialized());
    for m in MEMBERS {
        assert!(!d.is_member(m));
    }
}

#[test]
fn bulk_registration_with_excessive_sum_fails() {
    let (mut d, auth) = configured();
    let r = d.add_members_multisig(
        &auth,
        &APPROVERS.to_vec(),
        &vec![21, 22],
        &vec![60, 60],
    );
    assert_eq!(r, Err(DistributionError::InvalidPercent));
    assert!(!d.are_members_initialized());
}

#[test]
fn zero_percent_is_rejected_even_with_full_sum() {
    let (mut d, auth) = configured();
    let r = d.add_members_multisig(
        &auth,
        &APPROVERS.to_vec(),
        &vec![21, 22],
        &vec![0, 100],
    );
    assert_eq!(r, Err(DistributionError::InvalidPercent));
}

#[test]
fn too_few_approvers_fail() {
    let (mut d, auth) = configured();
    let r = d.add_members_multisig(
        &auth,
        &vec![11, 12],
        &MEMBERS.to_vec(),
        &vec![20, 30, 15, 25, 10],
    );
    assert_eq!(r, Err(DistributionError::Unauthorized));
}

#[test]
fn every_listed_approver_must_authorize() {
    let mut auth = AuthContext::new();
    auth.grant(ADMIN);
    auth.grant(11);
    auth.grant(12);
    let mut d = MultisigDistribution::new();
    assert_eq!(d.initialize(&auth, ADMIN, 3), Ok(()));
    let r = d.add_members_multisig(
        &auth,
        &APPROVERS.to_vec(),
        &MEMBERS.to_vec(),
        &vec![20, 30, 15, 25, 10],
    );
    assert_eq!(r, Err(DistributionError::Unauthorized));
    assert!(!d.are_members_initialized());
}

#[test]
fn listing_lengths_must_match() {
    let (mut d, auth) = configured();
    let r = d.add_members_multisig(
        &auth,
        &APPROVERS.to_vec(),
        &MEMBERS.to_vec(),
        &vec![50, 50],
    );
    assert_eq!(r, Err(DistributionError::InvalidAmount));
}

#[test]
fn bulk_registration_happens_exactly_once() {
    let (mut d, auth) = configured();
    let approvers = APPROVERS.to_vec();
    let r = d.add_members_multisig(&auth, &approvers, &vec![21, 22], &vec![40, 60]);
    assert_eq!(r, Ok(()));
    let again = d.add_members_multisig(&auth, &approvers, &vec![23], &vec![100]);
    assert_eq!(again, Err(DistributionError::AlreadyInitialized));
    assert!(!d.is_member(23));
}

#[test]
fn registration_before_configuration_fails() {
    let auth = AuthContext::new();
    let mut d = MultisigDistribution::new();
    let r = d.add_members_multisig(&auth, &vec![], &vec![21], &vec![100]);
    assert_eq!(r, Err(DistributionError::NotInitialized));
}

#[test]
fn configuration_is_exactly_once() {
    let (mut d, auth) = configured();
    assert_eq!(
        d.initialize(&auth, ADMIN, 2),
        Err(DistributionError::AlreadyInitialized)
    );
}

#[test]
fn configuration_reports_admin_and_threshold() {
    let mut d = MultisigDistribution::new();
    assert_eq!(d.get_admin(), None);
    assert_eq!(d.get_required_approvals(), None);
    let mut auth = AuthContext::new();
    auth.grant(ADMIN);
    assert_eq!(d.initialize(&auth, ADMIN, 3), Ok(()));
    assert_eq!(d.get_admin(), Some(ADMIN));
    assert_eq!(d.get_required_approvals(), Some(3));
    assert!(!d.are_members_initialized());
}

#[test]
fn later_duplicate_listing_wins() {
    let (mut d, auth) = configured();
    let r = d.add_members_multisig(
        &auth,
        &APPROVERS.to_vec(),
        &vec![21, 21, 22],
        &vec![10, 30, 60],
    );
    assert_eq!(r, Ok(()));
    assert_eq!(d.get_member_percent(21), Some(30));
    assert_eq!(d.get_member_percent(22), Some(60));
}
