//! The collaborator registries seen through the engine: profiles,
//! organizations, balances, and the reputation-facing traits.

use pallet_task::pallet::Pallet;
use pallet_task::profiles::Profile;
use pallet_task::reputation::{HasAccountId, HasCredibility, HasReputation};
use pallet_task::types::Error;

const ALICE: u64 = 1;
const BOB: u64 = 2;

#[test]
fn fresh_engine_is_empty() {
    let p = Pallet::new();
    assert_eq!(p.task_count(), 0);
    assert_eq!(p.free_balance(ALICE), 0);
    assert_eq!(p.reserved_balance(ALICE), 0);
    assert!(!p.has_profile(ALICE));
    assert!(!p.has_organization(9));
    assert!(p.tasks_owned(ALICE).is_empty());
    assert!(p.events().is_empty());
}

#[test]
fn profile_registration_is_idempotent() {
    let mut p = Pallet::new();
    p.create_profile(ALICE);
    assert!(p.has_profile(ALICE));
    assert_eq!(p.reputation_of(ALICE), 0);
    p.create_profile(ALICE);
    assert!(p.has_profile(ALICE));
    assert_eq!(p.reputation_of(ALICE), 0);
    assert!(!p.has_profile(BOB));
}

#[test]
fn reputation_defaults_to_zero_without_profile() {
    let p = Pallet::new();
    assert_eq!(p.reputation_of(BOB), 0);
    assert!(p.completed_of(BOB).is_empty());
}

#[test]
fn organizations_are_looked_up_by_identifier() {
    let mut p = Pallet::new();
    p.add_organization(4);
    p.add_organization(9);
    assert!(p.has_organization(4));
    assert!(p.has_organization(9));
    assert!(!p.has_organization(5));
}

#[test]
fn funding_accumulates_free_balance() {
    let mut p = Pallet::new();
    assert!(p.fund(ALICE, 300));
    assert!(p.fund(ALICE, 200));
    assert_eq!(p.free_balance(ALICE), 500);
    assert_eq!(p.reserved_balance(ALICE), 0);
    assert_eq!(p.free_balance(BOB), 0);
}

#[test]
fn operations_on_unknown_records_fail() {
    let mut p = Pallet::new();
    assert!(p.fund(ALICE, 100));
    p.create_profile(ALICE);
    let id = p
        .create_task(
            ALICE,
            b"t".to_vec(),
            b"s".to_vec(),
            10,
            2_000,
            b"a".to_vec(),
            b"k".to_vec(),
            None,
            1_000,
            1,
        )
        .expect("creating a task must succeed");
    assert_eq!(p.remove_task(ALICE, id), Ok(()));
    assert_eq!(p.start_task(BOB, id), Err(Error::TaskNotExist));
    assert_eq!(p.complete_task(BOB, id, 2), Err(Error::TaskNotExist));
    assert_eq!(p.accept_task(ALICE, id), Err(Error::TaskNotExist));
    assert_eq!(p.reject_task(ALICE, id, b"f".to_vec()), Err(Error::TaskNotExist));
    let r = p.update_task(
        ALICE,
        id,
        b"t".to_vec(),
        b"s".to_vec(),
        10,
        2_000,
        b"a".to_vec(),
        b"k".to_vec(),
        None,
        1_000,
        1,
    );
    assert_eq!(r, Err(Error::TaskNotExist));
}

#[test]
fn profile_carries_the_reputation_traits() {
    let profile = Profile {
        account: ALICE,
        reputation: 42,
        credibility: 700,
        completed_tasks: Vec::new(),
    };
    assert_eq!(profile.get_reputation(), 42);
    assert_eq!(profile.get_credibility(), 700);
    assert_eq!(profile.get_account_id(), ALICE);
}
