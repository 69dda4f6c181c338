//! The record lifecycle end to end: create, start, complete, accept,
//! reject, remove, and what each operation changes.

use pallet_task::pallet::Pallet;
use pallet_task::types::{Error, Event, TaskStatus};

const ALICE: u64 = 1;
const BOB: u64 = 2;

const NOW: u64 = 1_000;
const DEADLINE: u64 = 2_000;
const BLOCK: u64 = 1;

fn engine_with_accounts() -> Pallet {
    let mut p = Pallet::new();
    assert!(p.fund(ALICE, 1_000));
    assert!(p.fund(BOB, 500));
    p.create_profile(ALICE);
    p.create_profile(BOB);
    p
}

fn create_default_task(p: &mut Pallet, title: &[u8], budget: u64) -> pallet_task::types::TaskId {
    p.create_task(
        ALICE,
        title.to_vec(),
        b"specification".to_vec(),
        budget,
        DEADLINE,
        b"attachments".to_vec(),
        b"keywords".to_vec(),
        None,
        NOW,
        BLOCK,
    )
    .expect("creating a task must succeed")
}

#[test]
fn can_create_task() {
    let mut p = engine_with_accounts();
    let id = create_default_task(&mut p, b"title", 100);
    assert_eq!(p.task_count(), 1);
    let t = p.tasks(id).expect("the record must be stored");
    assert_eq!(t.title, b"title".to_vec());
    assert_eq!(t.initiator, ALICE);
    assert_eq!(t.volunteer, ALICE);
    assert_eq!(t.current_owner, ALICE);
    assert_eq!(t.status, TaskStatus::Created);
    assert_eq!(t.budget, 100);
    assert_eq!(t.deadline, DEADLINE);
    assert_eq!(t.created_at, BLOCK);
    assert_eq!(p.tasks_owned(ALICE), vec![id]);
    assert_eq!(p.last_event(), Event::TaskCreated(ALICE, id));
}

#[test]
fn creating_task_reserves_budget() {
    let mut p = engine_with_accounts();
    create_default_task(&mut p, b"title", 100);
    assert_eq!(p.free_balance(ALICE), 900);
    assert_eq!(p.reserved_balance(ALICE), 100);
}

#[test]
fn create_requires_profile() {
    let mut p = Pallet::new();
    assert!(p.fund(ALICE, 1_000));
    let r = p.create_task(
        ALICE,
        b"t".to_vec(),
        b"s".to_vec(),
        10,
        DEADLINE,
        b"a".to_vec(),
        b"k".to_vec(),
        None,
        NOW,
        BLOCK,
    );
    assert_eq!(r, Err(Error::NoProfile));
    assert_eq!(p.task_count(), 0);
}

#[test]
fn create_requires_balance() {
    let mut p = engine_with_accounts();
    let r = p.create_task(
        ALICE,
        b"t".to_vec(),
        b"s".to_vec(),
        1_001,
        DEADLINE,
        b"a".to_vec(),
        b"k".to_vec(),
        None,
        NOW,
        BLOCK,
    );
    assert_eq!(r, Err(Error::NotEnoughBalance));
    assert_eq!(p.reserved_balance(ALICE), 0);
}

#[test]
fn create_requires_future_deadline() {
    let mut p = engine_with_accounts();
    let r = p.create_task(
        ALICE,
        b"t".to_vec(),
        b"s".to_vec(),
        10,
        NOW,
        b"a".to_vec(),
        b"k".to_vec(),
        None,
        NOW,
        BLOCK,
    );
    assert_eq!(r, Err(Error::IncorrectDeadlineTimestamp));
}

#[test]
fn create_checks_organization() {
    let mut p = engine_with_accounts();
    let r = p.create_task(
        ALICE,
        b"t".to_vec(),
        b"s".to_vec(),
        10,
        DEADLINE,
        b"a".to_vec(),
        b"k".to_vec(),
        Some(7),
        NOW,
        BLOCK,
    );
    assert_eq!(r, Err(Error::InvalidOrganization));
    p.add_organization(7);
    let id = p
        .create_task(
            ALICE,
            b"t".to_vec(),
            b"s".to_vec(),
            10,
            DEADLINE,
            b"a".to_vec(),
            b"k".to_vec(),
            Some(7),
            NOW,
            BLOCK,
        )
        .expect("a registered organization must be accepted");
    assert_eq!(p.tasks(id).unwrap().organization, Some(7));
}

#[test]
fn identical_content_is_refused() {
    let mut p = engine_with_accounts();
    create_default_task(&mut p, b"same", 100);
    let r = p.create_task(
        ALICE,
        b"same".to_vec(),
        b"specification".to_vec(),
        100,
        DEADLINE,
        b"attachments".to_vec(),
        b"keywords".to_vec(),
        None,
        NOW,
        BLOCK,
    );
    assert_eq!(r, Err(Error::DuplicateTask));
    assert_eq!(p.task_count(), 1);
}

#[test]
fn different_content_gets_different_identifiers() {
    let mut p = engine_with_accounts();
    let a = create_default_task(&mut p, b"first", 100);
    let b = create_default_task(&mut p, b"second", 100);
    assert_ne!(a, b);
    assert_eq!(p.task_count(), 2);
    assert_eq!(p.reserved_balance(ALICE), 200);
}

#[test]
fn create_and_remove_round_trip() {
    let mut p = engine_with_accounts();
    let id = create_default_task(&mut p, b"title", 100);
    assert_eq!(p.remove_task(ALICE, id), Ok(()));
    assert_eq!(p.free_balance(ALICE), 1_000);
    assert_eq!(p.reserved_balance(ALICE), 0);
    assert!(p.tasks(id).is_none());
    assert_eq!(p.task_count(), 0);
    assert!(p.tasks_owned(ALICE).is_empty());
    assert_eq!(p.last_event(), Event::TaskRemoved(ALICE, id));
}

#[test]
fn only_initiator_removes_task() {
    let mut p = engine_with_accounts();
    let id = create_default_task(&mut p, b"title", 100);
    assert_eq!(p.remove_task(BOB, id), Err(Error::NoPermissionToRemove));
    assert_eq!(p.task_count(), 1);
}

#[test]
fn started_task_cannot_be_removed() {
    let mut p = engine_with_accounts();
    let id = create_default_task(&mut p, b"title", 100);
    assert_eq!(p.start_task(BOB, id), Ok(()));
    assert_eq!(p.remove_task(ALICE, id), Err(Error::NoPermissionToRemove));
    assert_eq!(p.reserved_balance(ALICE), 100);
}

#[test]
fn removing_unknown_task_fails() {
    let mut p = engine_with_accounts();
    let id = create_default_task(&mut p, b"title", 100);
    assert_eq!(p.remove_task(ALICE, id), Ok(()));
    assert_eq!(p.remove_task(ALICE, id), Err(Error::TaskNotExist));
}

#[test]
fn starting_task_moves_ownership() {
    let mut p = engine_with_accounts();
    let id = create_default_task(&mut p, b"title", 100);
    assert_eq!(p.start_task(BOB, id), Ok(()));
    let t = p.tasks(id).unwrap();
    assert_eq!(t.status, TaskStatus::InProgress);
    assert_eq!(t.volunteer, BOB);
    assert_eq!(t.current_owner, BOB);
    assert!(p.tasks_owned(ALICE).is_empty());
    assert_eq!(p.tasks_owned(BOB), vec![id]);
    assert_eq!(p.last_event(), Event::TaskAssigned(BOB, id));
}

#[test]
fn initiator_cannot_start_own_task() {
    let mut p = engine_with_accounts();
    let id = create_default_task(&mut p, b"title", 100);
    assert_eq!(p.start_task(ALICE, id), Err(Error::NoPermissionToStart));
    assert_eq!(p.tasks_owned(ALICE), vec![id]);
}

#[test]
fn started_task_cannot_be_started_again() {
    let mut p = engine_with_accounts();
    let id = create_default_task(&mut p, b"title", 100);
    assert_eq!(p.start_task(BOB, id), Ok(()));
    assert_eq!(p.start_task(BOB, id), Err(Error::NoPermissionToStart));
}

#[test]
fn completing_task_returns_ownership() {
    let mut p = engine_with_accounts();
    let id = create_default_task(&mut p, b"title", 100);
    assert_eq!(p.start_task(BOB, id), Ok(()));
    assert_eq!(p.complete_task(BOB, id, 9), Ok(()));
    let t = p.tasks(id).unwrap();
    assert_eq!(t.status, TaskStatus::Completed);
    assert_eq!(t.current_owner, ALICE);
    assert_eq!(t.volunteer, BOB);
    assert_eq!(t.completed_at, 9);
    assert_eq!(p.tasks_owned(ALICE), vec![id]);
    assert!(p.tasks_owned(BOB).is_empty());
    assert_eq!(p.last_event(), Event::TaskCompleted(BOB, id));
}

#[test]
fn only_volunteer_completes_task() {
    let mut p = engine_with_accounts();
    let id = create_default_task(&mut p, b"title", 100);
    assert_eq!(p.start_task(BOB, id), Ok(()));
    assert_eq!(p.complete_task(ALICE, id, 9), Err(Error::NoPermissionToComplete));
}

#[test]
fn unstarted_task_cannot_be_completed() {
    let mut p = engine_with_accounts();
    let id = create_default_task(&mut p, b"title", 100);
    assert_eq!(p.complete_task(BOB, id, 9), Err(Error::NoPermissionToComplete));
}

#[test]
fn accepting_task_pays_volunteer_end_to_end() {
    let mut p = engine_with_accounts();
    let id = create_default_task(&mut p, b"title", 100);
    assert_eq!(p.start_task(BOB, id), Ok(()));
    assert_eq!(p.complete_task(BOB, id, 9), Ok(()));
    assert_eq!(p.accept_task(ALICE, id), Ok(()));
    assert_eq!(p.free_balance(ALICE), 900);
    assert_eq!(p.reserved_balance(ALICE), 0);
    assert_eq!(p.free_balance(BOB), 600);
    assert_eq!(p.reputation_of(ALICE), 1);
    assert_eq!(p.reputation_of(BOB), 1);
    assert_eq!(p.completed_of(BOB), vec![id]);
    assert!(p.tasks(id).is_none());
    assert_eq!(p.task_count(), 0);
    assert!(p.tasks_owned(ALICE).is_empty());
    assert_eq!(p.last_event(), Event::TaskAccepted(ALICE, id));
}

#[test]
fn volunteer_cannot_accept_task() {
    let mut p = engine_with_accounts();
    let id = create_default_task(&mut p, b"title", 100);
    assert_eq!(p.start_task(BOB, id), Ok(()));
    assert_eq!(p.accept_task(BOB, id), Err(Error::OnlyInitiatorAcceptsTask));
    assert_eq!(p.complete_task(BOB, id, 9), Ok(()));
    assert_eq!(p.accept_task(BOB, id), Err(Error::OnlyInitiatorAcceptsTask));
    assert_eq!(p.reserved_balance(ALICE), 100);
}

#[test]
fn accept_rolls_back_without_volunteer_profile() {
    let mut p = Pallet::new();
    assert!(p.fund(ALICE, 1_000));
    p.create_profile(ALICE);
    let id = create_default_task(&mut p, b"title", 100);
    assert_eq!(p.start_task(BOB, id), Ok(()));
    assert_eq!(p.complete_task(BOB, id, 9), Ok(()));
    assert_eq!(p.accept_task(ALICE, id), Err(Error::NoProfile));
    assert_eq!(p.reserved_balance(ALICE), 100);
    assert_eq!(p.free_balance(BOB), 0);
    assert!(p.tasks(id).is_some());
    assert_eq!(p.task_count(), 1);
    assert_eq!(p.reputation_of(ALICE), 0);
}

#[test]
fn accept_refuses_transfer_the_ledger_cannot_hold() {
    let mut p = engine_with_accounts();
    let id = create_default_task(&mut p, b"title", 100);
    assert_eq!(p.start_task(BOB, id), Ok(()));
    assert_eq!(p.complete_task(BOB, id, 9), Ok(()));
    assert!(p.fund(BOB, u64::MAX - 500 - 50));
    assert_eq!(p.accept_task(ALICE, id), Err(Error::TransferFailed));
    assert_eq!(p.reserved_balance(ALICE), 100);
    assert!(p.tasks(id).is_some());
}

#[test]
fn rejecting_task_returns_it_to_volunteer() {
    let mut p = engine_with_accounts();
    let id = create_default_task(&mut p, b"title", 100);
    assert_eq!(p.start_task(BOB, id), Ok(()));
    assert_eq!(p.complete_task(BOB, id, 9), Ok(()));
    assert_eq!(p.reject_task(ALICE, id, b"redo".to_vec()), Ok(()));
    let t = p.tasks(id).unwrap();
    assert_eq!(t.status, TaskStatus::InProgress);
    assert_eq!(t.current_owner, BOB);
    assert_eq!(t.feedback, Some(b"redo".to_vec()));
    assert_eq!(p.tasks_owned(BOB), vec![id]);
    assert!(p.tasks_owned(ALICE).is_empty());
    assert_eq!(p.reserved_balance(ALICE), 100);
    assert_eq!(p.last_event(), Event::TaskRejected(ALICE, id));
}

#[test]
fn only_completed_task_can_be_rejected() {
    let mut p = engine_with_accounts();
    let id = create_default_task(&mut p, b"title", 100);
    assert_eq!(p.reject_task(ALICE, id, b"redo".to_vec()), Err(Error::OnlyCompletedTaskAreRejected));
    assert_eq!(p.start_task(BOB, id), Ok(()));
    assert_eq!(p.reject_task(ALICE, id, b"redo".to_vec()), Err(Error::OnlyCompletedTaskAreRejected));
}

#[test]
fn only_initiator_rejects_task() {
    let mut p = engine_with_accounts();
    let id = create_default_task(&mut p, b"title", 100);
    assert_eq!(p.start_task(BOB, id), Ok(()));
    assert_eq!(p.complete_task(BOB, id, 9), Ok(()));
    assert_eq!(p.reject_task(BOB, id, b"redo".to_vec()), Err(Error::OnlyInitiatorAcceptsTask));
}

#[test]
fn rejected_task_can_be_completed_and_accepted_again() {
    let mut p = engine_with_accounts();
    let id = create_default_task(&mut p, b"title", 100);
    assert_eq!(p.start_task(BOB, id), Ok(()));
    assert_eq!(p.complete_task(BOB, id, 9), Ok(()));
    assert_eq!(p.reject_task(ALICE, id, b"redo".to_vec()), Ok(()));
    assert_eq!(p.complete_task(BOB, id, 11), Ok(()));
    assert_eq!(p.accept_task(ALICE, id), Ok(()));
    assert_eq!(p.free_balance(BOB), 600);
    assert_eq!(p.task_count(), 0);
}
