//! Updates, the ownership capacity bound, the deadline sweep, and the
//! funding boundary.

use pallet_task::pallet::Pallet;
use pallet_task::types::{Error, Event, TaskStatus, MAX_TASKS_OWNED};

const ALICE: u64 = 1;
const BOB: u64 = 2;

const NOW: u64 = 1_000;
const DEADLINE: u64 = 2_000;
const BLOCK: u64 = 1;

fn engine_with_accounts() -> Pallet {
    let mut p = Pallet::new();
    assert!(p.fund(ALICE, 1_000));
    assert!(p.fund(BOB, 500));
    p.create_profile(ALICE);
    p.create_profile(BOB);
    p
}

fn create_task_titled(p: &mut Pallet, title: &[u8], budget: u64, deadline: u64) -> pallet_task::types::TaskId {
    p.create_task(
        ALICE,
        title.to_vec(),
        b"specification".to_vec(),
        budget,
        deadline,
        b"attachments".to_vec(),
        b"keywords".to_vec(),
        None,
        NOW,
        BLOCK,
    )
    .expect("creating a task must succeed")
}

#[test]
fn updating_task_overwrites_fields_and_stamps() {
    let mut p = engine_with_accounts();
    let id = create_task_titled(&mut p, b"before", 100, DEADLINE);
    let r = p.update_task(
        ALICE,
        id,
        b"after".to_vec(),
        b"new specification".to_vec(),
        100,
        DEADLINE + 5,
        b"new attachments".to_vec(),
        b"new keywords".to_vec(),
        None,
        NOW,
        BLOCK + 3,
    );
    assert_eq!(r, Ok(()));
    let t = p.tasks(id).unwrap();
    assert_eq!(t.title, b"after".to_vec());
    assert_eq!(t.specification, b"new specification".to_vec());
    assert_eq!(t.deadline, DEADLINE + 5);
    assert_eq!(t.updated_at, BLOCK + 3);
    assert_eq!(t.status, TaskStatus::Created);
    assert_eq!(p.last_event(), Event::TaskUpdated(ALICE, id));
}

#[test]
fn raising_budget_reserves_the_difference() {
    let mut p = engine_with_accounts();
    let id = create_task_titled(&mut p, b"title", 100, DEADLINE);
    let r = p.update_task(
        ALICE,
        id,
        b"title".to_vec(),
        b"specification".to_vec(),
        150,
        DEADLINE,
        b"attachments".to_vec(),
        b"keywords".to_vec(),
        None,
        NOW,
        BLOCK,
    );
    assert_eq!(r, Ok(()));
    assert_eq!(p.free_balance(ALICE), 850);
    assert_eq!(p.reserved_balance(ALICE), 150);
}

#[test]
fn lowering_budget_releases_the_difference() {
    let mut p = engine_with_accounts();
    let id = create_task_titled(&mut p, b"title", 100, DEADLINE);
    let r = p.update_task(
        ALICE,
        id,
        b"title".to_vec(),
        b"specification".to_vec(),
        40,
        DEADLINE,
        b"attachments".to_vec(),
        b"keywords".to_vec(),
        None,
        NOW,
        BLOCK,
    );
    assert_eq!(r, Ok(()));
    assert_eq!(p.free_balance(ALICE), 960);
    assert_eq!(p.reserved_balance(ALICE), 40);
}

#[test]
fn raising_budget_beyond_balance_fails_untouched() {
    let mut p = engine_with_accounts();
    let id = create_task_titled(&mut p, b"title", 100, DEADLINE);
    let r = p.update_task(
        ALICE,
        id,
        b"changed".to_vec(),
        b"specification".to_vec(),
        1_100,
        DEADLINE,
        b"attachments".to_vec(),
        b"keywords".to_vec(),
        None,
        NOW,
        BLOCK,
    );
    assert_eq!(r, Err(Error::NotEnoughBalance));
    assert_eq!(p.free_balance(ALICE), 900);
    assert_eq!(p.reserved_balance(ALICE), 100);
    assert_eq!(p.tasks(id).unwrap().title, b"title".to_vec());
}

#[test]
fn only_initiator_updates_task() {
    let mut p = engine_with_accounts();
    let id = create_task_titled(&mut p, b"title", 100, DEADLINE);
    let r = p.update_task(
        BOB,
        id,
        b"changed".to_vec(),
        b"s".to_vec(),
        100,
        DEADLINE,
        b"a".to_vec(),
        b"k".to_vec(),
        None,
        NOW,
        BLOCK,
    );
    assert_eq!(r, Err(Error::OnlyInitiatorUpdatesTask));
}

#[test]
fn started_task_cannot_be_updated() {
    let mut p = engine_with_accounts();
    let id = create_task_titled(&mut p, b"title", 100, DEADLINE);
    assert_eq!(p.start_task(BOB, id), Ok(()));
    let r = p.update_task(
        ALICE,
        id,
        b"changed".to_vec(),
        b"s".to_vec(),
        100,
        DEADLINE,
        b"a".to_vec(),
        b"k".to_vec(),
        None,
        NOW,
        BLOCK,
    );
    assert_eq!(r, Err(Error::NoPermissionToUpdate));
    assert_eq!(p.tasks(id).unwrap().title, b"title".to_vec());
}

#[test]
fn update_requires_future_deadline() {
    let mut p = engine_with_accounts();
    let id = create_task_titled(&mut p, b"title", 100, DEADLINE);
    let r = p.update_task(
        ALICE,
        id,
        b"title".to_vec(),
        b"s".to_vec(),
        100,
        NOW,
        b"a".to_vec(),
        b"k".to_vec(),
        None,
        NOW,
        BLOCK,
    );
    assert_eq!(r, Err(Error::IncorrectDeadlineTimestamp));
}

#[test]
fn account_at_capacity_cannot_create() {
    let mut p = Pallet::new();
    assert!(p.fund(ALICE, 1_000_000));
    p.create_profile(ALICE);
    let mut i: u64 = 0;
    while (i as usize) < MAX_TASKS_OWNED {
        create_task_titled(&mut p, &i.to_le_bytes(), 1, DEADLINE);
        i += 1;
    }
    assert_eq!(p.tasks_owned(ALICE).len(), MAX_TASKS_OWNED);
    let free_before = p.free_balance(ALICE);
    let reserved_before = p.reserved_balance(ALICE);
    let r = p.create_task(
        ALICE,
        b"one too many".to_vec(),
        b"s".to_vec(),
        1,
        DEADLINE,
        b"a".to_vec(),
        b"k".to_vec(),
        None,
        NOW,
        BLOCK,
    );
    assert_eq!(r, Err(Error::ExceedMaxTasksOwned));
    assert_eq!(p.task_count() as usize, MAX_TASKS_OWNED);
    assert_eq!(p.free_balance(ALICE), free_before);
    assert_eq!(p.reserved_balance(ALICE), reserved_before);
}

#[test]
fn account_at_capacity_cannot_start() {
    let mut p = engine_with_accounts();
    assert!(p.fund(BOB, 1_000_000));
    let mut i: u64 = 0;
    while (i as usize) < MAX_TASKS_OWNED {
        let id = p
            .create_task(
                BOB,
                i.to_le_bytes().to_vec(),
                b"s".to_vec(),
                1,
                DEADLINE,
                b"a".to_vec(),
                b"k".to_vec(),
                None,
                NOW,
                BLOCK,
            )
            .expect("creating a task must succeed");
        let _ = id;
        i += 1;
    }
    let id = create_task_titled(&mut p, b"for bob", 100, DEADLINE);
    assert_eq!(p.start_task(BOB, id), Err(Error::ExceedMaxTasksOwned));
    assert_eq!(p.tasks(id).unwrap().status, TaskStatus::Created);
    assert_eq!(p.tasks_owned(ALICE), vec![id]);
}

#[test]
fn sweep_retires_expired_created_records() {
    let mut p = engine_with_accounts();
    let expiring = create_task_titled(&mut p, b"expiring", 100, 1_500);
    let fresh = create_task_titled(&mut p, b"fresh", 50, 9_000);
    p.on_initialize(3_000);
    assert!(p.tasks(expiring).is_none());
    assert!(p.tasks(fresh).is_some());
    assert_eq!(p.task_count(), 1);
    assert_eq!(p.free_balance(ALICE), 950);
    assert_eq!(p.reserved_balance(ALICE), 50);
    assert!(p.tasks_owned(ALICE) == vec![fresh]);
}

#[test]
fn sweep_leaves_started_records_alone() {
    let mut p = engine_with_accounts();
    let started = create_task_titled(&mut p, b"started", 100, 1_500);
    let completed = create_task_titled(&mut p, b"completed", 50, 1_500);
    assert_eq!(p.start_task(BOB, started), Ok(()));
    assert_eq!(p.start_task(BOB, completed), Ok(()));
    assert_eq!(p.complete_task(BOB, completed, 9), Ok(()));
    p.on_initialize(3_000);
    assert!(p.tasks(started).is_some());
    assert!(p.tasks(completed).is_some());
    assert_eq!(p.task_count(), 2);
    assert_eq!(p.reserved_balance(ALICE), 150);
}

#[test]
fn sweep_requires_deadline_strictly_passed() {
    let mut p = engine_with_accounts();
    let id = create_task_titled(&mut p, b"title", 100, DEADLINE);
    p.on_initialize(DEADLINE);
    assert!(p.tasks(id).is_some());
    p.on_initialize(DEADLINE + 1);
    assert!(p.tasks(id).is_none());
    assert_eq!(p.free_balance(ALICE), 1_000);
}

#[test]
fn sweep_emits_no_events() {
    let mut p = engine_with_accounts();
    let id = create_task_titled(&mut p, b"title", 100, 1_500);
    let events_before = p.events().len();
    p.on_initialize(3_000);
    assert!(p.tasks(id).is_none());
    assert_eq!(p.events().len(), events_before);
}

#[test]
fn counter_tracks_live_records() {
    let mut p = engine_with_accounts();
    assert_eq!(p.task_count(), 0);
    let a = create_task_titled(&mut p, b"a", 10, DEADLINE);
    let b = create_task_titled(&mut p, b"b", 10, DEADLINE);
    let c = create_task_titled(&mut p, b"c", 10, DEADLINE);
    assert_eq!(p.task_count(), 3);
    assert_eq!(p.remove_task(ALICE, a), Ok(()));
    assert_eq!(p.task_count(), 2);
    assert_eq!(p.start_task(BOB, b), Ok(()));
    assert_eq!(p.complete_task(BOB, b, 9), Ok(()));
    assert_eq!(p.accept_task(ALICE, b), Ok(()));
    assert_eq!(p.task_count(), 1);
    assert!(p.tasks(c).is_some());
}

#[test]
fn funding_beyond_the_balance_type_is_refused() {
    let mut p = Pallet::new();
    assert!(p.fund(ALICE, u64::MAX));
    assert!(!p.fund(ALICE, 1));
    assert_eq!(p.free_balance(ALICE), u64::MAX);
}

#[test]
fn event_log_grows_in_order() {
    let mut p = engine_with_accounts();
    let id = create_task_titled(&mut p, b"title", 100, DEADLINE);
    assert_eq!(p.start_task(BOB, id), Ok(()));
    assert_eq!(p.complete_task(BOB, id, 9), Ok(()));
    let events = p.events().clone();
    assert_eq!(events[events.len() - 3], Event::TaskCreated(ALICE, id));
    assert_eq!(events[events.len() - 2], Event::TaskAssigned(BOB, id));
    assert_eq!(events[events.len() - 1], Event::TaskCompleted(BOB, id));
}
