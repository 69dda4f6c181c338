//! The mathematical model of the whole engine state, its well-formedness
//! invariants, and the exact meaning of every operation as a function on
//! that model.
//!
//! Each caller-invoked operation has three spec functions here: when it
//! succeeds (`*_ok`), which error it returns otherwise (`*_err`, ordered as
//! the operation checks its preconditions), and the state it leaves behind
//! on success (`*_post`). The executable engine is verified against these
//! exactly.

use vstd::prelude::*;
use crate::types::{AccountId, Balance, Error, Event, OrgId, TaskId, TaskStatus, MAX_TASKS_OWNED, MAX_TITLE_LEN, MAX_SPECIFICATION_LEN, MAX_ATTACHMENTS_LEN, MAX_KEYWORDS_LEN};
use crate::task::TaskView;
use crate::codec::task_digest;
use crate::ledger::{AccountBalance, bal_in, ledger_ok};
use crate::owned::{ids_in, no_dup, swap_remove_id};
use crate::profiles::{ProfileView, profile_in, rep_bump};

verus! {

/// The whole engine state: record store, counter, ownership index, ledger,
/// profile registry, organization registry, and the event log.
#[verifier::ext_equal]
pub ghost struct StateView {
    pub tasks: Seq<TaskView>,
    pub task_count: u64,
    pub owned: Map<AccountId, Seq<TaskId>>,
    pub balances: Map<AccountId, AccountBalance>,
    pub profiles: Map<AccountId, ProfileView>,
    pub orgs: Set<OrgId>,
    pub events: Seq<Event>,
}

/// The state a fresh engine starts from: nothing stored anywhere.
pub open spec fn empty_state() -> StateView {
    StateView {
        tasks: Seq::empty(),
        task_count: 0,
        owned: Map::empty(),
        balances: Map::empty(),
        profiles: Map::empty(),
        orgs: Set::empty(),
        events: Seq::empty(),
    }
}

/// Whether a record with identifier `id` is live.
pub open spec fn has_task(tasks: Seq<TaskView>, id: TaskId) -> bool {
    exists|i: int| 0 <= i < tasks.len() && tasks[i].id == id
}

/// The index of the record with identifier `id` (unique while identifiers
/// are unique).
pub open spec fn task_index(tasks: Seq<TaskView>, id: TaskId) -> int {
    choose|i: int| 0 <= i < tasks.len() && tasks[i].id == id
}

/// The live record with identifier `id`.
pub open spec fn task_at(tasks: Seq<TaskView>, id: TaskId) -> TaskView {
    tasks[task_index(tasks, id)]
}

/// The free balance of `a`.
pub open spec fn free_of(s: StateView, a: AccountId) -> Balance {
    bal_in(s.balances, a).free
}

/// The reserved balance of `a`.
pub open spec fn reserved_of(s: StateView, a: AccountId) -> Balance {
    bal_in(s.balances, a).reserved
}

/// The record identifiers `a` currently owns, in insertion order.
pub open spec fn owned_of(s: StateView, a: AccountId) -> Seq<TaskId> {
    ids_in(s.owned, a)
}

/// Whether `a` has a profile.
pub open spec fn has_profile(s: StateView, a: AccountId) -> bool {
    s.profiles.contains_key(a)
}

/// What record `t` contributes to the escrow owed by `a`.
pub open spec fn budget_contrib(t: TaskView, a: AccountId) -> int {
    if t.initiator == a {
        t.budget as int
    } else {
        0
    }
}

/// The total budget of live records funded by `a`.
pub open spec fn budget_sum(tasks: Seq<TaskView>, a: AccountId) -> int
    decreases tasks.len(),
{
    if tasks.len() == 0 {
        0
    } else {
        budget_sum(tasks.drop_last(), a) + budget_contrib(tasks.last(), a)
    }
}

// ---------------------------------------------------------------------
// Well-formedness: the invariants every reachable state satisfies.
// ---------------------------------------------------------------------

/// Identifiers are unique across live records.
pub open spec fn task_ids_unique(tasks: Seq<TaskView>) -> bool {
    forall|i: int, j: int| 0 <= i < j < tasks.len() ==> tasks[i].id != tasks[j].id
}

/// Every live record is bounded and has its owner coupled to its status.
pub open spec fn tasks_each_wf(tasks: Seq<TaskView>) -> bool {
    forall|i: int|
        0 <= i < tasks.len() ==> (#[trigger] tasks[i]).bounded() && tasks[i].owner_coupled()
}

/// Every live record is listed under its current owner.
pub open spec fn tasks_indexed(s: StateView) -> bool {
    forall|i: int|
        0 <= i < s.tasks.len() ==> owned_of(
            s,
            (#[trigger] s.tasks[i]).current_owner,
        ).contains(s.tasks[i].id)
}

/// Every listed identifier belongs to a live record whose current owner is
/// the listing account.
pub open spec fn owned_sound(s: StateView) -> bool {
    forall|a: AccountId, j: int|
        s.owned.contains_key(a) && 0 <= j < s.owned[a].len() ==> has_task(
            s.tasks,
            #[trigger] s.owned[a][j],
        ) && task_at(s.tasks, s.owned[a][j]).current_owner == a
}

/// Ownership lists hold no duplicates and respect the per-account capacity.
pub open spec fn owned_lists_wf(s: StateView) -> bool {
    forall|a: AccountId| #[trigger]
        s.owned.contains_key(a) ==> no_dup(s.owned[a]) && s.owned[a].len() <= MAX_TASKS_OWNED
}

/// The escrow invariant: what the ledger holds reserved against each
/// account is exactly the total budget of the live records that account
/// funded.
pub open spec fn escrow_wf(s: StateView) -> bool {
    forall|a: AccountId| #[trigger] reserved_of(s, a) == budget_sum(s.tasks, a)
}

/// Each profile is filed under its own account.
pub open spec fn profiles_wf(s: StateView) -> bool {
    forall|a: AccountId| #[trigger] s.profiles.contains_key(a) ==> s.profiles[a].account == a
}

/// The live-record counter is accurate.
pub open spec fn counter_wf(s: StateView) -> bool {
    s.task_count == s.tasks.len()
}

/// The conjunction of all engine invariants.
pub open spec fn wf(s: StateView) -> bool {
    &&& counter_wf(s)
    &&& task_ids_unique(s.tasks)
    &&& tasks_each_wf(s.tasks)
    &&& tasks_indexed(s)
    &&& owned_sound(s)
    &&& owned_lists_wf(s)
    &&& ledger_ok(s.balances)
    &&& escrow_wf(s)
    &&& profiles_wf(s)
}

// ---------------------------------------------------------------------
// create
// ---------------------------------------------------------------------

/// The inputs of a create operation, with the round's time and stamp.
#[verifier::ext_equal]
pub ghost struct CreateInput {
    pub caller: AccountId,
    pub title: Seq<u8>,
    pub specification: Seq<u8>,
    pub budget: Balance,
    pub deadline: u64,
    pub attachments: Seq<u8>,
    pub keywords: Seq<u8>,
    pub organization: Option<OrgId>,
    pub now: u64,
    pub block: u64,
}

/// The record a create operation builds, before its identifier is known.
pub open spec fn created_base(c: CreateInput) -> TaskView {
    TaskView {
        id: TaskId { w0: 0, w1: 0, w2: 0, w3: 0 },
        title: c.title,
        specification: c.specification,
        initiator: c.caller,
        volunteer: c.caller,
        current_owner: c.caller,
        status: TaskStatus::Created,
        budget: c.budget,
        deadline: c.deadline,
        attachments: c.attachments,
        keywords: c.keywords,
        feedback: None,
        created_at: c.block,
        updated_at: 0,
        completed_at: 0,
        organization: c.organization,
    }
}

/// The record a create operation builds, identifier included.
pub open spec fn created_record(c: CreateInput) -> TaskView {
    TaskView { id: task_digest(created_base(c)), ..created_base(c) }
}

/// The blob bounds every create input satisfies (enforced at the boundary).
pub open spec fn create_bounded(c: CreateInput) -> bool {
    &&& c.title.len() <= MAX_TITLE_LEN
    &&& c.specification.len() <= MAX_SPECIFICATION_LEN
    &&& c.attachments.len() <= MAX_ATTACHMENTS_LEN
    &&& c.keywords.len() <= MAX_KEYWORDS_LEN
}

pub open spec fn create_ok(s: StateView, c: CreateInput) -> bool {
    &&& (c.organization matches Some(o) ==> s.orgs.contains(o))
    &&& free_of(s, c.caller) >= c.budget
    &&& has_profile(s, c.caller)
    &&& c.now < c.deadline
    &&& owned_of(s, c.caller).len() < MAX_TASKS_OWNED
    &&& s.task_count < u64::MAX
    &&& !has_task(s.tasks, created_record(c).id)
}

/// The error a failing create returns: the first violated precondition, in
/// the order the operation checks them.
pub open spec fn create_err(s: StateView, c: CreateInput) -> Error {
    if c.organization matches Some(o) && !s.orgs.contains(o) {
        Error::InvalidOrganization
    } else if free_of(s, c.caller) < c.budget {
        Error::NotEnoughBalance
    } else if !has_profile(s, c.caller) {
        Error::NoProfile
    } else if !(c.now < c.deadline) {
        Error::IncorrectDeadlineTimestamp
    } else if owned_of(s, c.caller).len() >= MAX_TASKS_OWNED {
        Error::ExceedMaxTasksOwned
    } else if s.task_count == u64::MAX {
        Error::TaskCountOverflow
    } else {
        Error::DuplicateTask
    }
}

pub open spec fn create_post(s: StateView, c: CreateInput) -> StateView {
    let t = created_record(c);
    StateView {
        tasks: s.tasks.push(t),
        task_count: (s.task_count + 1) as u64,
        owned: s.owned.insert(c.caller, owned_of(s, c.caller).push(t.id)),
        balances: s.balances.insert(
            c.caller,
            AccountBalance {
                free: (bal_in(s.balances, c.caller).free - c.budget) as u64,
                reserved: (bal_in(s.balances, c.caller).reserved + c.budget) as u64,
            },
        ),
        profiles: s.profiles,
        orgs: s.orgs,
        events: s.events.push(Event::TaskCreated(c.caller, t.id)),
    }
}

// ---------------------------------------------------------------------
// update
// ---------------------------------------------------------------------

/// The inputs of an update operation.
#[verifier::ext_equal]
pub ghost struct UpdateInput {
    pub caller: AccountId,
    pub id: TaskId,
    pub title: Seq<u8>,
    pub specification: Seq<u8>,
    pub budget: Balance,
    pub deadline: u64,
    pub attachments: Seq<u8>,
    pub keywords: Seq<u8>,
    pub organization: Option<OrgId>,
    pub now: u64,
    pub block: u64,
}

/// The record after an update: mutable fields overwritten, the update
/// stamped; identity, parties, status and feedback untouched.
pub open spec fn updated_record(t: TaskView, u: UpdateInput) -> TaskView {
    TaskView {
        title: u.title,
        specification: u.specification,
        budget: u.budget,
        deadline: u.deadline,
        attachments: u.attachments,
        keywords: u.keywords,
        organization: u.organization,
        updated_at: u.block,
        ..t
    }
}

/// The blob bounds every update input satisfies (enforced at the boundary).
pub open spec fn update_bounded(u: UpdateInput) -> bool {
    &&& u.title.len() <= MAX_TITLE_LEN
    &&& u.specification.len() <= MAX_SPECIFICATION_LEN
    &&& u.attachments.len() <= MAX_ATTACHMENTS_LEN
    &&& u.keywords.len() <= MAX_KEYWORDS_LEN
}

pub open spec fn update_ok(s: StateView, u: UpdateInput) -> bool {
    &&& (u.organization matches Some(o) ==> s.orgs.contains(o))
    &&& has_task(s.tasks, u.id)
    &&& task_at(s.tasks, u.id).initiator == u.caller
    &&& has_profile(s, u.caller)
    &&& task_at(s.tasks, u.id).status == TaskStatus::Created
    &&& u.now < u.deadline
    &&& (u.budget > task_at(s.tasks, u.id).budget ==> free_of(s, u.caller) >= u.budget
        - task_at(s.tasks, u.id).budget)
}

pub open spec fn update_err(s: StateView, u: UpdateInput) -> Error {
    if u.organization matches Some(o) && !s.orgs.contains(o) {
        Error::InvalidOrganization
    } else if !has_task(s.tasks, u.id) {
        Error::TaskNotExist
    } else if task_at(s.tasks, u.id).initiator != u.caller {
        Error::OnlyInitiatorUpdatesTask
    } else if !has_profile(s, u.caller) {
        Error::NoProfile
    } else if task_at(s.tasks, u.id).status != TaskStatus::Created {
        Error::NoPermissionToUpdate
    } else if !(u.now < u.deadline) {
        Error::IncorrectDeadlineTimestamp
    } else {
        Error::NotEnoughBalance
    }
}

pub open spec fn update_post(s: StateView, u: UpdateInput) -> StateView {
    let i = task_index(s.tasks, u.id);
    let t = s.tasks[i];
    StateView {
        tasks: s.tasks.update(i, updated_record(t, u)),
        task_count: s.task_count,
        owned: s.owned,
        balances: s.balances.insert(
            u.caller,
            AccountBalance {
                free: (bal_in(s.balances, u.caller).free + t.budget - u.budget) as u64,
                reserved: (bal_in(s.balances, u.caller).reserved - t.budget + u.budget) as u64,
            },
        ),
        profiles: s.profiles,
        orgs: s.orgs,
        events: s.events.push(Event::TaskUpdated(u.caller, u.id)),
    }
}

// ---------------------------------------------------------------------
// remove, and the shared retirement effect
// ---------------------------------------------------------------------

pub open spec fn remove_ok(s: StateView, caller: AccountId, id: TaskId) -> bool {
    &&& has_task(s.tasks, id)
    &&& task_at(s.tasks, id).initiator == caller
    &&& task_at(s.tasks, id).status == TaskStatus::Created
}

pub open spec fn remove_err(s: StateView, caller: AccountId, id: TaskId) -> Error {
    if !has_task(s.tasks, id) {
        Error::TaskNotExist
    } else {
        Error::NoPermissionToRemove
    }
}

/// Retiring a record: it leaves the store, its budget is unreserved back to
/// its initiator's free balance, its identifier leaves the initiator's
/// list, the counter drops. Shared by `remove` and the deadline sweep,
/// which emits no event.
pub open spec fn retire_post(s: StateView, id: TaskId) -> StateView {
    let i = task_index(s.tasks, id);
    let t = s.tasks[i];
    StateView {
        tasks: s.tasks.remove(i),
        task_count: (s.task_count - 1) as u64,
        owned: s.owned.insert(t.initiator, swap_remove_id(owned_of(s, t.initiator), id)),
        balances: s.balances.insert(
            t.initiator,
            AccountBalance {
                free: (bal_in(s.balances, t.initiator).free + t.budget) as u64,
                reserved: (bal_in(s.balances, t.initiator).reserved - t.budget) as u64,
            },
        ),
        profiles: s.profiles,
        orgs: s.orgs,
        events: s.events,
    }
}

pub open spec fn remove_post(s: StateView, caller: AccountId, id: TaskId) -> StateView {
    let s2 = retire_post(s, id);
    StateView { events: s.events.push(Event::TaskRemoved(caller, id)), ..s2 }
}

// ---------------------------------------------------------------------
// start
// ---------------------------------------------------------------------

pub open spec fn start_ok(s: StateView, caller: AccountId, id: TaskId) -> bool {
    &&& has_task(s.tasks, id)
    &&& task_at(s.tasks, id).initiator != caller
    &&& task_at(s.tasks, id).status == TaskStatus::Created
    &&& owned_of(s, caller).len() < MAX_TASKS_OWNED
}

pub open spec fn start_err(s: StateView, caller: AccountId, id: TaskId) -> Error {
    if !has_task(s.tasks, id) {
        Error::TaskNotExist
    } else if task_at(s.tasks, id).initiator == caller || task_at(s.tasks, id).status
        != TaskStatus::Created {
        Error::NoPermissionToStart
    } else {
        Error::ExceedMaxTasksOwned
    }
}

pub open spec fn start_post(s: StateView, caller: AccountId, id: TaskId) -> StateView {
    let i = task_index(s.tasks, id);
    let t = s.tasks[i];
    StateView {
        tasks: s.tasks.update(
            i,
            TaskView { volunteer: caller, current_owner: caller, status: TaskStatus::InProgress, ..t },
        ),
        task_count: s.task_count,
        owned: s.owned.insert(
            t.initiator,
            swap_remove_id(owned_of(s, t.initiator), id),
        ).insert(caller, owned_of(s, caller).push(id)),
        balances: s.balances,
        profiles: s.profiles,
        orgs: s.orgs,
        events: s.events.push(Event::TaskAssigned(caller, id)),
    }
}

// ---------------------------------------------------------------------
// complete
// ---------------------------------------------------------------------

pub open spec fn complete_ok(s: StateView, caller: AccountId, id: TaskId) -> bool {
    &&& has_task(s.tasks, id)
    &&& task_at(s.tasks, id).status == TaskStatus::InProgress
    &&& task_at(s.tasks, id).volunteer == caller
    &&& owned_of(s, task_at(s.tasks, id).initiator).len() < MAX_TASKS_OWNED
}

pub open spec fn complete_err(s: StateView, caller: AccountId, id: TaskId) -> Error {
    if !has_task(s.tasks, id) {
        Error::TaskNotExist
    } else if task_at(s.tasks, id).status != TaskStatus::InProgress || task_at(
        s.tasks,
        id,
    ).volunteer != caller {
        Error::NoPermissionToComplete
    } else {
        Error::ExceedMaxTasksOwned
    }
}

pub open spec fn complete_post(s: StateView, caller: AccountId, id: TaskId, block: u64) -> StateView {
    let i = task_index(s.tasks, id);
    let t = s.tasks[i];
    StateView {
        tasks: s.tasks.update(
            i,
            TaskView {
                current_owner: t.initiator,
                status: TaskStatus::Completed,
                completed_at: block,
                ..t
            },
        ),
        task_count: s.task_count,
        owned: s.owned.insert(caller, swap_remove_id(owned_of(s, caller), id)).insert(
            t.initiator,
            owned_of(s, t.initiator).push(id),
        ),
        balances: s.balances,
        profiles: s.profiles,
        orgs: s.orgs,
        events: s.events.push(Event::TaskCompleted(caller, id)),
    }
}

// ---------------------------------------------------------------------
// accept
// ---------------------------------------------------------------------

pub open spec fn accept_ok(s: StateView, caller: AccountId, id: TaskId) -> bool {
    &&& has_task(s.tasks, id)
    &&& task_at(s.tasks, id).current_owner == caller
    &&& task_at(s.tasks, id).initiator == caller
    &&& (task_at(s.tasks, id).volunteer != caller ==> free_of(s, task_at(s.tasks, id).volunteer)
        + reserved_of(s, task_at(s.tasks, id).volunteer) + task_at(s.tasks, id).budget
        <= u64::MAX)
    &&& has_profile(s, task_at(s.tasks, id).initiator)
    &&& has_profile(s, task_at(s.tasks, id).volunteer)
}

pub open spec fn accept_err(s: StateView, caller: AccountId, id: TaskId) -> Error {
    if !has_task(s.tasks, id) {
        Error::TaskNotExist
    } else if task_at(s.tasks, id).current_owner != caller || task_at(s.tasks, id).initiator
        != caller {
        Error::OnlyInitiatorAcceptsTask
    } else if task_at(s.tasks, id).volunteer != caller && free_of(s, task_at(s.tasks, id).volunteer)
        + reserved_of(s, task_at(s.tasks, id).volunteer) + task_at(s.tasks, id).budget
        > u64::MAX {
        Error::TransferFailed
    } else {
        Error::NoProfile
    }
}

pub open spec fn accept_post(s: StateView, caller: AccountId, id: TaskId) -> StateView {
    let i = task_index(s.tasks, id);
    let t = s.tasks[i];
    let ini = t.initiator;
    let vol = t.volunteer;
    let b = t.budget;
    let balances = if ini == vol {
        s.balances.insert(
            ini,
            AccountBalance {
                free: (bal_in(s.balances, ini).free + b) as u64,
                reserved: (bal_in(s.balances, ini).reserved - b) as u64,
            },
        )
    } else {
        s.balances.insert(
            ini,
            AccountBalance {
                free: bal_in(s.balances, ini).free,
                reserved: (bal_in(s.balances, ini).reserved - b) as u64,
            },
        ).insert(
            vol,
            AccountBalance {
                free: (bal_in(s.balances, vol).free + b) as u64,
                reserved: bal_in(s.balances, vol).reserved,
            },
        )
    };
    let profiles = if ini == vol {
        s.profiles.insert(
            ini,
            ProfileView {
                reputation: rep_bump(rep_bump(profile_in(s.profiles, ini).reputation)),
                completed_tasks: profile_in(s.profiles, ini).completed_tasks.push(id),
                ..profile_in(s.profiles, ini)
            },
        )
    } else {
        s.profiles.insert(
            ini,
            ProfileView {
                reputation: rep_bump(profile_in(s.profiles, ini).reputation),
                ..profile_in(s.profiles, ini)
            },
        ).insert(
            vol,
            ProfileView {
                reputation: rep_bump(profile_in(s.profiles, vol).reputation),
                completed_tasks: profile_in(s.profiles, vol).completed_tasks.push(id),
                ..profile_in(s.profiles, vol)
            },
        )
    };
    StateView {
        tasks: s.tasks.remove(i),
        task_count: (s.task_count - 1) as u64,
        owned: s.owned.insert(ini, swap_remove_id(owned_of(s, ini), id)),
        balances: balances,
        profiles: profiles,
        orgs: s.orgs,
        events: s.events.push(Event::TaskAccepted(caller, id)),
    }
}

// ---------------------------------------------------------------------
// reject
// ---------------------------------------------------------------------

pub open spec fn reject_ok(s: StateView, caller: AccountId, id: TaskId) -> bool {
    &&& has_task(s.tasks, id)
    &&& task_at(s.tasks, id).initiator == caller
    &&& task_at(s.tasks, id).status == TaskStatus::Completed
    &&& owned_of(s, task_at(s.tasks, id).volunteer).len() < MAX_TASKS_OWNED
}

pub open spec fn reject_err(s: StateView, caller: AccountId, id: TaskId) -> Error {
    if !has_task(s.tasks, id) {
        Error::TaskNotExist
    } else if task_at(s.tasks, id).initiator != caller {
        Error::OnlyInitiatorAcceptsTask
    } else if task_at(s.tasks, id).status != TaskStatus::Completed {
        Error::OnlyCompletedTaskAreRejected
    } else {
        Error::ExceedMaxTasksOwned
    }
}

pub open spec fn reject_post(s: StateView, caller: AccountId, id: TaskId, feedback: Seq<u8>) -> StateView {
    let i = task_index(s.tasks, id);
    let t = s.tasks[i];
    StateView {
        tasks: s.tasks.update(
            i,
            TaskView {
                current_owner: t.volunteer,
                status: TaskStatus::InProgress,
                feedback: Some(feedback),
                ..t
            },
        ),
        task_count: s.task_count,
        owned: s.owned.insert(caller, swap_remove_id(owned_of(s, caller), id)).insert(
            t.volunteer,
            owned_of(s, t.volunteer).push(id),
        ),
        balances: s.balances,
        profiles: s.profiles,
        orgs: s.orgs,
        events: s.events.push(Event::TaskRejected(caller, id)),
    }
}

// ---------------------------------------------------------------------
// the deadline sweep
// ---------------------------------------------------------------------

/// A record the sweep retires: still not started, deadline strictly passed.
pub open spec fn sweep_eligible(t: TaskView, now: u64) -> bool {
    t.status == TaskStatus::Created && t.deadline < now
}

/// The sweep walks the store front to back; a retired record's successors
/// shift one slot left, so the walk stays at the same index after retiring.
pub open spec fn sweep_from(s: StateView, now: u64, i: int) -> StateView
    decreases s.tasks.len() - i,
{
    if i < 0 || i >= s.tasks.len() {
        s
    } else if sweep_eligible(s.tasks[i], now) {
        sweep_from(retire_post(s, s.tasks[i].id), now, i)
    } else {
        sweep_from(s, now, i + 1)
    }
}

pub open spec fn sweep_post(s: StateView, now: u64) -> StateView {
    sweep_from(s, now, 0)
}

// ---------------------------------------------------------------------
// the state machine relation
// ---------------------------------------------------------------------

/// The status transitions the lifecycle admits for a record that stays
/// live.
pub open spec fn allowed_transition(pre: TaskStatus, post: TaskStatus) -> bool {
    ||| pre == post
    ||| (pre == TaskStatus::Created && post == TaskStatus::InProgress)
    ||| (pre == TaskStatus::InProgress && post == TaskStatus::Completed)
    ||| (pre == TaskStatus::Completed && post == TaskStatus::InProgress)
}

// ---------------------------------------------------------------------
// lemmas about the escrow sum
// ---------------------------------------------------------------------

pub proof fn lemma_budget_sum_push(tasks: Seq<TaskView>, t: TaskView, a: AccountId)
    ensures
        budget_sum(tasks.push(t), a) == budget_sum(tasks, a) + budget_contrib(t, a),
{
    assert(tasks.push(t).drop_last() =~= tasks);
    assert(tasks.push(t).last() == t);
}

pub proof fn lemma_budget_sum_nonneg(tasks: Seq<TaskView>, a: AccountId)
    ensures
        budget_sum(tasks, a) >= 0,
    decreases tasks.len(),
{
    if tasks.len() > 0 {
        lemma_budget_sum_nonneg(tasks.drop_last(), a);
    }
}

pub proof fn lemma_budget_sum_remove(tasks: Seq<TaskView>, i: int, a: AccountId)
    requires
        0 <= i < tasks.len(),
    ensures
        budget_sum(tasks.remove(i), a) == budget_sum(tasks, a) - budget_contrib(tasks[i], a),
    decreases tasks.len(),
{
    if i == tasks.len() - 1 {
        assert(tasks.remove(i) =~= tasks.drop_last());
    } else {
        assert(tasks.remove(i).drop_last() =~= tasks.drop_last().remove(i));
        assert(tasks.remove(i).last() == tasks.last());
        lemma_budget_sum_remove(tasks.drop_last(), i, a);
        assert(tasks.drop_last()[i] == tasks[i]);
    }
}

pub proof fn lemma_budget_sum_update(tasks: Seq<TaskView>, i: int, t: TaskView, a: AccountId)
    requires
        0 <= i < tasks.len(),
    ensures
        budget_sum(tasks.update(i, t), a) == budget_sum(tasks, a) - budget_contrib(tasks[i], a)
            + budget_contrib(t, a),
    decreases tasks.len(),
{
    if i == tasks.len() - 1 {
        assert(tasks.update(i, t).drop_last() =~= tasks.drop_last());
        assert(tasks.update(i, t).last() == t);
    } else {
        assert(tasks.update(i, t).drop_last() =~= tasks.drop_last().update(i, t));
        assert(tasks.update(i, t).last() == tasks.last());
        lemma_budget_sum_update(tasks.drop_last(), i, t, a);
        assert(tasks.drop_last()[i] == tasks[i]);
    }
}

pub proof fn lemma_budget_contrib_le_sum(tasks: Seq<TaskView>, i: int, a: AccountId)
    requires
        0 <= i < tasks.len(),
    ensures
        budget_contrib(tasks[i], a) <= budget_sum(tasks, a),
    decreases tasks.len(),
{
    if i == tasks.len() - 1 {
        lemma_budget_sum_nonneg(tasks.drop_last(), a);
    } else {
        lemma_budget_contrib_le_sum(tasks.drop_last(), i, a);
        assert(tasks.drop_last()[i] == tasks[i]);
    }
}

// ---------------------------------------------------------------------
// lemmas about the record index
// ---------------------------------------------------------------------

pub proof fn lemma_task_index_valid(tasks: Seq<TaskView>, id: TaskId)
    requires
        has_task(tasks, id),
    ensures
        0 <= task_index(tasks, id) < tasks.len(),
        tasks[task_index(tasks, id)].id == id,
        task_at(tasks, id).id == id,
{
    let i = choose|i: int| 0 <= i < tasks.len() && tasks[i].id == id;
    assert(0 <= i < tasks.len() && tasks[i].id == id);
}

pub proof fn lemma_task_index_unique(tasks: Seq<TaskView>, id: TaskId, k: int)
    requires
        task_ids_unique(tasks),
        0 <= k < tasks.len(),
        tasks[k].id == id,
    ensures
        task_index(tasks, id) == k,
        has_task(tasks, id),
{
    assert(has_task(tasks, id));
    lemma_task_index_valid(tasks, id);
    let i = task_index(tasks, id);
    if i != k {
        if i < k {
            assert(tasks[i].id != tasks[k].id);
        } else {
            assert(tasks[k].id != tasks[i].id);
        }
        assert(false);
    }
}

} // verus!
