//! The engine itself: the record store, counter, ownership index, model
//! ledger, profile registry and organization registry under one roof, with
//! the seven caller-invoked operations and the per-round deadline sweep.
//!
//! Every operation is all-or-nothing: it either returns `Ok` having moved
//! the state exactly to the operation's `*_post` image, or returns the
//! first violated precondition's error having changed nothing.

use vstd::prelude::*;
use crate::types::{
    AccountId, Balance, Error, Event, OrgId, TaskId, TaskStatus, MAX_TASKS_OWNED, MAX_TITLE_LEN,
    MAX_SPECIFICATION_LEN, MAX_ATTACHMENTS_LEN, MAX_KEYWORDS_LEN, MAX_FEEDBACK_LEN,
};
use crate::task::Task;
use crate::codec::compute_task_id;
use crate::ledger::{AccountBalance, Ledger, bal_in, entry_ok, ledger_ok};
use crate::owned::{OwnedIndex, no_dup};
use crate::orgs::Orgs;
use crate::profiles::{Profiles, ProfileView, ReputationUnit, profile_in};
use crate::state::{
    StateView, CreateInput, UpdateInput, empty_state, has_task, task_at, free_of,
    reserved_of, owned_of, has_profile, budget_sum, wf, created_base, created_record,
    create_ok, create_err, create_post, update_ok, update_err,
    update_post, remove_ok, remove_err, remove_post, retire_post, start_ok,
    start_err, start_post, complete_ok, complete_err, complete_post, accept_ok, accept_err,
    accept_post, reject_ok, reject_err, reject_post, sweep_eligible, sweep_from, sweep_post,
    lemma_budget_contrib_le_sum, lemma_task_index_unique,
};
use crate::invariants::{
    lemma_create_preserves_wf, lemma_update_preserves_wf, lemma_retire_preserves_wf,
    lemma_start_preserves_wf, lemma_complete_preserves_wf, lemma_accept_preserves_wf,
    lemma_reject_preserves_wf, lemma_wf_frame,
};

verus! {

/// The task lifecycle and escrow engine.
pub struct Pallet {
    tasks: Vec<Task>,
    task_count: u64,
    owned: OwnedIndex,
    ledger: Ledger,
    profiles: Profiles,
    orgs: Orgs,
    events: Vec<Event>,
}

impl View for Pallet {
    type V = StateView;

    closed spec fn view(&self) -> StateView {
        StateView {
            tasks: self.tasks@.map_values(|t: Task| t@),
            task_count: self.task_count,
            owned: self.owned@,
            balances: self.ledger@,
            profiles: self.profiles@,
            orgs: self.orgs@,
            events: self.events@,
        }
    }
}

impl Pallet {
    /// A fresh engine with nothing stored.
    pub fn new() -> (r: Pallet)
        ensures
            r@ == empty_state(),
            wf(r@),
    {
        let r = Pallet {
            tasks: Vec::new(),
            task_count: 0,
            owned: OwnedIndex::new(),
            ledger: Ledger::new(),
            profiles: Profiles::new(),
            orgs: Orgs::new(),
            events: Vec::new(),
        };
        proof {
            assert(r@ =~~= empty_state());
            assert forall|a: AccountId| #[trigger] reserved_of(r@, a) == budget_sum(
                r@.tasks,
                a,
            ) by {
                assert(!r@.balances.contains_key(a));
            }
        }
        r
    }

    // -----------------------------------------------------------------
    // environment setup: balances, profiles, organizations
    // -----------------------------------------------------------------

    /// Endows `a` with `amount` of free balance. Refused (nothing changes)
    /// when the account could not hold it.
    pub fn fund(&mut self, a: AccountId, amount: Balance) -> (r: bool)
        requires
            wf(old(self)@),
        ensures
            wf(final(self)@),
            r == (free_of(old(self)@, a) + reserved_of(old(self)@, a) + amount <= u64::MAX),
            r ==> final(self)@ == (StateView {
                balances: old(self)@.balances.insert(
                    a,
                    AccountBalance {
                        free: (free_of(old(self)@, a) + amount) as u64,
                        reserved: reserved_of(old(self)@, a),
                    },
                ),
                ..old(self)@
            }),
            !r ==> final(self)@ == old(self)@,
    {
        let ok = self.ledger.deposit(a, amount);
        proof {
            if ok {
                assert(self@ =~~= (StateView {
                    balances: old(self)@.balances.insert(
                        a,
                        AccountBalance {
                            free: (free_of(old(self)@, a) + amount) as u64,
                            reserved: reserved_of(old(self)@, a),
                        },
                    ),
                    ..old(self)@
                }));
                assert(ledger_ok(self@.balances)) by {
                    assert forall|x: AccountId| #[trigger] self@.balances.contains_key(x) implies
                        entry_ok(self@.balances[x]) by {
                        if x != a {
                            assert(self@.balances[x] == old(self)@.balances[x]);
                        }
                    }
                }
                assert forall|x: AccountId| #[trigger] reserved_of(self@, x) == reserved_of(
                    old(self)@,
                    x,
                ) by {
                    if x != a {
                        assert(bal_in(self@.balances, x) == bal_in(old(self)@.balances, x));
                    }
                }
                lemma_wf_frame(old(self)@, self@);
            } else {
                assert(self@ =~~= old(self)@);
            }
        }
        ok
    }

    /// Registers a profile for `a`; registering twice changes nothing.
    pub fn create_profile(&mut self, a: AccountId)
        requires
            wf(old(self)@),
        ensures
            wf(final(self)@),
            has_profile(old(self)@, a) ==> final(self)@ == old(self)@,
            !has_profile(old(self)@, a) ==> final(self)@ == (StateView {
                profiles: old(self)@.profiles.insert(
                    a,
                    ProfileView {
                        account: a,
                        reputation: 0,
                        credibility: 0,
                        completed_tasks: Seq::empty(),
                    },
                ),
                ..old(self)@
            }),
    {
        self.profiles.create_profile(a);
        proof {
            if has_profile(old(self)@, a) {
                assert(self@ =~~= old(self)@);
            } else {
                assert(self@ =~~= (StateView {
                    profiles: old(self)@.profiles.insert(
                        a,
                        ProfileView {
                            account: a,
                            reputation: 0,
                            credibility: 0,
                            completed_tasks: Seq::empty(),
                        },
                    ),
                    ..old(self)@
                }));
                assert forall|x: AccountId| #[trigger] self@.profiles.contains_key(x) implies
                    self@.profiles[x].account == x by {
                    if x != a {
                        assert(self@.profiles[x] == old(self)@.profiles[x]);
                    }
                }
                lemma_wf_frame(old(self)@, self@);
            }
        }
    }

    /// Registers an organization identifier.
    pub fn add_organization(&mut self, org: OrgId)
        requires
            wf(old(self)@),
        ensures
            wf(final(self)@),
            final(self)@ == (StateView { orgs: old(self)@.orgs.insert(org), ..old(self)@ }),
    {
        self.orgs.add(org);
        proof {
            assert(self@ =~~= (StateView { orgs: old(self)@.orgs.insert(org), ..old(self)@ }));
            lemma_wf_frame(old(self)@, self@);
        }
    }

    // -----------------------------------------------------------------
    // getters
    // -----------------------------------------------------------------

    /// The number of live records.
    pub fn task_count(&self) -> (r: u64)
        ensures
            r == self@.task_count,
    {
        self.task_count
    }

    /// The live record with identifier `id`, if any.
    pub fn tasks(&self, id: TaskId) -> (r: Option<&Task>)
        requires
            wf(self@),
        ensures
            match r {
                Some(t) => has_task(self@.tasks, id) && t@ == task_at(self@.tasks, id),
                None => !has_task(self@.tasks, id),
            },
    {
        match self.find_index(id) {
            None => None,
            Some(i) => {
                proof {
                    lemma_task_index_unique(self@.tasks, id, i as int);
                    assert(self@.tasks[i as int] == self.tasks@[i as int]@);
                }
                Some(&self.tasks[i])
            }
        }
    }

    /// The record identifiers `a` currently owns, in insertion order.
    pub fn tasks_owned(&self, a: AccountId) -> (r: Vec<TaskId>)
        ensures
            r@ == owned_of(self@, a),
    {
        self.owned.ids_of(a)
    }

    /// The free balance of `a`.
    pub fn free_balance(&self, a: AccountId) -> (r: Balance)
        ensures
            r == free_of(self@, a),
    {
        self.ledger.free_balance(a)
    }

    /// The reserved balance of `a`.
    pub fn reserved_balance(&self, a: AccountId) -> (r: Balance)
        ensures
            r == reserved_of(self@, a),
    {
        self.ledger.reserved_balance(a)
    }

    /// Whether `a` has a profile.
    pub fn has_profile(&self, a: AccountId) -> (r: bool)
        ensures
            r == has_profile(self@, a),
    {
        self.profiles.has_profile(a)
    }

    /// The reputation of `a`, zero without a profile.
    pub fn reputation_of(&self, a: AccountId) -> (r: ReputationUnit)
        ensures
            r == if has_profile(self@, a) {
                profile_in(self@.profiles, a).reputation
            } else {
                0
            },
    {
        self.profiles.reputation_of(a)
    }

    /// A copy of `a`'s completed-work history.
    pub fn completed_of(&self, a: AccountId) -> (r: Vec<TaskId>)
        ensures
            r@ == if has_profile(self@, a) {
                profile_in(self@.profiles, a).completed_tasks
            } else {
                Seq::<TaskId>::empty()
            },
    {
        self.profiles.completed_of(a)
    }

    /// Whether `org` is a registered organization.
    pub fn has_organization(&self, org: OrgId) -> (r: bool)
        ensures
            r == self@.orgs.contains(org),
    {
        self.orgs.is_registered(org)
    }

    /// Every event emitted so far, oldest first.
    pub fn events(&self) -> (r: &Vec<Event>)
        ensures
            r@ == self@.events,
    {
        &self.events
    }

    /// The most recent event.
    pub fn last_event(&self) -> (r: Event)
        requires
            self@.events.len() > 0,
        ensures
            r == self@.events.last(),
    {
        self.events[self.events.len() - 1]
    }

    // -----------------------------------------------------------------
    // the lifecycle operations
    // -----------------------------------------------------------------

    /// Creates a record: builds it with status `Created`, computes its
    /// content digest, files it under the caller, reserves the budget from
    /// the caller's free balance, bumps the counter and emits
    /// `TaskCreated`. Fails on the first violated precondition, leaving
    /// everything unchanged.
    pub fn create_task(
        &mut self,
        caller: AccountId,
        title: Vec<u8>,
        specification: Vec<u8>,
        budget: Balance,
        deadline: u64,
        attachments: Vec<u8>,
        keywords: Vec<u8>,
        organization: Option<OrgId>,
        now: u64,
        block: u64,
    ) -> (r: Result<TaskId, Error>)
        requires
            wf(old(self)@),
            title@.len() <= MAX_TITLE_LEN,
            specification@.len() <= MAX_SPECIFICATION_LEN,
            attachments@.len() <= MAX_ATTACHMENTS_LEN,
            keywords@.len() <= MAX_KEYWORDS_LEN,
        ensures
            wf(final(self)@),
            ({
                let c = CreateInput {
                    caller,
                    title: title@,
                    specification: specification@,
                    budget,
                    deadline,
                    attachments: attachments@,
                    keywords: keywords@,
                    organization,
                    now,
                    block,
                };
                &&& (create_ok(old(self)@, c) ==> r == Ok::<TaskId, Error>(
                    created_record(c).id,
                ) && final(self)@ == create_post(old(self)@, c))
                &&& (!create_ok(old(self)@, c) ==> r == Err::<TaskId, Error>(
                    create_err(old(self)@, c),
                ) && final(self)@ == old(self)@)
            }),
    {
        let ghost c = CreateInput {
            caller,
            title: title@,
            specification: specification@,
            budget,
            deadline,
            attachments: attachments@,
            keywords: keywords@,
            organization,
            now,
            block,
        };
        if let Some(org) = organization {
            if !self.orgs.is_registered(org) {
                return Err(Error::InvalidOrganization);
            }
        }
        if !self.ledger.can_reserve(caller, budget) {
            return Err(Error::NotEnoughBalance);
        }
        if !self.profiles.has_profile(caller) {
            return Err(Error::NoProfile);
        }
        if !(now < deadline) {
            return Err(Error::IncorrectDeadlineTimestamp);
        }
        if self.owned.count(caller) >= MAX_TASKS_OWNED {
            return Err(Error::ExceedMaxTasksOwned);
        }
        if self.task_count == u64::MAX {
            return Err(Error::TaskCountOverflow);
        }
        let mut task = Task {
            id: TaskId { w0: 0, w1: 0, w2: 0, w3: 0 },
            title,
            specification,
            initiator: caller,
            volunteer: caller,
            current_owner: caller,
            status: TaskStatus::Created,
            budget,
            deadline,
            attachments,
            keywords,
            feedback: None,
            created_at: block,
            updated_at: 0,
            completed_at: 0,
            organization,
        };
        proof {
            assert(task@ =~~= created_base(c));
            assert(task@ == created_base(c));
        }
        let id = compute_task_id(&task);
        task.id = id;
        proof {
            assert(task@ =~~= created_record(c));
            assert(task@ == created_record(c));
        }
        if self.find_index(id).is_some() {
            return Err(Error::DuplicateTask);
        }
        proof {
            assert(create_ok(old(self)@, c));
            assert(entry_ok(bal_in(old(self)@.balances, caller)));
        }
        self.ledger.reserve(caller, budget);
        self.tasks.push(task);
        self.owned.push_id(caller, id);
        self.task_count = self.task_count + 1;
        self.events.push(Event::TaskCreated(caller, id));
        proof {
            lemma_create_preserves_wf(old(self)@, c);
            assert(self@ =~~= create_post(old(self)@, c));
            assert(self@ == create_post(old(self)@, c));
        }
        Ok(id)
    }

    /// Removes a record: the caller must be its initiator and work must
    /// not have started. The budget returns to the initiator's free
    /// balance and `TaskRemoved` is emitted.
    pub fn remove_task(&mut self, caller: AccountId, id: TaskId) -> (r: Result<(), Error>)
        requires
            wf(old(self)@),
        ensures
            wf(final(self)@),
            remove_ok(old(self)@, caller, id) ==> r == Ok::<(), Error>(()) && final(self)@
                == remove_post(old(self)@, caller, id),
            !remove_ok(old(self)@, caller, id) ==> r == Err::<(), Error>(
                remove_err(old(self)@, caller, id),
            ) && final(self)@ == old(self)@,
    {
        let i = match self.find_index(id) {
            None => {
                return Err(Error::TaskNotExist);
            }
            Some(i) => i,
        };
        proof {
            lemma_task_index_unique(self@.tasks, id, i as int);
            assert(self@.tasks[i as int] == self.tasks@[i as int]@);
        }
        if self.tasks[i].initiator != caller {
            return Err(Error::NoPermissionToRemove);
        }
        if !(self.tasks[i].status == TaskStatus::Created) {
            return Err(Error::NoPermissionToRemove);
        }
        self.retire_at(i);
        self.events.push(Event::TaskRemoved(caller, id));
        proof {
            assert(self@ =~~= remove_post(old(self)@, caller, id));
            assert(self@ == remove_post(old(self)@, caller, id));
            lemma_wf_frame(retire_post(old(self)@, id), self@);
        }
        Ok(())
    }

    /// The per-round maintenance pass: retires every record whose deadline
    /// has strictly passed while it is still in `Created` status. Records
    /// in any other status are left untouched, whatever their deadline; no
    /// events are emitted.
    pub fn on_initialize(&mut self, now: u64)
        requires
            wf(old(self)@),
        ensures
            wf(final(self)@),
            final(self)@ == sweep_post(old(self)@, now),
    {
        let mut i: usize = 0;
        while i < self.tasks.len()
            invariant
                wf(self@),
                sweep_from(self@, now, i as int) == sweep_from(old(self)@, now, 0),
            decreases self.tasks@.len() - i,
        {
            proof {
                assert(self@.tasks[i as int] == self.tasks@[i as int]@);
            }
            if self.tasks[i].status == TaskStatus::Created && self.tasks[i].deadline < now {
                let ghost s = self@;
                let ghost id = self@.tasks[i as int].id;
                proof {
                    assert(sweep_eligible(s.tasks[i as int], now));
                    lemma_task_index_unique(s.tasks, id, i as int);
                    assert(s.tasks[i as int].current_owner == s.tasks[i as int].initiator);
                    assert(sweep_from(s, now, i as int) == sweep_from(
                        retire_post(s, id),
                        now,
                        i as int,
                    ));
                }
                self.retire_at(i);
            } else {
                proof {
                    assert(!sweep_eligible(self@.tasks[i as int], now));
                    assert(sweep_from(self@, now, i as int) == sweep_from(
                        self@,
                        now,
                        i as int + 1,
                    ));
                }
                i = i + 1;
            }
        }
        proof {
            assert(self@.tasks.len() == self.tasks@.len());
            assert(sweep_from(self@, now, i as int) == self@);
        }
    }

    /// Retires the record at position `i`: takes it out of the store and
    /// the owner's list, releases its budget back to the initiator, and
    /// drops the counter. The record's current owner must be its
    /// initiator, which holds for `Created` and `Completed` records.
    fn retire_at(&mut self, i: usize)
        requires
            wf(old(self)@),
            i < old(self)@.tasks.len(),
            old(self)@.tasks[i as int].current_owner == old(self)@.tasks[i as int].initiator,
        ensures
            wf(final(self)@),
            final(self)@ == retire_post(old(self)@, old(self)@.tasks[i as int].id),
    {
        proof {
            assert(self@.tasks[i as int] == self.tasks@[i as int]@);
        }
        let id = self.tasks[i].id;
        let ini = self.tasks[i].initiator;
        let budget = self.tasks[i].budget;
        proof {
            lemma_task_index_unique(old(self)@.tasks, id, i as int);
            assert(owned_of(old(self)@, ini).contains(id));
            assert(no_dup(owned_of(old(self)@, ini))) by {
                if !old(self)@.owned.contains_key(ini) {
                    assert(owned_of(old(self)@, ini) == Seq::<TaskId>::empty());
                }
            }
            lemma_budget_contrib_le_sum(old(self)@.tasks, i as int, ini);
            assert(reserved_of(old(self)@, ini) == budget_sum(old(self)@.tasks, ini));
            assert(budget <= reserved_of(old(self)@, ini));
            assert(entry_ok(bal_in(old(self)@.balances, ini)));
        }
        self.tasks.remove(i);
        self.owned.remove_id(ini, id);
        self.ledger.unreserve(ini, budget);
        self.task_count = self.task_count - 1;
        proof {
            lemma_retire_preserves_wf(old(self)@, id);
            assert(self@ =~~= retire_post(old(self)@, id));
            assert(self@ == retire_post(old(self)@, id));
        }
    }

    /// Starts a record: a volunteer other than the initiator takes a
    /// `Created` record over. Ownership moves from the initiator's list to
    /// the volunteer's and `TaskAssigned` is emitted.
    pub fn start_task(&mut self, caller: AccountId, id: TaskId) -> (r: Result<(), Error>)
        requires
            wf(old(self)@),
        ensures
            wf(final(self)@),
            start_ok(old(self)@, caller, id) ==> r == Ok::<(), Error>(()) && final(self)@
                == start_post(old(self)@, caller, id),
            !start_ok(old(self)@, caller, id) ==> r == Err::<(), Error>(
                start_err(old(self)@, caller, id),
            ) && final(self)@ == old(self)@,
    {
        let i = match self.find_index(id) {
            None => {
                return Err(Error::TaskNotExist);
            }
            Some(i) => i,
        };
        proof {
            lemma_task_index_unique(self@.tasks, id, i as int);
            assert(self@.tasks[i as int] == self.tasks@[i as int]@);
        }
        if self.tasks[i].initiator == caller {
            return Err(Error::NoPermissionToStart);
        }
        if !(self.tasks[i].status == TaskStatus::Created) {
            return Err(Error::NoPermissionToStart);
        }
        if self.owned.count(caller) >= MAX_TASKS_OWNED {
            return Err(Error::ExceedMaxTasksOwned);
        }
        let ini = self.tasks[i].initiator;
        proof {
            assert((#[trigger] old(self)@.tasks[i as int]).owner_coupled());
            assert(old(self)@.tasks[i as int].current_owner == ini);
            assert(owned_of(old(self)@, ini).contains(id));
            assert(no_dup(owned_of(old(self)@, ini))) by {
                if !old(self)@.owned.contains_key(ini) {
                    assert(owned_of(old(self)@, ini) == Seq::<TaskId>::empty());
                }
            }
        }
        self.owned.remove_id(ini, id);
        self.owned.push_id(caller, id);
        {
            let t = &mut self.tasks[i];
            t.volunteer = caller;
            t.current_owner = caller;
            t.status = TaskStatus::InProgress;
        }
        self.events.push(Event::TaskAssigned(caller, id));
        proof {
            lemma_start_preserves_wf(old(self)@, caller, id);
            assert(self@ =~~= start_post(old(self)@, caller, id));
            assert(self@ == start_post(old(self)@, caller, id));
        }
        Ok(())
    }

    /// Completes a record: its volunteer hands an `InProgress` record back
    /// to the initiator, stamped with the round. `TaskCompleted` is
    /// emitted.
    pub fn complete_task(&mut self, caller: AccountId, id: TaskId, block: u64) -> (r: Result<
        (),
        Error,
    >)
        requires
            wf(old(self)@),
        ensures
            wf(final(self)@),
            complete_ok(old(self)@, caller, id) ==> r == Ok::<(), Error>(()) && final(self)@
                == complete_post(old(self)@, caller, id, block),
            !complete_ok(old(self)@, caller, id) ==> r == Err::<(), Error>(
                complete_err(old(self)@, caller, id),
            ) && final(self)@ == old(self)@,
    {
        let i = match self.find_index(id) {
            None => {
                return Err(Error::TaskNotExist);
            }
            Some(i) => i,
        };
        proof {
            lemma_task_index_unique(self@.tasks, id, i as int);
            assert(self@.tasks[i as int] == self.tasks@[i as int]@);
        }
        if !(self.tasks[i].status == TaskStatus::InProgress) {
            return Err(Error::NoPermissionToComplete);
        }
        if self.tasks[i].volunteer != caller {
            return Err(Error::NoPermissionToComplete);
        }
        let ini = self.tasks[i].initiator;
        if self.owned.count(ini) >= MAX_TASKS_OWNED {
            return Err(Error::ExceedMaxTasksOwned);
        }
        proof {
            assert((#[trigger] old(self)@.tasks[i as int]).owner_coupled());
            assert(old(self)@.tasks[i as int].current_owner == caller);
            assert(owned_of(old(self)@, caller).contains(id));
            assert(no_dup(owned_of(old(self)@, caller))) by {
                if !old(self)@.owned.contains_key(caller) {
                    assert(owned_of(old(self)@, caller) == Seq::<TaskId>::empty());
                }
            }
        }
        self.owned.remove_id(caller, id);
        self.owned.push_id(ini, id);
        {
            let t = &mut self.tasks[i];
            t.current_owner = ini;
            t.status = TaskStatus::Completed;
            t.completed_at = block;
        }
        self.events.push(Event::TaskCompleted(caller, id));
        proof {
            lemma_complete_preserves_wf(old(self)@, caller, id, block);
            assert(self@ =~~= complete_post(old(self)@, caller, id, block));
            assert(self@ == complete_post(old(self)@, caller, id, block));
        }
        Ok(())
    }

    /// Rejects a completed record: the initiator sends it back to the
    /// volunteer with feedback; it becomes `InProgress` again, the budget
    /// stays reserved, and `TaskRejected` is emitted.
    pub fn reject_task(&mut self, caller: AccountId, id: TaskId, feedback: Vec<u8>) -> (r: Result<
        (),
        Error,
    >)
        requires
            wf(old(self)@),
            feedback@.len() <= MAX_FEEDBACK_LEN,
        ensures
            wf(final(self)@),
            reject_ok(old(self)@, caller, id) ==> r == Ok::<(), Error>(()) && final(self)@
                == reject_post(old(self)@, caller, id, feedback@),
            !reject_ok(old(self)@, caller, id) ==> r == Err::<(), Error>(
                reject_err(old(self)@, caller, id),
            ) && final(self)@ == old(self)@,
    {
        let i = match self.find_index(id) {
            None => {
                return Err(Error::TaskNotExist);
            }
            Some(i) => i,
        };
        proof {
            lemma_task_index_unique(self@.tasks, id, i as int);
            assert(self@.tasks[i as int] == self.tasks@[i as int]@);
        }
        if self.tasks[i].initiator != caller {
            return Err(Error::OnlyInitiatorAcceptsTask);
        }
        if !(self.tasks[i].status == TaskStatus::Completed) {
            return Err(Error::OnlyCompletedTaskAreRejected);
        }
        let vol = self.tasks[i].volunteer;
        if self.owned.count(vol) >= MAX_TASKS_OWNED {
            return Err(Error::ExceedMaxTasksOwned);
        }
        proof {
            assert((#[trigger] old(self)@.tasks[i as int]).owner_coupled());
            assert(old(self)@.tasks[i as int].current_owner == caller);
            assert(owned_of(old(self)@, caller).contains(id));
            assert(no_dup(owned_of(old(self)@, caller))) by {
                if !old(self)@.owned.contains_key(caller) {
                    assert(owned_of(old(self)@, caller) == Seq::<TaskId>::empty());
                }
            }
        }
        self.owned.remove_id(caller, id);
        self.owned.push_id(vol, id);
        {
            let t = &mut self.tasks[i];
            t.current_owner = vol;
            t.status = TaskStatus::InProgress;
            t.feedback = Some(feedback);
        }
        self.events.push(Event::TaskRejected(caller, id));
        proof {
            lemma_reject_preserves_wf(old(self)@, caller, id, feedback@);
            assert(self@ =~~= reject_post(old(self)@, caller, id, feedback@));
            assert(self@ == reject_post(old(self)@, caller, id, feedback@));
        }
        Ok(())
    }

    /// Updates a record that has not been started: overwrites the mutable
    /// fields, settles the budget difference with the ledger first
    /// (reserving the increase or releasing the decrease), stamps the
    /// update and emits `TaskUpdated`.
    pub fn update_task(
        &mut self,
        caller: AccountId,
        id: TaskId,
        title: Vec<u8>,
        specification: Vec<u8>,
        budget: Balance,
        deadline: u64,
        attachments: Vec<u8>,
        keywords: Vec<u8>,
        organization: Option<OrgId>,
        now: u64,
        block: u64,
    ) -> (r: Result<(), Error>)
        requires
            wf(old(self)@),
            title@.len() <= MAX_TITLE_LEN,
            specification@.len() <= MAX_SPECIFICATION_LEN,
            attachments@.len() <= MAX_ATTACHMENTS_LEN,
            keywords@.len() <= MAX_KEYWORDS_LEN,
        ensures
            wf(final(self)@),
            ({
                let u = UpdateInput {
                    caller,
                    id,
                    title: title@,
                    specification: specification@,
                    budget,
                    deadline,
                    attachments: attachments@,
                    keywords: keywords@,
                    organization,
                    now,
                    block,
                };
                &&& (update_ok(old(self)@, u) ==> r == Ok::<(), Error>(()) && final(self)@
                    == update_post(old(self)@, u))
                &&& (!update_ok(old(self)@, u) ==> r == Err::<(), Error>(
                    update_err(old(self)@, u),
                ) && final(self)@ == old(self)@)
            }),
    {
        let ghost u = UpdateInput {
            caller,
            id,
            title: title@,
            specification: specification@,
            budget,
            deadline,
            attachments: attachments@,
            keywords: keywords@,
            organization,
            now,
            block,
        };
        if let Some(org) = organization {
            if !self.orgs.is_registered(org) {
                return Err(Error::InvalidOrganization);
            }
        }
        let i = match self.find_index(id) {
            None => {
                return Err(Error::TaskNotExist);
            }
            Some(i) => i,
        };
        proof {
            lemma_task_index_unique(self@.tasks, id, i as int);
            assert(self@.tasks[i as int] == self.tasks@[i as int]@);
        }
        if self.tasks[i].initiator != caller {
            return Err(Error::OnlyInitiatorUpdatesTask);
        }
        if !self.profiles.has_profile(caller) {
            return Err(Error::NoProfile);
        }
        if !(self.tasks[i].status == TaskStatus::Created) {
            return Err(Error::NoPermissionToUpdate);
        }
        if !(now < deadline) {
            return Err(Error::IncorrectDeadlineTimestamp);
        }
        let old_budget = self.tasks[i].budget;
        proof {
            lemma_budget_contrib_le_sum(old(self)@.tasks, i as int, caller);
            assert(reserved_of(old(self)@, caller) == budget_sum(old(self)@.tasks, caller));
            assert(old_budget <= reserved_of(old(self)@, caller));
            assert(entry_ok(bal_in(old(self)@.balances, caller)));
        }
        if budget > old_budget {
            let diff = budget - old_budget;
            if !self.ledger.can_reserve(caller, diff) {
                return Err(Error::NotEnoughBalance);
            }
            self.ledger.reserve(caller, diff);
        } else {
            let diff = old_budget - budget;
            self.ledger.unreserve(caller, diff);
        }
        {
            let t = &mut self.tasks[i];
            t.title = title;
            t.specification = specification;
            t.budget = budget;
            t.deadline = deadline;
            t.attachments = attachments;
            t.keywords = keywords;
            t.organization = organization;
            t.updated_at = block;
        }
        self.events.push(Event::TaskUpdated(caller, id));
        proof {
            lemma_update_preserves_wf(old(self)@, u);
            assert(self@ =~~= update_post(old(self)@, u));
            assert(self@ == update_post(old(self)@, u));
        }
        Ok(())
    }

    /// Accepts a record: the initiator releases the escrowed budget and
    /// pays it to the volunteer, both parties gain a reputation credit,
    /// the record joins the volunteer's completed-work history, leaves the
    /// store, and `TaskAccepted` is emitted. All of it happens, or none.
    pub fn accept_task(&mut self, caller: AccountId, id: TaskId) -> (r: Result<(), Error>)
        requires
            wf(old(self)@),
        ensures
            wf(final(self)@),
            accept_ok(old(self)@, caller, id) ==> r == Ok::<(), Error>(()) && final(self)@
                == accept_post(old(self)@, caller, id),
            !accept_ok(old(self)@, caller, id) ==> r == Err::<(), Error>(
                accept_err(old(self)@, caller, id),
            ) && final(self)@ == old(self)@,
    {
        let i = match self.find_index(id) {
            None => {
                return Err(Error::TaskNotExist);
            }
            Some(i) => i,
        };
        proof {
            lemma_task_index_unique(self@.tasks, id, i as int);
            assert(self@.tasks[i as int] == self.tasks@[i as int]@);
        }
        if self.tasks[i].current_owner != caller || self.tasks[i].initiator != caller {
            return Err(Error::OnlyInitiatorAcceptsTask);
        }
        let vol = self.tasks[i].volunteer;
        let b = self.tasks[i].budget;
        if vol != caller {
            let fv = self.ledger.free_balance(vol);
            let rv = self.ledger.reserved_balance(vol);
            if fv > u64::MAX - b || rv > u64::MAX - b - fv {
                return Err(Error::TransferFailed);
            }
        }
        if !self.profiles.has_profile(caller) {
            return Err(Error::NoProfile);
        }
        if !self.profiles.has_profile(vol) {
            return Err(Error::NoProfile);
        }
        proof {
            lemma_budget_contrib_le_sum(old(self)@.tasks, i as int, caller);
            assert(reserved_of(old(self)@, caller) == budget_sum(old(self)@.tasks, caller));
            assert(b <= reserved_of(old(self)@, caller));
            assert(entry_ok(bal_in(old(self)@.balances, caller)));
        }
        self.retire_at(i);
        proof {
            assert(bal_in(self@.balances, caller).free == bal_in(
                old(self)@.balances,
                caller,
            ).free + b);
            if vol != caller {
                assert(bal_in(self@.balances, vol) == bal_in(old(self)@.balances, vol));
            }
        }
        self.ledger.transfer(caller, vol, b);
        self.profiles.add_reputation(caller);
        self.profiles.add_reputation(vol);
        self.profiles.add_completed(vol, id);
        self.events.push(Event::TaskAccepted(caller, id));
        proof {
            lemma_accept_preserves_wf(old(self)@, caller, id);
            assert(self@ =~~= accept_post(old(self)@, caller, id));
            assert(self@ == accept_post(old(self)@, caller, id));
        }
        Ok(())
    }

    /// The position of the record with identifier `id` in the store.
    fn find_index(&self, id: TaskId) -> (r: Option<usize>)
        ensures
            match r {
                Some(i) => 0 <= i < self@.tasks.len() && self@.tasks[i as int].id == id,
                None => !has_task(self@.tasks, id),
            },
    {
        let n = self.tasks.len();
        let mut i: usize = 0;
        while i < n
            invariant
                n == self.tasks@.len(),
                i <= n,
                forall|j: int| 0 <= j < i ==> self@.tasks[j].id != id,
            decreases n - i,
        {
            proof {
                assert(self@.tasks[i as int] == self.tasks@[i as int]@);
            }
            if self.tasks[i].id == id {
                return Some(i);
            }
            i = i + 1;
        }
        proof {
            assert(self@.tasks.len() == n);
            if has_task(self@.tasks, id) {
                let k = choose|k: int| 0 <= k < self@.tasks.len() && self@.tasks[k].id == id;
                assert(self@.tasks[k].id != id);
            }
        }
        None
    }
}

} // verus!
