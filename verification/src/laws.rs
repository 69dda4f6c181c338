//! The engine's global laws, each proved from the state model alone:
//! escrow conservation, ownership consistency, the create/remove round
//! trip, adherence of every operation to the lifecycle state machine, and
//! what the deadline sweep retires.
//!
//! No-partial-mutation is not restated here: it is an `ensures` of every
//! operation (an error leaves the whole state equal to what it was).

use vstd::prelude::*;
use crate::types::{AccountId, TaskId, TaskStatus};
use crate::task::TaskView;
use crate::ledger::AccountBalance;
use crate::ledger::{bal_in, entry_ok};
use crate::state::{
    StateView, CreateInput, UpdateInput, has_task, task_index, task_at, free_of, reserved_of,
    owned_of, budget_sum, task_ids_unique, wf, created_record, create_bounded, create_ok,
    create_post, update_ok, updated_record, update_post, remove_ok, remove_post, retire_post,
    start_ok, start_post, complete_ok, complete_post, accept_ok, accept_post, reject_ok,
    reject_post, sweep_eligible, sweep_from, sweep_post, allowed_transition,
    lemma_task_index_valid, lemma_task_index_unique,
};
use crate::invariants::{
    lemma_task_lookup_update, lemma_task_lookup_push, lemma_task_lookup_remove,
    lemma_retire_preserves_wf,
};

verus! {

/// Escrow conservation: in every well-formed state, what the ledger holds
/// reserved against an account is exactly the total budget of the live
/// records that account funded — and every live record is unsettled (no
/// stored record carries the terminal status), so that total ranges over
/// precisely the unsettled records.
pub proof fn lemma_escrow_conservation(s: StateView, a: AccountId)
    requires
        wf(s),
    ensures
        reserved_of(s, a) == budget_sum(s.tasks, a),
        forall|i: int| 0 <= i < s.tasks.len() ==> (#[trigger] s.tasks[i]).status
            != TaskStatus::Accepted,
{
    assert forall|i: int| 0 <= i < s.tasks.len() implies (#[trigger] s.tasks[i]).status
        != TaskStatus::Accepted by {
        assert(s.tasks[i].owner_coupled());
    }
}

/// Ownership consistency: in every well-formed state, each live record's
/// identifier is listed by exactly one account — its current owner.
pub proof fn lemma_ownership_consistency(s: StateView, i: int)
    requires
        wf(s),
        0 <= i < s.tasks.len(),
    ensures
        owned_of(s, s.tasks[i].current_owner).contains(s.tasks[i].id),
        forall|a: AccountId| a != s.tasks[i].current_owner ==> !owned_of(s, a).contains(
            s.tasks[i].id,
        ),
{
    let id = s.tasks[i].id;
    lemma_task_index_unique(s.tasks, id, i);
    assert forall|a: AccountId| a != s.tasks[i].current_owner implies !owned_of(s, a).contains(
        id,
    ) by {
        if owned_of(s, a).contains(id) {
            assert(s.owned.contains_key(a)) by {
                if !s.owned.contains_key(a) {
                    assert(owned_of(s, a) == Seq::<TaskId>::empty());
                }
            }
            let j = choose|j: int| 0 <= j < owned_of(s, a).len() && owned_of(s, a)[j] == id;
            assert(s.owned[a][j] == id);
            assert(task_at(s.tasks, id).current_owner == a);
        }
    }
}

/// The create/remove round trip: a record that is created and then
/// removed by its initiator leaves the initiator's free and reserved
/// balances exactly as they were, and no record remains.
pub proof fn lemma_create_remove_round_trip(s: StateView, c: CreateInput)
    requires
        wf(s),
        create_ok(s, c),
        create_bounded(c),
    ensures
        ({
            let s1 = create_post(s, c);
            let id = created_record(c).id;
            let s2 = remove_post(s1, c.caller, id);
            &&& remove_ok(s1, c.caller, id)
            &&& free_of(s2, c.caller) == free_of(s, c.caller)
            &&& reserved_of(s2, c.caller) == reserved_of(s, c.caller)
            &&& !has_task(s2.tasks, id)
            &&& s2.tasks == s.tasks
        }),
{
    let t = created_record(c);
    let id = t.id;
    let s1 = create_post(s, c);
    let s2 = remove_post(s1, c.caller, id);
    lemma_task_lookup_push(s.tasks, t);
    let n = s.tasks.len() as int;
    assert(task_index(s1.tasks, id) == n);
    assert(task_at(s1.tasks, id) == t);
    assert(remove_ok(s1, c.caller, id));

    assert(entry_ok(bal_in(s.balances, c.caller)));
    let bal0 = bal_in(s.balances, c.caller);
    let bal1 = bal_in(s1.balances, c.caller);
    assert(bal1 == AccountBalance {
        free: (bal0.free - c.budget) as u64,
        reserved: (bal0.reserved + c.budget) as u64,
    });
    assert(bal_in(s2.balances, c.caller).free == bal0.free);
    assert(bal_in(s2.balances, c.caller).reserved == bal0.reserved);

    lemma_task_lookup_remove(s1.tasks, n);
    assert(!has_task(s2.tasks, id));
    assert(s2.tasks =~= s.tasks);
}

// ---------------------------------------------------------------------
// state machine adherence, operation by operation: a record enters at
// `Created`; every status change of a surviving record follows the
// lifecycle; records leave the store only unstarted or settled.
// ---------------------------------------------------------------------

/// A created record enters the store in `Created` status; every other
/// record is untouched.
pub proof fn lemma_create_transitions(s: StateView, c: CreateInput)
    requires
        wf(s),
        create_ok(s, c),
    ensures
        task_at(create_post(s, c).tasks, created_record(c).id).status == TaskStatus::Created,
        forall|x: TaskId| #[trigger]
            has_task(s.tasks, x) ==> task_at(create_post(s, c).tasks, x) == task_at(s.tasks, x),
{
    let t = created_record(c);
    lemma_task_lookup_push(s.tasks, t);
    assert(task_at(create_post(s, c).tasks, t.id) == t);
    assert forall|x: TaskId| #[trigger] has_task(s.tasks, x) implies task_at(
        create_post(s, c).tasks,
        x,
    ) == task_at(s.tasks, x) by {
        lemma_task_index_valid(s.tasks, x);
        let k = task_index(s.tasks, x);
        assert(create_post(s, c).tasks[k] == s.tasks[k]);
    }
}

/// An update changes no record's status: the store's statuses after are
/// the statuses before.
pub proof fn lemma_update_transitions(s: StateView, u: UpdateInput)
    requires
        wf(s),
        update_ok(s, u),
    ensures
        forall|x: TaskId| #[trigger]
            has_task(update_post(s, u).tasks, x) <==> has_task(s.tasks, x),
        forall|x: TaskId| #[trigger]
            has_task(s.tasks, x) ==> task_at(update_post(s, u).tasks, x).status == task_at(
                s.tasks,
                x,
            ).status,
{
    lemma_task_index_valid(s.tasks, u.id);
    let i = task_index(s.tasks, u.id);
    let t2 = updated_record(s.tasks[i], u);
    lemma_task_lookup_update(s.tasks, i, t2);
    assert forall|x: TaskId| #[trigger] has_task(s.tasks, x) implies task_at(
        update_post(s, u).tasks,
        x,
    ).status == task_at(s.tasks, x).status by {
        lemma_task_index_valid(s.tasks, x);
        assert(task_index(update_post(s, u).tasks, x) == task_index(s.tasks, x));
        if task_index(s.tasks, x) != i {
            assert(update_post(s, u).tasks[task_index(s.tasks, x)] == s.tasks[task_index(
                s.tasks,
                x,
            )]);
        }
    }
}

/// The single-record handover transitions: what start, complete and
/// reject do to the one record they touch, and to no other.
proof fn lemma_handover_transitions(s: StateView, i: int, t2: TaskView)
    requires
        task_ids_unique(s.tasks),
        0 <= i < s.tasks.len(),
        t2.id == s.tasks[i].id,
    ensures
        forall|x: TaskId| #[trigger]
            has_task(s.tasks.update(i, t2), x) <==> has_task(s.tasks, x),
        task_at(s.tasks.update(i, t2), s.tasks[i].id) == t2,
        forall|x: TaskId| has_task(s.tasks, x) && x != s.tasks[i].id ==> task_at(
            s.tasks.update(i, t2),
            x,
        ) == task_at(s.tasks, x),
{
    lemma_task_lookup_update(s.tasks, i, t2);
    lemma_task_index_unique(s.tasks, t2.id, i);
    assert(task_index(s.tasks.update(i, t2), t2.id) == i);
    assert forall|x: TaskId| has_task(s.tasks, x) && x != s.tasks[i].id implies task_at(
        s.tasks.update(i, t2),
        x,
    ) == task_at(s.tasks, x) by {
        lemma_task_index_valid(s.tasks, x);
        let k = task_index(s.tasks, x);
        assert(k != i);
        assert(task_index(s.tasks.update(i, t2), x) == k);
    }
}

/// A started record goes `Created` to `InProgress`; every other record
/// keeps its fields.
pub proof fn lemma_start_transitions(s: StateView, caller: AccountId, id: TaskId)
    requires
        wf(s),
        start_ok(s, caller, id),
    ensures
        task_at(s.tasks, id).status == TaskStatus::Created,
        task_at(start_post(s, caller, id).tasks, id).status == TaskStatus::InProgress,
        allowed_transition(
            task_at(s.tasks, id).status,
            task_at(start_post(s, caller, id).tasks, id).status,
        ),
        forall|x: TaskId| has_task(s.tasks, x) && x != id ==> task_at(
            start_post(s, caller, id).tasks,
            x,
        ) == task_at(s.tasks, x),
{
    lemma_task_index_valid(s.tasks, id);
    let i = task_index(s.tasks, id);
    let t = s.tasks[i];
    lemma_handover_transitions(
        s,
        i,
        TaskView { volunteer: caller, current_owner: caller, status: TaskStatus::InProgress, ..t },
    );
}

/// A completed record goes `InProgress` to `Completed`; every other
/// record keeps its fields.
pub proof fn lemma_complete_transitions(s: StateView, caller: AccountId, id: TaskId, block: u64)
    requires
        wf(s),
        complete_ok(s, caller, id),
    ensures
        task_at(s.tasks, id).status == TaskStatus::InProgress,
        task_at(complete_post(s, caller, id, block).tasks, id).status == TaskStatus::Completed,
        allowed_transition(
            task_at(s.tasks, id).status,
            task_at(complete_post(s, caller, id, block).tasks, id).status,
        ),
        forall|x: TaskId| has_task(s.tasks, x) && x != id ==> task_at(
            complete_post(s, caller, id, block).tasks,
            x,
        ) == task_at(s.tasks, x),
{
    lemma_task_index_valid(s.tasks, id);
    let i = task_index(s.tasks, id);
    let t = s.tasks[i];
    lemma_handover_transitions(
        s,
        i,
        TaskView {
            current_owner: t.initiator,
            status: TaskStatus::Completed,
            completed_at: block,
            ..t
        },
    );
}

/// A rejected record goes `Completed` back to `InProgress`, carrying the
/// feedback; every other record keeps its fields.
pub proof fn lemma_reject_transitions(s: StateView, caller: AccountId, id: TaskId, feedback: Seq<u8>)
    requires
        wf(s),
        reject_ok(s, caller, id),
    ensures
        task_at(s.tasks, id).status == TaskStatus::Completed,
        task_at(reject_post(s, caller, id, feedback).tasks, id).status == TaskStatus::InProgress,
        task_at(reject_post(s, caller, id, feedback).tasks, id).feedback == Some(feedback),
        allowed_transition(
            task_at(s.tasks, id).status,
            task_at(reject_post(s, caller, id, feedback).tasks, id).status,
        ),
        forall|x: TaskId| has_task(s.tasks, x) && x != id ==> task_at(
            reject_post(s, caller, id, feedback).tasks,
            x,
        ) == task_at(s.tasks, x),
{
    lemma_task_index_valid(s.tasks, id);
    let i = task_index(s.tasks, id);
    let t = s.tasks[i];
    lemma_handover_transitions(
        s,
        i,
        TaskView {
            current_owner: t.volunteer,
            status: TaskStatus::InProgress,
            feedback: Some(feedback),
            ..t
        },
    );
}

/// A removed record leaves from `Created` and only from `Created`; every
/// other record keeps its fields.
pub proof fn lemma_remove_transitions(s: StateView, caller: AccountId, id: TaskId)
    requires
        wf(s),
        remove_ok(s, caller, id),
    ensures
        task_at(s.tasks, id).status == TaskStatus::Created,
        !has_task(remove_post(s, caller, id).tasks, id),
        forall|x: TaskId| has_task(s.tasks, x) && x != id ==> has_task(
            remove_post(s, caller, id).tasks,
            x,
        ) && task_at(remove_post(s, caller, id).tasks, x) == task_at(s.tasks, x),
{
    lemma_task_index_valid(s.tasks, id);
    let i = task_index(s.tasks, id);
    lemma_task_lookup_remove(s.tasks, i);
}

/// An accepted record leaves the store settled: it is deleted, and it was
/// owned by its initiator (so, by the coupling, `Created` or `Completed`,
/// never in the volunteer's hands).
pub proof fn lemma_accept_transitions(s: StateView, caller: AccountId, id: TaskId)
    requires
        wf(s),
        accept_ok(s, caller, id),
    ensures
        task_at(s.tasks, id).status == TaskStatus::Created || task_at(s.tasks, id).status
            == TaskStatus::Completed,
        !has_task(accept_post(s, caller, id).tasks, id),
        forall|x: TaskId| has_task(s.tasks, x) && x != id ==> has_task(
            accept_post(s, caller, id).tasks,
            x,
        ) && task_at(accept_post(s, caller, id).tasks, x) == task_at(s.tasks, x),
{
    lemma_task_index_valid(s.tasks, id);
    let i = task_index(s.tasks, id);
    assert(s.tasks[i].owner_coupled()) by {
        assert(s.tasks[i] == task_at(s.tasks, id));
    }
    lemma_task_lookup_remove(s.tasks, i);
}

// ---------------------------------------------------------------------
// the deadline sweep
// ---------------------------------------------------------------------

proof fn lemma_sweep_from_effect(s: StateView, now: u64, i: int)
    requires
        wf(s),
        0 <= i,
        forall|k: int| 0 <= k < i && k < s.tasks.len() ==> !sweep_eligible(
            #[trigger] s.tasks[k],
            now,
        ),
    ensures
        forall|x: TaskId| #[trigger]
            has_task(sweep_from(s, now, i).tasks, x) <==> (has_task(s.tasks, x)
                && !sweep_eligible(task_at(s.tasks, x), now)),
        forall|x: TaskId| #[trigger]
            has_task(sweep_from(s, now, i).tasks, x) ==> task_at(sweep_from(s, now, i).tasks, x)
                == task_at(s.tasks, x),
    decreases s.tasks.len() - i,
{
    if i >= s.tasks.len() {
        assert forall|x: TaskId| #[trigger] has_task(s.tasks, x) implies !sweep_eligible(
            task_at(s.tasks, x),
            now,
        ) by {
            lemma_task_index_valid(s.tasks, x);
        }
    } else if sweep_eligible(s.tasks[i], now) {
        let id = s.tasks[i].id;
        lemma_task_index_unique(s.tasks, id, i);
        assert(task_at(s.tasks, id) == s.tasks[i]);
        lemma_retire_preserves_wf(s, id);
        let s1 = retire_post(s, id);
        assert(s1.tasks == s.tasks.remove(i));
        lemma_task_lookup_remove(s.tasks, i);
        assert forall|k: int| 0 <= k < i && k < s1.tasks.len() implies !sweep_eligible(
            #[trigger] s1.tasks[k],
            now,
        ) by {
            assert(s1.tasks[k] == s.tasks[k]);
        }
        lemma_sweep_from_effect(s1, now, i);
        assert(sweep_from(s, now, i) == sweep_from(s1, now, i));
        assert forall|x: TaskId| #[trigger] has_task(sweep_from(s, now, i).tasks, x) implies (
        has_task(s.tasks, x) && !sweep_eligible(task_at(s.tasks, x), now)) by {
            assert(has_task(s1.tasks, x) && !sweep_eligible(task_at(s1.tasks, x), now));
            assert(x != id);
            assert(task_at(s1.tasks, x) == task_at(s.tasks, x));
        }
        assert forall|x: TaskId| has_task(s.tasks, x) && !sweep_eligible(
            task_at(s.tasks, x),
            now,
        ) implies #[trigger] has_task(sweep_from(s, now, i).tasks, x) by {
            assert(x != id);
            assert(has_task(s1.tasks, x));
            assert(task_at(s1.tasks, x) == task_at(s.tasks, x));
        }
        assert forall|x: TaskId| #[trigger] has_task(sweep_from(s, now, i).tasks, x) implies
            task_at(sweep_from(s, now, i).tasks, x) == task_at(s.tasks, x) by {
            assert(task_at(sweep_from(s1, now, i).tasks, x) == task_at(s1.tasks, x));
            assert(x != id);
            assert(task_at(s1.tasks, x) == task_at(s.tasks, x));
        }
    } else {
        lemma_sweep_from_effect(s, now, i + 1);
    }
}

/// What the sweep retires, exactly: a record survives the sweep if and
/// only if it is not an expired `Created` record, and every survivor is
/// untouched. Records whose deadline has passed in any other status stay
/// — the engine's known limitation, kept deliberately.
pub proof fn lemma_sweep_effect(s: StateView, now: u64)
    requires
        wf(s),
    ensures
        forall|x: TaskId| #[trigger]
            has_task(sweep_post(s, now).tasks, x) <==> (has_task(s.tasks, x) && !sweep_eligible(
                task_at(s.tasks, x),
                now,
            )),
        forall|x: TaskId| #[trigger]
            has_task(sweep_post(s, now).tasks, x) ==> task_at(sweep_post(s, now).tasks, x)
                == task_at(s.tasks, x),
{
    lemma_sweep_from_effect(s, now, 0);
}

} // verus!
