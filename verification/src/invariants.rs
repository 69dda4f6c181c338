//! Proofs that every operation preserves the engine's invariants: a
//! well-formed state stays well-formed through create, update, remove,
//! start, complete, accept, reject, and the deadline sweep.

use vstd::prelude::*;
use crate::types::{AccountId, TaskId, TaskStatus, MAX_TASKS_OWNED};
use crate::task::TaskView;
use crate::ledger::{bal_in, entry_ok, ledger_ok};
use crate::owned::{no_dup, swap_remove_id, lemma_swap_remove_id_props};
use crate::state::{
    StateView, CreateInput, UpdateInput, has_task, task_index, task_at, reserved_of,
    owned_of, has_profile, budget_sum, task_ids_unique, tasks_each_wf,
    tasks_indexed, owned_sound, owned_lists_wf, escrow_wf, profiles_wf, counter_wf, wf,
    created_record, create_bounded, create_ok, create_post, update_bounded, update_ok,
    updated_record, update_post, retire_post, start_ok, start_post,
    complete_ok, complete_post, accept_ok, accept_post, reject_ok, reject_post,
    lemma_budget_sum_push,
    lemma_budget_sum_remove, lemma_budget_sum_update, lemma_budget_contrib_le_sum,
    lemma_task_index_valid, lemma_task_index_unique,
};

verus! {

// ---------------------------------------------------------------------
// how pushing, updating and removing a record affect lookups
// ---------------------------------------------------------------------

/// Updating a record in place (same identifier) leaves every lookup where
/// it was.
pub proof fn lemma_task_lookup_update(tasks: Seq<TaskView>, i: int, t: TaskView)
    requires
        task_ids_unique(tasks),
        0 <= i < tasks.len(),
        t.id == tasks[i].id,
    ensures
        task_ids_unique(tasks.update(i, t)),
        forall|x: TaskId| #[trigger] has_task(tasks.update(i, t), x) <==> has_task(tasks, x),
        forall|x: TaskId| #[trigger]
            has_task(tasks, x) ==> task_index(tasks.update(i, t), x) == task_index(tasks, x),
{
    let tasks2 = tasks.update(i, t);
    assert(task_ids_unique(tasks2)) by {
        assert forall|i2: int, j2: int| 0 <= i2 < j2 < tasks2.len() implies tasks2[i2].id
            != tasks2[j2].id by {
            assert(tasks2[i2].id == tasks[i2].id);
            assert(tasks2[j2].id == tasks[j2].id);
        }
    }
    assert forall|x: TaskId| #[trigger] has_task(tasks2, x) implies has_task(tasks, x) by {
        let k = choose|k: int| 0 <= k < tasks2.len() && tasks2[k].id == x;
        assert(tasks[k].id == x);
    }
    assert forall|x: TaskId| has_task(tasks, x) implies #[trigger] has_task(tasks2, x) by {
        let k = choose|k: int| 0 <= k < tasks.len() && tasks[k].id == x;
        assert(tasks2[k].id == x);
    }
    assert forall|x: TaskId| #[trigger] has_task(tasks, x) implies task_index(tasks2, x)
        == task_index(tasks, x) by {
        lemma_task_index_valid(tasks, x);
        let k = task_index(tasks, x);
        assert(tasks2[k].id == x);
        lemma_task_index_unique(tasks2, x, k);
    }
}

/// Pushing a record with a fresh identifier leaves every existing lookup
/// where it was, and files the new record last.
pub proof fn lemma_task_lookup_push(tasks: Seq<TaskView>, t: TaskView)
    requires
        task_ids_unique(tasks),
        !has_task(tasks, t.id),
    ensures
        task_ids_unique(tasks.push(t)),
        forall|x: TaskId| #[trigger]
            has_task(tasks.push(t), x) <==> (has_task(tasks, x) || x == t.id),
        forall|x: TaskId| #[trigger]
            has_task(tasks, x) ==> task_index(tasks.push(t), x) == task_index(tasks, x),
        task_index(tasks.push(t), t.id) == tasks.len(),
{
    let tasks2 = tasks.push(t);
    assert forall|i: int| 0 <= i < tasks.len() implies tasks[i].id != t.id by {
        if tasks[i].id == t.id {
            assert(has_task(tasks, t.id));
        }
    }
    assert(task_ids_unique(tasks2)) by {
        assert forall|i2: int, j2: int| 0 <= i2 < j2 < tasks2.len() implies tasks2[i2].id
            != tasks2[j2].id by {
            assert(tasks2[i2].id == tasks[i2].id);
            if j2 < tasks.len() {
                assert(tasks2[j2].id == tasks[j2].id);
            } else {
                assert(tasks2[j2] == t);
            }
        }
    }
    assert forall|x: TaskId| #[trigger] has_task(tasks2, x) implies (has_task(tasks, x) || x
        == t.id) by {
        let k = choose|k: int| 0 <= k < tasks2.len() && tasks2[k].id == x;
        if k < tasks.len() {
            assert(tasks[k].id == x);
        }
    }
    assert forall|x: TaskId| has_task(tasks, x) implies #[trigger] has_task(tasks2, x) by {
        let k = choose|k: int| 0 <= k < tasks.len() && tasks[k].id == x;
        assert(tasks2[k].id == x);
    }
    assert(tasks2[tasks.len() as int].id == t.id);
    assert forall|x: TaskId| #[trigger] has_task(tasks, x) implies task_index(tasks2, x)
        == task_index(tasks, x) by {
        lemma_task_index_valid(tasks, x);
        let k = task_index(tasks, x);
        assert(tasks2[k].id == x);
        lemma_task_index_unique(tasks2, x, k);
    }
    lemma_task_index_unique(tasks2, t.id, tasks.len() as int);
}

/// Removing a record forgets exactly its identifier; every other record is
/// still found, with the fields it had.
pub proof fn lemma_task_lookup_remove(tasks: Seq<TaskView>, i: int)
    requires
        task_ids_unique(tasks),
        0 <= i < tasks.len(),
    ensures
        task_ids_unique(tasks.remove(i)),
        !has_task(tasks.remove(i), tasks[i].id),
        forall|x: TaskId| x != tasks[i].id ==> (#[trigger] has_task(tasks.remove(i), x)
            <==> has_task(tasks, x)),
        forall|x: TaskId| #[trigger]
            has_task(tasks.remove(i), x) ==> task_at(tasks.remove(i), x) == task_at(tasks, x),
{
    let tasks2 = tasks.remove(i);
    assert(task_ids_unique(tasks2)) by {
        assert forall|i2: int, j2: int| 0 <= i2 < j2 < tasks2.len() implies tasks2[i2].id
            != tasks2[j2].id by {
            let oi = if i2 < i { i2 } else { i2 + 1 };
            let oj = if j2 < i { j2 } else { j2 + 1 };
            assert(tasks2[i2] == tasks[oi]);
            assert(tasks2[j2] == tasks[oj]);
        }
    }
    assert(!has_task(tasks2, tasks[i].id)) by {
        if has_task(tasks2, tasks[i].id) {
            let k = choose|k: int| 0 <= k < tasks2.len() && tasks2[k].id == tasks[i].id;
            let ok = if k < i { k } else { k + 1 };
            assert(tasks[ok].id == tasks[i].id);
            assert(ok != i);
            assert(false);
        }
    }
    assert forall|x: TaskId| x != tasks[i].id && #[trigger] has_task(tasks2, x) implies has_task(
        tasks,
        x,
    ) by {
        let k = choose|k: int| 0 <= k < tasks2.len() && tasks2[k].id == x;
        let ok = if k < i { k } else { k + 1 };
        assert(tasks[ok].id == x);
    }
    assert forall|x: TaskId| x != tasks[i].id && has_task(tasks, x) implies #[trigger] has_task(
        tasks2,
        x,
    ) by {
        let k = choose|k: int| 0 <= k < tasks.len() && tasks[k].id == x;
        assert(k != i);
        if k < i {
            assert(tasks2[k].id == x);
        } else {
            assert(tasks2[k - 1].id == x);
        }
    }
    assert forall|x: TaskId| #[trigger] has_task(tasks2, x) implies task_at(tasks2, x) == task_at(
        tasks,
        x,
    ) by {
        lemma_task_index_valid(tasks2, x);
        let k2 = task_index(tasks2, x);
        let ok = if k2 < i { k2 } else { k2 + 1 };
        assert(tasks2[k2] == tasks[ok]);
        lemma_task_index_unique(tasks, x, ok);
    }
}

// ---------------------------------------------------------------------
// create preserves the invariants
// ---------------------------------------------------------------------

pub proof fn lemma_create_preserves_wf(s: StateView, c: CreateInput)
    requires
        wf(s),
        create_ok(s, c),
        create_bounded(c),
    ensures
        wf(create_post(s, c)),
{
    let t = created_record(c);
    let id = t.id;
    let s2 = create_post(s, c);

    lemma_task_lookup_push(s.tasks, t);

    assert(counter_wf(s2));
    assert(task_ids_unique(s2.tasks));

    assert(tasks_each_wf(s2.tasks)) by {
        assert forall|i: int| 0 <= i < s2.tasks.len() implies (#[trigger] s2.tasks[i]).bounded()
            && s2.tasks[i].owner_coupled() by {
            if i < s.tasks.len() {
                assert(s2.tasks[i] == s.tasks[i]);
            } else {
                assert(s2.tasks[i] == t);
            }
        }
    }

    // the fresh identifier stands in no list yet
    assert(!owned_of(s, c.caller).contains(id)) by {
        if owned_of(s, c.caller).contains(id) {
            let j = choose|j: int| 0 <= j < owned_of(s, c.caller).len() && owned_of(
                s,
                c.caller,
            )[j] == id;
            assert(s.owned.contains_key(c.caller));
            assert(has_task(s.tasks, s.owned[c.caller][j]));
            assert(false);
        }
    }

    assert(tasks_indexed(s2)) by {
        assert forall|i: int| 0 <= i < s2.tasks.len() implies owned_of(
            s2,
            (#[trigger] s2.tasks[i]).current_owner,
        ).contains(s2.tasks[i].id) by {
            if i < s.tasks.len() {
                assert(s2.tasks[i] == s.tasks[i]);
                let o = s.tasks[i].current_owner;
                let x = s.tasks[i].id;
                assert(owned_of(s, o).contains(x));
                let k = choose|k: int| 0 <= k < owned_of(s, o).len() && owned_of(s, o)[k] == x;
                if o == c.caller {
                    assert(owned_of(s2, o) == owned_of(s, o).push(id));
                    assert(owned_of(s2, o)[k] == x);
                } else {
                    assert(owned_of(s2, o) == owned_of(s, o));
                }
            } else {
                assert(s2.tasks[i] == t);
                let l2 = owned_of(s2, c.caller);
                assert(l2 == owned_of(s, c.caller).push(id));
                assert(l2[l2.len() - 1] == id);
            }
        }
    }

    assert(owned_sound(s2)) by {
        assert forall|a: AccountId, j: int| s2.owned.contains_key(a) && 0 <= j
            < s2.owned[a].len() implies has_task(s2.tasks, #[trigger] s2.owned[a][j]) && task_at(
            s2.tasks,
            s2.owned[a][j],
        ).current_owner == a by {
            if a == c.caller {
                let l = owned_of(s, a);
                assert(s2.owned[a] == l.push(id));
                if j < l.len() {
                    assert(s2.owned[a][j] == l[j]);
                    assert(s.owned.contains_key(a));
                    assert(has_task(s.tasks, s.owned[a][j]) && task_at(
                        s.tasks,
                        s.owned[a][j],
                    ).current_owner == a);
                    lemma_task_index_valid(s.tasks, l[j]);
                    assert(task_at(s2.tasks, l[j]) == task_at(s.tasks, l[j])) by {
                        let k = task_index(s.tasks, l[j]);
                        assert(s2.tasks[k] == s.tasks[k]);
                    }
                } else {
                    assert(s2.owned[a][j] == id);
                    assert(task_index(s2.tasks, id) == s.tasks.len());
                    assert(task_at(s2.tasks, id) == t);
                }
            } else {
                assert(s2.owned[a] == s.owned[a]);
                assert(s.owned.contains_key(a));
                assert(has_task(s.tasks, s.owned[a][j]) && task_at(
                    s.tasks,
                    s.owned[a][j],
                ).current_owner == a);
                lemma_task_index_valid(s.tasks, s.owned[a][j]);
                let k = task_index(s.tasks, s.owned[a][j]);
                assert(s2.tasks[k] == s.tasks[k]);
            }
        }
    }

    assert(owned_lists_wf(s2)) by {
        assert forall|a: AccountId| #[trigger] s2.owned.contains_key(a) implies no_dup(s2.owned[a])
            && s2.owned[a].len() <= MAX_TASKS_OWNED by {
            if a == c.caller {
                let l = owned_of(s, a);
                assert(s2.owned[a] == l.push(id));
                assert(no_dup(l));
                assert forall|i2: int, j2: int| 0 <= i2 < j2 < l.push(id).len() implies l.push(
                    id,
                )[i2] != l.push(id)[j2] by {
                    assert(l.push(id)[i2] == l[i2]);
                    if j2 < l.len() {
                        assert(l.push(id)[j2] == l[j2]);
                    } else {
                        assert(l.push(id)[j2] == id);
                        assert(!l.contains(id));
                        if l[i2] == id {
                            assert(l.contains(id));
                        }
                    }
                }
            } else {
                assert(s2.owned[a] == s.owned[a]);
                assert(s.owned.contains_key(a));
            }
        }
    }

    assert(ledger_ok(s2.balances)) by {
        assert(entry_ok(bal_in(s.balances, c.caller)));
        assert forall|a: AccountId| #[trigger] s2.balances.contains_key(a) implies entry_ok(
            s2.balances[a],
        ) by {
            if a != c.caller {
                assert(s2.balances[a] == s.balances[a]);
            }
        }
    }

    assert(escrow_wf(s2)) by {
        assert forall|a: AccountId| #[trigger] reserved_of(s2, a) == budget_sum(s2.tasks, a) by {
            lemma_budget_sum_push(s.tasks, t, a);
            assert(reserved_of(s, a) == budget_sum(s.tasks, a));
            assert(entry_ok(bal_in(s.balances, c.caller)));
            if a == c.caller {
                assert(bal_in(s2.balances, a) == s2.balances[a]);
            } else {
                assert(bal_in(s2.balances, a) == bal_in(s.balances, a));
            }
        }
    }

    assert(profiles_wf(s2));
}

// ---------------------------------------------------------------------
// retiring a record preserves the invariants
// ---------------------------------------------------------------------

/// Retiring any record whose current owner is its initiator (true of
/// `Created` and `Completed` records) preserves the invariants. This
/// covers remove, the deadline sweep, and the record-dropping half of
/// accept.
pub proof fn lemma_retire_preserves_wf(s: StateView, id: TaskId)
    requires
        wf(s),
        has_task(s.tasks, id),
        task_at(s.tasks, id).current_owner == task_at(s.tasks, id).initiator,
    ensures
        wf(retire_post(s, id)),
{
    let i = task_index(s.tasks, id);
    let t = s.tasks[i];
    let ini = t.initiator;
    let s2 = retire_post(s, id);
    lemma_task_index_valid(s.tasks, id);
    lemma_task_lookup_remove(s.tasks, i);
    lemma_budget_contrib_le_sum(s.tasks, i, ini);
    assert(reserved_of(s, ini) == budget_sum(s.tasks, ini));
    assert(entry_ok(bal_in(s.balances, ini)));
    assert(t.budget <= reserved_of(s, ini));

    let l = owned_of(s, ini);
    assert(l.contains(id));
    assert(no_dup(l)) by {
        assert(s.owned.contains_key(ini)) by {
            if !s.owned.contains_key(ini) {
                assert(l == Seq::<TaskId>::empty());
            }
        }
    }
    lemma_swap_remove_id_props(l, id);
    let l2 = swap_remove_id(l, id);

    assert(counter_wf(s2));
    assert(task_ids_unique(s2.tasks));
    assert(tasks_each_wf(s2.tasks)) by {
        assert forall|k: int| 0 <= k < s2.tasks.len() implies (#[trigger] s2.tasks[k]).bounded()
            && s2.tasks[k].owner_coupled() by {
            let ok = if k < i { k } else { k + 1 };
            assert(s2.tasks[k] == s.tasks[ok]);
        }
    }

    assert(tasks_indexed(s2)) by {
        assert forall|k: int| 0 <= k < s2.tasks.len() implies owned_of(
            s2,
            (#[trigger] s2.tasks[k]).current_owner,
        ).contains(s2.tasks[k].id) by {
            let ok = if k < i { k } else { k + 1 };
            assert(s2.tasks[k] == s.tasks[ok]);
            let o = s.tasks[ok].current_owner;
            let x = s.tasks[ok].id;
            assert(x != id);
            assert(owned_of(s, o).contains(x));
            if o == ini {
                assert(owned_of(s2, o) == l2);
                assert(l2.contains(x));
            } else {
                assert(owned_of(s2, o) == owned_of(s, o));
            }
        }
    }

    assert(owned_sound(s2)) by {
        assert forall|a: AccountId, j: int| s2.owned.contains_key(a) && 0 <= j
            < s2.owned[a].len() implies has_task(s2.tasks, #[trigger] s2.owned[a][j]) && task_at(
            s2.tasks,
            s2.owned[a][j],
        ).current_owner == a by {
            let x = s2.owned[a][j];
            if a == ini {
                assert(s2.owned[a] == l2);
                assert(l2.contains(x));
                assert(l.contains(x) && x != id);
                let k = choose|k: int| 0 <= k < l.len() && l[k] == x;
                assert(s.owned.contains_key(ini));
                assert(s.owned[ini][k] == x);
                assert(has_task(s.tasks, x) && task_at(s.tasks, x).current_owner == a);
                assert(has_task(s2.tasks, x));
            } else {
                assert(s2.owned[a] == s.owned[a]);
                assert(s.owned.contains_key(a));
                assert(has_task(s.tasks, x) && task_at(s.tasks, x).current_owner == a);
                assert(x != id) by {
                    if x == id {
                        assert(task_at(s.tasks, id).current_owner == ini);
                    }
                }
                assert(has_task(s2.tasks, x));
            }
        }
    }

    assert(owned_lists_wf(s2)) by {
        assert forall|a: AccountId| #[trigger] s2.owned.contains_key(a) implies no_dup(s2.owned[a])
            && s2.owned[a].len() <= MAX_TASKS_OWNED by {
            if a == ini {
                assert(s2.owned[a] == l2);
                assert(s.owned.contains_key(ini));
                assert(l.len() <= MAX_TASKS_OWNED);
            } else {
                assert(s2.owned[a] == s.owned[a]);
                assert(s.owned.contains_key(a));
            }
        }
    }

    assert(ledger_ok(s2.balances)) by {
        assert forall|a: AccountId| #[trigger] s2.balances.contains_key(a) implies entry_ok(
            s2.balances[a],
        ) by {
            if a != ini {
                assert(s2.balances[a] == s.balances[a]);
            }
        }
    }

    assert(escrow_wf(s2)) by {
        assert forall|a: AccountId| #[trigger] reserved_of(s2, a) == budget_sum(s2.tasks, a) by {
            lemma_budget_sum_remove(s.tasks, i, a);
            assert(reserved_of(s, a) == budget_sum(s.tasks, a));
            if a == ini {
                assert(bal_in(s2.balances, a) == s2.balances[a]);
            } else {
                assert(bal_in(s2.balances, a) == bal_in(s.balances, a));
            }
        }
    }

    assert(profiles_wf(s2));
}

// ---------------------------------------------------------------------
// a frame rule: changes that keep the record store, counter and index,
// keep every reservation, and stay sound on the ledger and profiles,
// preserve the invariants
// ---------------------------------------------------------------------

pub proof fn lemma_wf_frame(s: StateView, s2: StateView)
    requires
        wf(s),
        s2.tasks == s.tasks,
        s2.task_count == s.task_count,
        s2.owned == s.owned,
        ledger_ok(s2.balances),
        forall|a: AccountId| #[trigger] reserved_of(s2, a) == reserved_of(s, a),
        profiles_wf(s2),
    ensures
        wf(s2),
{
    assert(tasks_indexed(s2)) by {
        assert forall|i: int| 0 <= i < s2.tasks.len() implies owned_of(
            s2,
            (#[trigger] s2.tasks[i]).current_owner,
        ).contains(s2.tasks[i].id) by {
            assert(s2.tasks[i] == s.tasks[i]);
            assert(owned_of(s2, s.tasks[i].current_owner) == owned_of(
                s,
                s.tasks[i].current_owner,
            ));
        }
    }
    assert(owned_sound(s2)) by {
        assert forall|a: AccountId, j: int| s2.owned.contains_key(a) && 0 <= j
            < s2.owned[a].len() implies has_task(s2.tasks, #[trigger] s2.owned[a][j]) && task_at(
            s2.tasks,
            s2.owned[a][j],
        ).current_owner == a by {
            assert(s.owned.contains_key(a) && s.owned[a] == s2.owned[a]);
            assert(has_task(s.tasks, s.owned[a][j]) && task_at(
                s.tasks,
                s.owned[a][j],
            ).current_owner == a);
        }
    }
    assert(escrow_wf(s2)) by {
        assert forall|a: AccountId| #[trigger] reserved_of(s2, a) == budget_sum(s2.tasks, a) by {
            assert(reserved_of(s, a) == budget_sum(s.tasks, a));
        }
    }
}

// ---------------------------------------------------------------------
// update preserves the invariants
// ---------------------------------------------------------------------

pub proof fn lemma_update_preserves_wf(s: StateView, u: UpdateInput)
    requires
        wf(s),
        update_ok(s, u),
        update_bounded(u),
    ensures
        wf(update_post(s, u)),
{
    lemma_task_index_valid(s.tasks, u.id);
    let i = task_index(s.tasks, u.id);
    let t = s.tasks[i];
    let t2 = updated_record(t, u);
    let s2 = update_post(s, u);
    lemma_task_lookup_update(s.tasks, i, t2);
    lemma_budget_contrib_le_sum(s.tasks, i, u.caller);
    assert(reserved_of(s, u.caller) == budget_sum(s.tasks, u.caller));
    assert(entry_ok(bal_in(s.balances, u.caller)));
    assert(t.budget <= reserved_of(s, u.caller));

    assert(counter_wf(s2));
    assert(tasks_each_wf(s2.tasks)) by {
        assert forall|k: int| 0 <= k < s2.tasks.len() implies (#[trigger] s2.tasks[k]).bounded()
            && s2.tasks[k].owner_coupled() by {
            if k != i {
                assert(s2.tasks[k] == s.tasks[k]);
            } else {
                assert(s2.tasks[k] == t2);
            }
        }
    }
    assert(tasks_indexed(s2)) by {
        assert forall|k: int| 0 <= k < s2.tasks.len() implies owned_of(
            s2,
            (#[trigger] s2.tasks[k]).current_owner,
        ).contains(s2.tasks[k].id) by {
            let o = s2.tasks[k].current_owner;
            assert(owned_of(s2, o) == owned_of(s, o));
            if k != i {
                assert(s2.tasks[k] == s.tasks[k]);
            } else {
                assert(s2.tasks[k] == t2);
                assert(t2.current_owner == t.current_owner && t2.id == t.id);
            }
        }
    }
    assert(owned_sound(s2)) by {
        assert forall|a: AccountId, j: int| s2.owned.contains_key(a) && 0 <= j
            < s2.owned[a].len() implies has_task(s2.tasks, #[trigger] s2.owned[a][j]) && task_at(
            s2.tasks,
            s2.owned[a][j],
        ).current_owner == a by {
            let x = s2.owned[a][j];
            assert(s.owned.contains_key(a) && s.owned[a] == s2.owned[a]);
            assert(has_task(s.tasks, x) && task_at(s.tasks, x).current_owner == a);
            assert(task_index(s2.tasks, x) == task_index(s.tasks, x));
            if task_index(s.tasks, x) == i {
                assert(task_at(s2.tasks, x) == t2);
            } else {
                assert(task_at(s2.tasks, x) == task_at(s.tasks, x));
            }
        }
    }
    assert(owned_lists_wf(s2)) by {
        assert forall|a: AccountId| #[trigger] s2.owned.contains_key(a) implies no_dup(s2.owned[a])
            && s2.owned[a].len() <= MAX_TASKS_OWNED by {
            assert(s.owned.contains_key(a) && s.owned[a] == s2.owned[a]);
        }
    }
    assert(ledger_ok(s2.balances)) by {
        assert forall|a: AccountId| #[trigger] s2.balances.contains_key(a) implies entry_ok(
            s2.balances[a],
        ) by {
            if a != u.caller {
                assert(s2.balances[a] == s.balances[a]);
            }
        }
    }
    assert(escrow_wf(s2)) by {
        assert forall|a: AccountId| #[trigger] reserved_of(s2, a) == budget_sum(s2.tasks, a) by {
            lemma_budget_sum_update(s.tasks, i, t2, a);
            assert(reserved_of(s, a) == budget_sum(s.tasks, a));
            if a == u.caller {
                assert(bal_in(s2.balances, a) == s2.balances[a]);
            } else {
                assert(bal_in(s2.balances, a) == bal_in(s.balances, a));
            }
        }
    }
    assert(profiles_wf(s2));
}

// ---------------------------------------------------------------------
// the ownership handovers: start, complete, reject
// ---------------------------------------------------------------------

/// The shared shape of start, complete and reject: one record changes
/// hands from its current owner `from` to `to`, taking on new fields `t2`
/// with the same identifier, initiator, volunteer-per-coupling, budget and
/// blobs.
proof fn lemma_handover_preserves_wf(s: StateView, id: TaskId, t2: TaskView, to: AccountId)
    requires
        wf(s),
        has_task(s.tasks, id),
        t2.id == id,
        t2.initiator == task_at(s.tasks, id).initiator,
        t2.budget == task_at(s.tasks, id).budget,
        t2.current_owner == to,
        to != task_at(s.tasks, id).current_owner,
        t2.bounded(),
        t2.owner_coupled(),
        owned_of(s, to).len() < MAX_TASKS_OWNED,
    ensures
        wf(
            StateView {
                tasks: s.tasks.update(task_index(s.tasks, id), t2),
                owned: s.owned.insert(
                    task_at(s.tasks, id).current_owner,
                    swap_remove_id(owned_of(s, task_at(s.tasks, id).current_owner), id),
                ).insert(to, owned_of(s, to).push(id)),
                ..s
            },
        ),
{
    lemma_task_index_valid(s.tasks, id);
    let i = task_index(s.tasks, id);
    let t = s.tasks[i];
    let from = t.current_owner;
    let s2 = StateView {
        tasks: s.tasks.update(i, t2),
        owned: s.owned.insert(from, swap_remove_id(owned_of(s, from), id)).insert(
            to,
            owned_of(s, to).push(id),
        ),
        ..s
    };
    lemma_task_lookup_update(s.tasks, i, t2);

    let lf = owned_of(s, from);
    let lt = owned_of(s, to);
    assert(lf.contains(id));
    assert(s.owned.contains_key(from)) by {
        if !s.owned.contains_key(from) {
            assert(lf == Seq::<TaskId>::empty());
        }
    }
    assert(no_dup(lf));
    lemma_swap_remove_id_props(lf, id);
    let lf2 = swap_remove_id(lf, id);
    assert(!lt.contains(id)) by {
        if lt.contains(id) {
            let j = choose|j: int| 0 <= j < lt.len() && lt[j] == id;
            assert(s.owned.contains_key(to));
            assert(s.owned[to][j] == id);
            assert(task_at(s.tasks, id).current_owner == to);
        }
    }
    assert(no_dup(lt)) by {
        if s.owned.contains_key(to) {
        } else {
            assert(lt == Seq::<TaskId>::empty());
        }
    }

    assert(counter_wf(s2));
    assert(tasks_each_wf(s2.tasks)) by {
        assert forall|k: int| 0 <= k < s2.tasks.len() implies (#[trigger] s2.tasks[k]).bounded()
            && s2.tasks[k].owner_coupled() by {
            if k != i {
                assert(s2.tasks[k] == s.tasks[k]);
            } else {
                assert(s2.tasks[k] == t2);
            }
        }
    }
    assert(tasks_indexed(s2)) by {
        assert forall|k: int| 0 <= k < s2.tasks.len() implies owned_of(
            s2,
            (#[trigger] s2.tasks[k]).current_owner,
        ).contains(s2.tasks[k].id) by {
            if k == i {
                assert(s2.tasks[k] == t2);
                assert(owned_of(s2, to) == lt.push(id));
                assert(lt.push(id)[lt.len() as int] == id);
            } else {
                assert(s2.tasks[k] == s.tasks[k]);
                let o = s.tasks[k].current_owner;
                let x = s.tasks[k].id;
                assert(x != id);
                assert(owned_of(s, o).contains(x));
                let w = choose|w: int| 0 <= w < owned_of(s, o).len() && owned_of(s, o)[w] == x;
                if o == to {
                    assert(owned_of(s2, o) == lt.push(id));
                    assert(lt.push(id)[w] == x);
                } else if o == from {
                    assert(owned_of(s2, o) == lf2);
                    assert(lf2.contains(x));
                } else {
                    assert(owned_of(s2, o) == owned_of(s, o));
                }
            }
        }
    }
    assert(owned_sound(s2)) by {
        assert forall|a: AccountId, j: int| s2.owned.contains_key(a) && 0 <= j
            < s2.owned[a].len() implies has_task(s2.tasks, #[trigger] s2.owned[a][j]) && task_at(
            s2.tasks,
            s2.owned[a][j],
        ).current_owner == a by {
            let x = s2.owned[a][j];
            if a == to {
                assert(s2.owned[a] == lt.push(id));
                if j < lt.len() {
                    assert(x == lt[j]);
                    assert(s.owned.contains_key(to));
                    assert(has_task(s.tasks, x) && task_at(s.tasks, x).current_owner == a);
                    assert(x != id);
                    assert(task_index(s2.tasks, x) == task_index(s.tasks, x));
                    assert(task_index(s.tasks, x) != i) by {
                        if task_index(s.tasks, x) == i {
                            lemma_task_index_valid(s.tasks, x);
                        }
                    }
                    assert(task_at(s2.tasks, x) == task_at(s.tasks, x));
                } else {
                    assert(x == id);
                    assert(task_index(s2.tasks, id) == i);
                    assert(task_at(s2.tasks, id) == t2);
                }
            } else if a == from {
                assert(s2.owned[a] == lf2);
                assert(lf2.contains(x));
                assert(lf.contains(x) && x != id);
                let w = choose|w: int| 0 <= w < lf.len() && lf[w] == x;
                assert(s.owned[from][w] == x);
                assert(has_task(s.tasks, x) && task_at(s.tasks, x).current_owner == a);
                assert(task_index(s2.tasks, x) == task_index(s.tasks, x));
                assert(task_index(s.tasks, x) != i) by {
                    if task_index(s.tasks, x) == i {
                        lemma_task_index_valid(s.tasks, x);
                    }
                }
                assert(task_at(s2.tasks, x) == task_at(s.tasks, x));
            } else {
                assert(s2.owned[a] == s.owned[a]);
                assert(s.owned.contains_key(a));
                assert(has_task(s.tasks, x) && task_at(s.tasks, x).current_owner == a);
                assert(x != id) by {
                    if x == id {
                        assert(task_at(s.tasks, id).current_owner == from);
                    }
                }
                assert(task_index(s2.tasks, x) == task_index(s.tasks, x));
                assert(task_index(s.tasks, x) != i) by {
                    if task_index(s.tasks, x) == i {
                        lemma_task_index_valid(s.tasks, x);
                    }
                }
                assert(task_at(s2.tasks, x) == task_at(s.tasks, x));
            }
        }
    }
    assert(owned_lists_wf(s2)) by {
        assert forall|a: AccountId| #[trigger] s2.owned.contains_key(a) implies no_dup(s2.owned[a])
            && s2.owned[a].len() <= MAX_TASKS_OWNED by {
            if a == to {
                assert(s2.owned[a] == lt.push(id));
                assert forall|i2: int, j2: int| 0 <= i2 < j2 < lt.push(id).len() implies lt.push(
                    id,
                )[i2] != lt.push(id)[j2] by {
                    assert(lt.push(id)[i2] == lt[i2]);
                    if j2 < lt.len() {
                        assert(lt.push(id)[j2] == lt[j2]);
                    } else {
                        assert(lt.push(id)[j2] == id);
                        if lt[i2] == id {
                            assert(lt.contains(id));
                        }
                    }
                }
            } else if a == from {
                assert(s2.owned[a] == lf2);
                assert(lf.len() <= MAX_TASKS_OWNED);
            } else {
                assert(s2.owned[a] == s.owned[a]);
                assert(s.owned.contains_key(a));
            }
        }
    }
    assert(ledger_ok(s2.balances));
    assert(escrow_wf(s2)) by {
        assert forall|a: AccountId| #[trigger] reserved_of(s2, a) == budget_sum(s2.tasks, a) by {
            lemma_budget_sum_update(s.tasks, i, t2, a);
            assert(reserved_of(s, a) == budget_sum(s.tasks, a));
            assert(reserved_of(s2, a) == reserved_of(s, a));
        }
    }
    assert(profiles_wf(s2));
}

pub proof fn lemma_start_preserves_wf(s: StateView, caller: AccountId, id: TaskId)
    requires
        wf(s),
        start_ok(s, caller, id),
    ensures
        wf(start_post(s, caller, id)),
{
    lemma_task_index_valid(s.tasks, id);
    let i = task_index(s.tasks, id);
    let t = s.tasks[i];
    assert(t == task_at(s.tasks, id));
    assert(t.bounded() && t.owner_coupled());
    let t2 = TaskView {
        volunteer: caller,
        current_owner: caller,
        status: TaskStatus::InProgress,
        ..t
    };
    lemma_handover_preserves_wf(s, id, t2, caller);
    lemma_wf_frame(
        StateView {
            tasks: s.tasks.update(i, t2),
            owned: s.owned.insert(
                t.current_owner,
                swap_remove_id(owned_of(s, t.current_owner), id),
            ).insert(caller, owned_of(s, caller).push(id)),
            ..s
        },
        start_post(s, caller, id),
    );
}

pub proof fn lemma_complete_preserves_wf(s: StateView, caller: AccountId, id: TaskId, block: u64)
    requires
        wf(s),
        complete_ok(s, caller, id),
    ensures
        wf(complete_post(s, caller, id, block)),
{
    lemma_task_index_valid(s.tasks, id);
    let i = task_index(s.tasks, id);
    let t = s.tasks[i];
    assert(t == task_at(s.tasks, id));
    assert(t.bounded() && t.owner_coupled());
    assert(t.current_owner == caller);
    let t2 = TaskView {
        current_owner: t.initiator,
        status: TaskStatus::Completed,
        completed_at: block,
        ..t
    };
    lemma_handover_preserves_wf(s, id, t2, t.initiator);
    lemma_wf_frame(
        StateView {
            tasks: s.tasks.update(i, t2),
            owned: s.owned.insert(caller, swap_remove_id(owned_of(s, caller), id)).insert(
                t.initiator,
                owned_of(s, t.initiator).push(id),
            ),
            ..s
        },
        complete_post(s, caller, id, block),
    );
}

pub proof fn lemma_reject_preserves_wf(s: StateView, caller: AccountId, id: TaskId, feedback: Seq<u8>)
    requires
        wf(s),
        reject_ok(s, caller, id),
        feedback.len() <= crate::types::MAX_FEEDBACK_LEN,
    ensures
        wf(reject_post(s, caller, id, feedback)),
{
    lemma_task_index_valid(s.tasks, id);
    let i = task_index(s.tasks, id);
    let t = s.tasks[i];
    assert(t == task_at(s.tasks, id));
    assert(t.bounded() && t.owner_coupled());
    assert(t.current_owner == caller && t.volunteer != caller);
    let t2 = TaskView {
        current_owner: t.volunteer,
        status: TaskStatus::InProgress,
        feedback: Some(feedback),
        ..t
    };
    lemma_handover_preserves_wf(s, id, t2, t.volunteer);
    lemma_wf_frame(
        StateView {
            tasks: s.tasks.update(i, t2),
            owned: s.owned.insert(caller, swap_remove_id(owned_of(s, caller), id)).insert(
                t.volunteer,
                owned_of(s, t.volunteer).push(id),
            ),
            ..s
        },
        reject_post(s, caller, id, feedback),
    );
}

// ---------------------------------------------------------------------
// accept preserves the invariants
// ---------------------------------------------------------------------

pub proof fn lemma_accept_preserves_wf(s: StateView, caller: AccountId, id: TaskId)
    requires
        wf(s),
        accept_ok(s, caller, id),
    ensures
        wf(accept_post(s, caller, id)),
{
    lemma_task_index_valid(s.tasks, id);
    let i = task_index(s.tasks, id);
    let t = s.tasks[i];
    let ini = t.initiator;
    let vol = t.volunteer;
    let b = t.budget;
    lemma_retire_preserves_wf(s, id);
    let r = retire_post(s, id);
    let s2 = accept_post(s, caller, id);
    assert(s2.tasks == r.tasks && s2.task_count == r.task_count && s2.owned == r.owned);
    assert(entry_ok(bal_in(s.balances, ini)));
    lemma_budget_contrib_le_sum(s.tasks, i, ini);
    assert(reserved_of(s, ini) == budget_sum(s.tasks, ini));
    assert(b <= reserved_of(s, ini));

    assert(ledger_ok(s2.balances)) by {
        assert forall|a: AccountId| #[trigger] s2.balances.contains_key(a) implies entry_ok(
            s2.balances[a],
        ) by {
            if ini == vol {
                if a != ini {
                    assert(s2.balances[a] == s.balances[a]);
                }
            } else {
                assert(entry_ok(bal_in(s.balances, vol)));
                if a != ini && a != vol {
                    assert(s2.balances[a] == s.balances[a]);
                }
            }
        }
    }
    assert(forall|a: AccountId| #[trigger] reserved_of(s2, a) == reserved_of(r, a)) by {
        assert forall|a: AccountId| #[trigger] reserved_of(s2, a) == reserved_of(r, a) by {
            if ini == vol {
                if a != ini {
                    assert(bal_in(s2.balances, a) == bal_in(s.balances, a));
                    assert(bal_in(r.balances, a) == bal_in(s.balances, a));
                }
            } else {
                if a != ini && a != vol {
                    assert(bal_in(s2.balances, a) == bal_in(s.balances, a));
                    assert(bal_in(r.balances, a) == bal_in(s.balances, a));
                }
            }
        }
    }
    assert(profiles_wf(s2)) by {
        assert(has_profile(s, ini) && has_profile(s, vol));
        assert forall|a: AccountId| #[trigger] s2.profiles.contains_key(a) implies s2.profiles[a].account
            == a by {
            if a != ini && a != vol {
                assert(s2.profiles[a] == s.profiles[a]);
                assert(s.profiles.contains_key(a));
            } else {
                assert(s.profiles[a].account == a);
            }
        }
    }
    lemma_wf_frame(r, s2);
}

} // verus!
