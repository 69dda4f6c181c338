//! The ownership index: account to the ordered list of record identifiers
//! that account currently owns.
//!
//! Entries are touched only as a side effect of a record transition. Lists
//! are capacity-bounded by the engine (the bound itself is enforced by the
//! engine's operations, not by this structure). Removal swaps the last
//! identifier into the hole, as the record store's users expect.

use vstd::prelude::*;
use std::collections::HashMap;
use crate::types::{AccountId, TaskId};

verus! {

broadcast use vstd::std_specs::hash::group_hash_axioms;

/// The list of identifiers `a` owns in `m`, empty for an unknown account.
pub open spec fn ids_in(m: Map<AccountId, Seq<TaskId>>, a: AccountId) -> Seq<TaskId> {
    if m.contains_key(a) {
        m[a]
    } else {
        Seq::empty()
    }
}

/// The position of `id` in `ids` (unique when `ids` has no duplicates).
pub open spec fn pos_of(ids: Seq<TaskId>, id: TaskId) -> int {
    choose|i: int| 0 <= i < ids.len() && ids[i] == id
}

/// `ids` with `id` taken out: the last element moves into its place.
pub open spec fn swap_remove_id(ids: Seq<TaskId>, id: TaskId) -> Seq<TaskId> {
    ids.update(pos_of(ids, id), ids.last()).drop_last()
}

/// A list without duplicate identifiers.
pub open spec fn no_dup(ids: Seq<TaskId>) -> bool {
    forall|i: int, j: int| 0 <= i < j < ids.len() ==> ids[i] != ids[j]
}

/// What taking `id` out of a duplicate-free list leaves behind: every
/// other identifier, and nothing else.
pub proof fn lemma_swap_remove_id_props(ids: Seq<TaskId>, id: TaskId)
    requires
        no_dup(ids),
        ids.contains(id),
    ensures
        swap_remove_id(ids, id).len() == ids.len() - 1,
        forall|x: TaskId| #[trigger] swap_remove_id(ids, id).contains(x) <==> (ids.contains(x)
            && x != id),
        no_dup(swap_remove_id(ids, id)),
{
    let p = pos_of(ids, id);
    assert(0 <= p < ids.len() && ids[p] == id);
    let r = swap_remove_id(ids, id);
    assert forall|x: TaskId| #[trigger] r.contains(x) implies ids.contains(x) && x != id by {
        let j = choose|j: int| 0 <= j < r.len() && r[j] == x;
        if j == p {
            assert(ids[ids.len() - 1] == x);
        } else {
            assert(ids[j] == x);
        }
        if x == id {
            if j == p {
                assert(ids[ids.len() - 1] == id);
                assert(p < ids.len() - 1);
                assert(false);
            } else {
                assert(ids[j] == id && ids[p] == id && j != p);
                assert(false);
            }
        }
    }
    assert forall|x: TaskId| ids.contains(x) && x != id implies #[trigger] r.contains(x) by {
        let k = choose|k: int| 0 <= k < ids.len() && ids[k] == x;
        if k == ids.len() - 1 {
            if p < ids.len() - 1 {
                assert(r[p] == x);
            } else {
                assert(ids[p] == id && ids[k] == x && p == k);
                assert(false);
            }
        } else {
            assert(k != p);
            assert(r[k] == x);
        }
    }
    assert forall|i: int, j: int| 0 <= i < j < r.len() implies r[i] != r[j] by {
        let vi = if i == p { ids[ids.len() - 1] } else { ids[i] };
        let vj = if j == p { ids[ids.len() - 1] } else { ids[j] };
        assert(r[i] == vi && r[j] == vj);
    }
}

/// Keyed storage of the per-account identifier lists.
pub struct OwnedIndex {
    map: HashMap<AccountId, Vec<TaskId>>,
}

impl View for OwnedIndex {
    type V = Map<AccountId, Seq<TaskId>>;

    closed spec fn view(&self) -> Map<AccountId, Seq<TaskId>> {
        self.map@.map_values(|v: Vec<TaskId>| v@)
    }
}

impl OwnedIndex {
    /// An empty index.
    pub fn new() -> (r: OwnedIndex)
        ensures
            r@ == Map::<AccountId, Seq<TaskId>>::empty(),
    {
        let r = OwnedIndex { map: HashMap::new() };
        proof {
            assert(r@ =~= Map::<AccountId, Seq<TaskId>>::empty());
        }
        r
    }

    /// How many records `a` owns.
    pub fn count(&self, a: AccountId) -> (r: usize)
        ensures
            r == ids_in(self@, a).len(),
    {
        match self.map.get(&a) {
            Some(v) => v.len(),
            None => 0,
        }
    }

    /// A copy of the list of identifiers `a` owns, in order.
    pub fn ids_of(&self, a: AccountId) -> (r: Vec<TaskId>)
        ensures
            r@ == ids_in(self@, a),
    {
        let mut r: Vec<TaskId> = Vec::new();
        match self.map.get(&a) {
            None => {}
            Some(v) => {
                let n = v.len();
                let mut i: usize = 0;
                while i < n
                    invariant
                        n == v@.len(),
                        i <= n,
                        r@ == v@.subrange(0, i as int),
                    decreases n - i,
                {
                    r.push(v[i]);
                    proof {
                        assert(r@ =~= v@.subrange(0, i as int + 1));
                    }
                    i = i + 1;
                }
                proof {
                    assert(r@ =~= v@);
                }
            }
        }
        r
    }

    /// Appends `id` to `a`'s list.
    pub fn push_id(&mut self, a: AccountId, id: TaskId)
        ensures
            final(self)@ == old(self)@.insert(a, ids_in(old(self)@, a).push(id)),
    {
        let mut v = match self.map.remove(&a) {
            Some(v) => v,
            None => Vec::new(),
        };
        v.push(id);
        self.map.insert(a, v);
        proof {
            assert(self@ =~~= old(self)@.insert(a, ids_in(old(self)@, a).push(id)));
        }
    }

    /// Takes `id` out of `a`'s list, swapping the last identifier into its
    /// place.
    pub fn remove_id(&mut self, a: AccountId, id: TaskId)
        requires
            ids_in(old(self)@, a).contains(id),
            no_dup(ids_in(old(self)@, a)),
        ensures
            final(self)@ == old(self)@.insert(a, swap_remove_id(ids_in(old(self)@, a), id)),
    {
        let mut v = match self.map.remove(&a) {
            Some(v) => v,
            None => Vec::new(),
        };
        let ghost ids = ids_in(old(self)@, a);
        assert(v@ == ids);
        let n = v.len();
        let mut i: usize = 0;
        while i < n && v[i] != id
            invariant
                n == v@.len(),
                i <= n,
                v@ == ids,
                ids.contains(id),
                forall|j: int| 0 <= j < i ==> ids[j] != id,
            decreases n - i,
        {
            i = i + 1;
        }
        proof {
            let w = choose|k: int| 0 <= k < ids.len() && ids[k] == id;
            assert(ids[w] == id);
            assert(i < n);
            assert(ids[i as int] == id);
            assert(pos_of(ids, id) == i as int) by {
                let p = pos_of(ids, id);
                assert(0 <= p < ids.len() && ids[p] == id);
            }
        }
        v.swap_remove(i);
        self.map.insert(a, v);
        proof {
            assert(self@ =~~= old(self)@.insert(a, swap_remove_id(ids, id)));
        }
    }
}

} // verus!
