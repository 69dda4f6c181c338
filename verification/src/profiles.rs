//! The profile registry: the collaborator that gates record creation and
//! receives reputation credits and completed-work history.

use vstd::prelude::*;
use std::collections::HashMap;
use crate::types::{AccountId, TaskId};

verus! {

broadcast use vstd::std_specs::hash::group_hash_axioms;

/// A reputation score.
pub type ReputationUnit = u32;

/// A credibility rating, between 0 and 1000.
pub type CredibilityUnit = u16;

/// One account's profile.
pub struct Profile {
    pub account: AccountId,
    pub reputation: ReputationUnit,
    pub credibility: CredibilityUnit,
    pub completed_tasks: Vec<TaskId>,
}

/// The mathematical image of a [`Profile`].
#[verifier::ext_equal]
pub ghost struct ProfileView {
    pub account: AccountId,
    pub reputation: ReputationUnit,
    pub credibility: CredibilityUnit,
    pub completed_tasks: Seq<TaskId>,
}

impl View for Profile {
    type V = ProfileView;

    open spec fn view(&self) -> ProfileView {
        ProfileView {
            account: self.account,
            reputation: self.reputation,
            credibility: self.credibility,
            completed_tasks: self.completed_tasks@,
        }
    }
}

/// A reputation credit: one more point, saturating at the top of the range.
pub open spec fn rep_bump(r: ReputationUnit) -> ReputationUnit {
    if r == u32::MAX {
        r
    } else {
        (r + 1) as u32
    }
}

/// The profile of `a` in `m`; meaningful only when `m` contains `a`.
pub open spec fn profile_in(m: Map<AccountId, ProfileView>, a: AccountId) -> ProfileView {
    m[a]
}

/// Keyed storage of profiles.
pub struct Profiles {
    map: HashMap<AccountId, Profile>,
}

impl View for Profiles {
    type V = Map<AccountId, ProfileView>;

    closed spec fn view(&self) -> Map<AccountId, ProfileView> {
        self.map@.map_values(|p: Profile| p@)
    }
}

impl Profiles {
    /// An empty registry.
    pub fn new() -> (r: Profiles)
        ensures
            r@ == Map::<AccountId, ProfileView>::empty(),
    {
        let r = Profiles { map: HashMap::new() };
        proof {
            assert(r@ =~~= Map::<AccountId, ProfileView>::empty());
        }
        r
    }

    /// Registers a fresh profile for `a`; a second registration changes
    /// nothing.
    pub fn create_profile(&mut self, a: AccountId)
        ensures
            old(self)@.contains_key(a) ==> final(self)@ == old(self)@,
            !old(self)@.contains_key(a) ==> final(self)@ == old(self)@.insert(
                a,
                ProfileView {
                    account: a,
                    reputation: 0,
                    credibility: 0,
                    completed_tasks: Seq::empty(),
                },
            ),
    {
        if !self.map.contains_key(&a) {
            self.map.insert(
                a,
                Profile { account: a, reputation: 0, credibility: 0, completed_tasks: Vec::new() },
            );
            proof {
                assert(self@ =~~= old(self)@.insert(
                    a,
                    ProfileView {
                        account: a,
                        reputation: 0,
                        credibility: 0,
                        completed_tasks: Seq::empty(),
                    },
                ));
            }
        } else {
            proof {
                assert(self@ =~~= old(self)@);
            }
        }
    }

    /// Whether `a` has a profile.
    pub fn has_profile(&self, a: AccountId) -> (r: bool)
        ensures
            r == self@.contains_key(a),
    {
        self.map.contains_key(&a)
    }

    /// The reputation of `a`, zero without a profile.
    pub fn reputation_of(&self, a: AccountId) -> (r: ReputationUnit)
        ensures
            r == if self@.contains_key(a) {
                profile_in(self@, a).reputation
            } else {
                0
            },
    {
        match self.map.get(&a) {
            Some(p) => p.reputation,
            None => 0,
        }
    }

    /// Grants `a` one reputation credit.
    pub fn add_reputation(&mut self, a: AccountId)
        requires
            old(self)@.contains_key(a),
        ensures
            final(self)@ == old(self)@.insert(
                a,
                ProfileView {
                    reputation: rep_bump(profile_in(old(self)@, a).reputation),
                    ..profile_in(old(self)@, a)
                },
            ),
    {
        let mut p = self.map.remove(&a).unwrap();
        if p.reputation < u32::MAX {
            p.reputation = p.reputation + 1;
        }
        self.map.insert(a, p);
        proof {
            assert(self@ =~~= old(self)@.insert(
                a,
                ProfileView {
                    reputation: rep_bump(profile_in(old(self)@, a).reputation),
                    ..profile_in(old(self)@, a)
                },
            ));
        }
    }

    /// Appends `id` to `a`'s completed-work history.
    pub fn add_completed(&mut self, a: AccountId, id: TaskId)
        requires
            old(self)@.contains_key(a),
        ensures
            final(self)@ == old(self)@.insert(
                a,
                ProfileView {
                    completed_tasks: profile_in(old(self)@, a).completed_tasks.push(id),
                    ..profile_in(old(self)@, a)
                },
            ),
    {
        let mut p = self.map.remove(&a).unwrap();
        p.completed_tasks.push(id);
        self.map.insert(a, p);
        proof {
            assert(self@ =~~= old(self)@.insert(
                a,
                ProfileView {
                    completed_tasks: profile_in(old(self)@, a).completed_tasks.push(id),
                    ..profile_in(old(self)@, a)
                },
            ));
        }
    }

    /// A copy of `a`'s completed-work history, empty without a profile.
    pub fn completed_of(&self, a: AccountId) -> (r: Vec<TaskId>)
        ensures
            r@ == if self@.contains_key(a) {
                profile_in(self@, a).completed_tasks
            } else {
                Seq::<TaskId>::empty()
            },
    {
        let mut r: Vec<TaskId> = Vec::new();
        match self.map.get(&a) {
            None => {}
            Some(p) => {
                let n = p.completed_tasks.len();
                let mut i: usize = 0;
                while i < n
                    invariant
                        n == p.completed_tasks@.len(),
                        i <= n,
                        r@ == p.completed_tasks@.subrange(0, i as int),
                    decreases n - i,
                {
                    r.push(p.completed_tasks[i]);
                    proof {
                        assert(r@ =~= p.completed_tasks@.subrange(0, i as int + 1));
                    }
                    i = i + 1;
                }
                proof {
                    assert(r@ =~= p.completed_tasks@);
                }
            }
        }
        r
    }
}

} // verus!
