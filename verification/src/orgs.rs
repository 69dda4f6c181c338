//! The organization registry: an existence check consulted when a record
//! names an owning group, and nothing more.

use vstd::prelude::*;
use std::collections::HashSet;
use crate::types::OrgId;

verus! {

broadcast use vstd::std_specs::hash::group_hash_axioms;

/// The set of registered organization identifiers.
pub struct Orgs {
    set: HashSet<OrgId>,
}

impl View for Orgs {
    type V = Set<OrgId>;

    closed spec fn view(&self) -> Set<OrgId> {
        self.set@
    }
}

impl Orgs {
    /// An empty registry.
    pub fn new() -> (r: Orgs)
        ensures
            r@ == Set::<OrgId>::empty(),
    {
        Orgs { set: HashSet::new() }
    }

    /// Registers `org`.
    pub fn add(&mut self, org: OrgId)
        ensures
            final(self)@ == old(self)@.insert(org),
    {
        self.set.insert(org);
    }

    /// Whether `org` is registered.
    pub fn is_registered(&self, org: OrgId) -> (r: bool)
        ensures
            r == self@.contains(org),
    {
        self.set.contains(&org)
    }
}

} // verus!
