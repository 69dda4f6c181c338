//! The model ledger: free and reserved balances per account.
//!
//! The engine is embedded in a deterministic ledger whose balance storage is
//! an external collaborator; this module is its in-engine model, with the
//! narrow interface the engine relies on: reserve, unreserve and transfer,
//! all exact. An account that the ledger has never seen holds zero.

use vstd::prelude::*;
use std::collections::HashMap;
use crate::types::{AccountId, Balance};

verus! {

broadcast use vstd::std_specs::hash::group_hash_axioms;

/// The two balances of one account. The engine keeps their sum within the
/// balance type, so moving funds between the two halves never overflows.
#[derive(Clone, Copy, PartialEq, Eq, Structural, Debug)]
pub struct AccountBalance {
    pub free: Balance,
    pub reserved: Balance,
}

/// The balance of `a` in `m`, zero for an account the ledger has not seen.
pub open spec fn bal_in(m: Map<AccountId, AccountBalance>, a: AccountId) -> AccountBalance {
    if m.contains_key(a) {
        m[a]
    } else {
        AccountBalance { free: 0, reserved: 0 }
    }
}

/// An account entry is sound when its two halves sum within the balance type.
pub open spec fn entry_ok(b: AccountBalance) -> bool {
    b.free + b.reserved <= u64::MAX
}

/// Every entry of the ledger is sound.
pub open spec fn ledger_ok(m: Map<AccountId, AccountBalance>) -> bool {
    forall|a: AccountId| #[trigger] m.contains_key(a) ==> entry_ok(m[a])
}

/// Keyed balance storage.
pub struct Ledger {
    map: HashMap<AccountId, AccountBalance>,
}

impl View for Ledger {
    type V = Map<AccountId, AccountBalance>;

    closed spec fn view(&self) -> Map<AccountId, AccountBalance> {
        self.map@
    }
}

impl Ledger {
    /// An empty ledger.
    pub fn new() -> (r: Ledger)
        ensures
            r@ == Map::<AccountId, AccountBalance>::empty(),
    {
        Ledger { map: HashMap::new() }
    }

    /// The free (spendable) balance of `a`.
    pub fn free_balance(&self, a: AccountId) -> (r: Balance)
        ensures
            r == bal_in(self@, a).free,
    {
        match self.map.get(&a) {
            Some(b) => b.free,
            None => 0,
        }
    }

    /// The reserved (escrowed) balance of `a`.
    pub fn reserved_balance(&self, a: AccountId) -> (r: Balance)
        ensures
            r == bal_in(self@, a).reserved,
    {
        match self.map.get(&a) {
            Some(b) => b.reserved,
            None => 0,
        }
    }

    /// Whether `a`'s free balance covers `amount`.
    pub fn can_reserve(&self, a: AccountId, amount: Balance) -> (r: bool)
        ensures
            r == (bal_in(self@, a).free >= amount),
    {
        self.free_balance(a) >= amount
    }

    /// Adds `amount` to `a`'s free balance; refuses an amount the account
    /// entry could not hold.
    pub fn deposit(&mut self, a: AccountId, amount: Balance) -> (r: bool)
        ensures
            r == (bal_in(old(self)@, a).free + bal_in(old(self)@, a).reserved + amount
                <= u64::MAX),
            r ==> final(self)@ == old(self)@.insert(
                a,
                AccountBalance {
                    free: (bal_in(old(self)@, a).free + amount) as u64,
                    reserved: bal_in(old(self)@, a).reserved,
                },
            ),
            !r ==> final(self)@ == old(self)@,
    {
        let b = match self.map.get(&a) {
            Some(b) => *b,
            None => AccountBalance { free: 0, reserved: 0 },
        };
        if amount <= u64::MAX - b.free && b.free + amount <= u64::MAX - b.reserved {
            self.map.insert(a, AccountBalance { free: b.free + amount, reserved: b.reserved });
            true
        } else {
            false
        }
    }

    /// Moves `amount` from `a`'s free balance into reservation.
    pub fn reserve(&mut self, a: AccountId, amount: Balance)
        requires
            bal_in(old(self)@, a).free >= amount,
            entry_ok(bal_in(old(self)@, a)),
        ensures
            final(self)@ == old(self)@.insert(
                a,
                AccountBalance {
                    free: (bal_in(old(self)@, a).free - amount) as u64,
                    reserved: (bal_in(old(self)@, a).reserved + amount) as u64,
                },
            ),
    {
        let b = match self.map.get(&a) {
            Some(b) => *b,
            None => AccountBalance { free: 0, reserved: 0 },
        };
        self.map.insert(a, AccountBalance { free: b.free - amount, reserved: b.reserved + amount });
    }

    /// Releases `amount` of `a`'s reservation back to its free balance.
    pub fn unreserve(&mut self, a: AccountId, amount: Balance)
        requires
            bal_in(old(self)@, a).reserved >= amount,
            entry_ok(bal_in(old(self)@, a)),
        ensures
            final(self)@ == old(self)@.insert(
                a,
                AccountBalance {
                    free: (bal_in(old(self)@, a).free + amount) as u64,
                    reserved: (bal_in(old(self)@, a).reserved - amount) as u64,
                },
            ),
    {
        let b = match self.map.get(&a) {
            Some(b) => *b,
            None => AccountBalance { free: 0, reserved: 0 },
        };
        self.map.insert(a, AccountBalance { free: b.free + amount, reserved: b.reserved - amount });
    }

    /// Moves `amount` of free balance from `from` to `to`. A transfer to
    /// oneself changes nothing.
    pub fn transfer(&mut self, from: AccountId, to: AccountId, amount: Balance)
        requires
            bal_in(old(self)@, from).free >= amount,
            from != to ==> bal_in(old(self)@, to).free + bal_in(old(self)@, to).reserved
                + amount <= u64::MAX,
        ensures
            from == to ==> final(self)@ == old(self)@,
            from != to ==> final(self)@ == old(self)@.insert(
                from,
                AccountBalance {
                    free: (bal_in(old(self)@, from).free - amount) as u64,
                    reserved: bal_in(old(self)@, from).reserved,
                },
            ).insert(
                to,
                AccountBalance {
                    free: (bal_in(old(self)@, to).free + amount) as u64,
                    reserved: bal_in(old(self)@, to).reserved,
                },
            ),
    {
        if from != to {
            let bf = match self.map.get(&from) {
                Some(b) => *b,
                None => AccountBalance { free: 0, reserved: 0 },
            };
            self.map.insert(
                from,
                AccountBalance { free: bf.free - amount, reserved: bf.reserved },
            );
            let bt = match self.map.get(&to) {
                Some(b) => *b,
                None => AccountBalance { free: 0, reserved: 0 },
            };
            self.map.insert(
                to,
                AccountBalance { free: bt.free + amount, reserved: bt.reserved },
            );
        }
    }
}

} // verus!
