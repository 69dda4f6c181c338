//! A task marketplace engine for a deterministic, sequentially executed ledger.
//!
//! An initiator posts a task with a funded budget and a deadline; a volunteer
//! starts and completes it; the initiator accepts (funds move to the
//! volunteer) or rejects (the task returns to the volunteer for rework).
//! The engine keeps three pieces of state mutually consistent across every
//! transition: the record store, the reserved-balance accounting, and the
//! per-account ownership index.

pub mod types;
pub mod task;
pub mod codec;
pub mod ledger;
pub mod owned;
pub mod profiles;
pub mod orgs;
pub mod reputation;
pub mod state;
pub mod invariants;
pub mod pallet;
pub mod laws;
