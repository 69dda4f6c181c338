//! Plain value types shared by the whole engine: identifiers, status,
//! errors and events, and the engine's capacity constants.

use vstd::prelude::*;

verus! {

/// An account is a plain 64-bit identifier.
pub type AccountId = u64;

/// Balances are 64-bit unsigned amounts.
pub type Balance = u64;

/// An organization is referred to by a plain 64-bit identifier.
pub type OrgId = u64;

/// The maximum number of records a single account may own at once.
pub const MAX_TASKS_OWNED: usize = 16;

/// Maximum byte length of a record's title.
pub const MAX_TITLE_LEN: usize = 256;

/// Maximum byte length of a record's specification blob.
pub const MAX_SPECIFICATION_LEN: usize = 256;

/// Maximum byte length of a record's attachments blob.
pub const MAX_ATTACHMENTS_LEN: usize = 256;

/// Maximum byte length of a record's keywords blob.
pub const MAX_KEYWORDS_LEN: usize = 256;

/// Maximum byte length of the feedback stored when a record is rejected.
pub const MAX_FEEDBACK_LEN: usize = 256;

/// A record identifier: a 256-bit content digest, held as four 64-bit words.
#[derive(Clone, Copy, PartialEq, Eq, Structural, Hash, Debug)]
pub struct TaskId {
    pub w0: u64,
    pub w1: u64,
    pub w2: u64,
    pub w3: u64,
}

/// The lifecycle status of a record.
///
/// `Accepted` is terminal: an accepted record is deleted in the same
/// operation, so no stored record ever carries it.
#[derive(Clone, Copy, PartialEq, Eq, Structural, Debug)]
pub enum TaskStatus {
    Created,
    InProgress,
    Completed,
    Accepted,
}

/// One error per precondition failure of the caller-invoked operations.
#[derive(Clone, Copy, PartialEq, Eq, Structural, Debug)]
pub enum Error {
    /// The live-record counter would overflow.
    TaskCountOverflow,
    /// No record with the given identifier exists.
    TaskNotExist,
    /// Only the record's initiator may accept it.
    OnlyInitiatorAcceptsTask,
    /// The caller's free balance does not cover the requested reservation.
    NotEnoughBalance,
    /// The receiving account already owns the maximum number of records.
    ExceedMaxTasksOwned,
    /// Only the record's volunteer may complete it, and only while it is in progress.
    NoPermissionToComplete,
    /// Records can be updated only before work has started.
    NoPermissionToUpdate,
    /// An initiator may not start its own record.
    NoPermissionToStart,
    /// Only the record's initiator may remove it, and only before work has started.
    NoPermissionToRemove,
    /// Only completed records can be rejected.
    OnlyCompletedTaskAreRejected,
    /// The caller has no profile.
    NoProfile,
    /// The deadline is not strictly in the future.
    IncorrectDeadlineTimestamp,
    /// Only the record's initiator may update it.
    OnlyInitiatorUpdatesTask,
    /// The given organization identifier is not registered.
    InvalidOrganization,
    /// The ledger refused the transfer to the volunteer.
    TransferFailed,
    /// A record with the same content digest already exists.
    DuplicateTask,
}

/// The event emitted by each successful caller-invoked operation.
#[derive(Clone, Copy, PartialEq, Eq, Structural, Debug)]
pub enum Event {
    TaskCreated(AccountId, TaskId),
    TaskUpdated(AccountId, TaskId),
    TaskAssigned(AccountId, TaskId),
    TaskCompleted(AccountId, TaskId),
    TaskAccepted(AccountId, TaskId),
    TaskRejected(AccountId, TaskId),
    TaskRemoved(AccountId, TaskId),
}

} // verus!
