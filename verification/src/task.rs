//! The task record: the central entity of the engine, with its
//! mathematical view.

use vstd::prelude::*;
use crate::types::{AccountId, Balance, OrgId, TaskId, TaskStatus, MAX_TITLE_LEN, MAX_SPECIFICATION_LEN, MAX_ATTACHMENTS_LEN, MAX_KEYWORDS_LEN, MAX_FEEDBACK_LEN};

verus! {

/// A task record.
///
/// `id` is the content digest of the record's canonical encoding at creation
/// time and never changes. `initiator` never changes either; `volunteer`
/// equals `initiator` until the record is started. `current_owner` is the
/// account entitled to act on the record next, coupled to `status`.
pub struct Task {
    pub id: TaskId,
    pub title: Vec<u8>,
    pub specification: Vec<u8>,
    pub initiator: AccountId,
    pub volunteer: AccountId,
    pub current_owner: AccountId,
    pub status: TaskStatus,
    pub budget: Balance,
    pub deadline: u64,
    pub attachments: Vec<u8>,
    pub keywords: Vec<u8>,
    pub feedback: Option<Vec<u8>>,
    pub created_at: u64,
    pub updated_at: u64,
    pub completed_at: u64,
    pub organization: Option<OrgId>,
}

/// The mathematical image of a [`Task`]: byte blobs become sequences.
#[verifier::ext_equal]
pub ghost struct TaskView {
    pub id: TaskId,
    pub title: Seq<u8>,
    pub specification: Seq<u8>,
    pub initiator: AccountId,
    pub volunteer: AccountId,
    pub current_owner: AccountId,
    pub status: TaskStatus,
    pub budget: Balance,
    pub deadline: u64,
    pub attachments: Seq<u8>,
    pub keywords: Seq<u8>,
    pub feedback: Option<Seq<u8>>,
    pub created_at: u64,
    pub updated_at: u64,
    pub completed_at: u64,
    pub organization: Option<OrgId>,
}

impl View for Task {
    type V = TaskView;

    open spec fn view(&self) -> TaskView {
        TaskView {
            id: self.id,
            title: self.title@,
            specification: self.specification@,
            initiator: self.initiator,
            volunteer: self.volunteer,
            current_owner: self.current_owner,
            status: self.status,
            budget: self.budget,
            deadline: self.deadline,
            attachments: self.attachments@,
            keywords: self.keywords@,
            feedback: match self.feedback {
                Some(f) => Some(f@),
                None => None,
            },
            created_at: self.created_at,
            updated_at: self.updated_at,
            completed_at: self.completed_at,
            organization: self.organization,
        }
    }
}

impl TaskView {
    /// The blob bounds that every stored record satisfies.
    pub open spec fn bounded(self) -> bool {
        &&& self.title.len() <= MAX_TITLE_LEN
        &&& self.specification.len() <= MAX_SPECIFICATION_LEN
        &&& self.attachments.len() <= MAX_ATTACHMENTS_LEN
        &&& self.keywords.len() <= MAX_KEYWORDS_LEN
        &&& (self.feedback matches Some(f) ==> f.len() <= MAX_FEEDBACK_LEN)
    }

    /// Status/owner coupling: the current owner is the initiator except
    /// while the record is in progress, and the volunteer differs from the
    /// initiator exactly once work has started.
    pub open spec fn owner_coupled(self) -> bool {
        &&& self.status != TaskStatus::Accepted
        &&& self.status == TaskStatus::Created ==> self.current_owner == self.initiator
            && self.volunteer == self.initiator
        &&& self.status == TaskStatus::InProgress ==> self.current_owner == self.volunteer
            && self.volunteer != self.initiator
        &&& self.status == TaskStatus::Completed ==> self.current_owner == self.initiator
            && self.volunteer != self.initiator
    }
}

} // verus!
