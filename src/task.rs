use vstd::prelude::*;

verus! {

/// An account on the host ledger, written as its address string. Two
/// accounts are the same when their strings are.
pub type AccountId = String;

/// Where a task stands in its life.
///
/// `Created` and `Approved` exist for completeness of the vocabulary: no
/// operation leads into them (a new task starts `Assigned`, and approval is
/// part of releasing the funds).
#[derive(Clone, Copy, Debug, PartialEq, Eq, Structural)]
pub enum TaskStatus {
    Created,
    Assigned,
    InProgress,
    Completed,
    Approved,
    FundsReleased,
    Expired,
    Cancelled,
}

impl TaskStatus {
    /// A status that no operation leaves: the task's outcome is settled.
    pub open spec fn is_terminal(self) -> bool {
        self == TaskStatus::FundsReleased || self == TaskStatus::Cancelled
    }

    /// A status in which the assignee may still deliver, and the creator may
    /// still cancel.
    pub open spec fn is_open(self) -> bool {
        self == TaskStatus::Assigned || self == TaskStatus::InProgress
    }
}

/// One funded task, as the ledger records it.
#[derive(Clone, Debug)]
pub struct Task {
    /// Assigned at creation, from 1 upwards; never reused.
    pub id: u64,
    pub title: String,
    pub description: String,
    /// An optional link to the task's repository.
    pub github_link: Option<String>,
    /// The escrowed amount, in the token's smallest unit.
    pub funding_amount: i128,
    /// The time after which the task can no longer be completed.
    pub deadline: u64,
    pub creator: AccountId,
    pub assignee: Option<AccountId>,
    pub status: TaskStatus,
    pub created_at: u64,
    /// When the assignee completed the task, if they did.
    pub completed_at: Option<u64>,
    /// Set when the creator released the funds.
    pub creator_approved: bool,
    /// Set when the assignee completed the task.
    pub assignee_approved: bool,
}

impl Task {
    /// `who` is the current assignee of the task.
    pub open spec fn assigned_to(self, who: Seq<char>) -> bool {
        self.assignee is Some && self.assignee->0@ == who
    }

    /// The facts that hold of every task that the ledger records: what
    /// creation checked, and how the flags follow the status.
    pub open spec fn well_formed(self) -> bool {
        &&& self.title@.len() > 0
        &&& self.description@.len() > 0
        &&& self.funding_amount > 0
        &&& self.deadline > self.created_at
        &&& self.assignee is Some
        &&& self.status != TaskStatus::Created
        &&& self.status != TaskStatus::Approved
        &&& self.assignee_approved <==> (self.status == TaskStatus::Completed
            || self.status == TaskStatus::FundsReleased)
        &&& self.completed_at is Some <==> self.assignee_approved
        &&& self.creator_approved <==> self.status == TaskStatus::FundsReleased
    }

    /// The escrowed amount that the task still holds: its funding until the
    /// funds are released or refunded, nothing after.
    pub open spec fn held(self) -> int {
        if self.status.is_terminal() {
            0
        } else {
            self.funding_amount as int
        }
    }

    /// Whether this record satisfies `well_formed`.
    pub fn is_well_formed(&self) -> (b: bool)
        ensures
            b == self.well_formed(),
    {
        let signed_off = self.status == TaskStatus::Completed || self.status
            == TaskStatus::FundsReleased;
        !self.title.as_str().is_empty() && !self.description.as_str().is_empty()
            && self.funding_amount > 0 && self.deadline > self.created_at && self.assignee.is_some()
            && self.status != TaskStatus::Created && self.status != TaskStatus::Approved
            && self.assignee_approved == signed_off && self.completed_at.is_some()
            == self.assignee_approved && self.creator_approved == (self.status
            == TaskStatus::FundsReleased)
    }
}

} // verus!
