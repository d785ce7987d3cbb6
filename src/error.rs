use vstd::prelude::*;

verus! {

/// Why an operation on the ledger was refused. A refused operation leaves the
/// ledger as it was and moves no value.
#[derive(Clone, Copy, Debug, PartialEq, Eq, Structural)]
pub enum TaskError {
    /// `initialize` on a ledger that already has its configuration.
    AlreadyInitialized,
    /// An operation that needs the configuration, before `initialize`.
    NotInitialized,
    /// A task was created with an empty title.
    EmptyTitle,
    /// A task was created with an empty description.
    EmptyDescription,
    /// A task was created with a funding that is not positive.
    NonPositiveFunding,
    /// A task was created with a deadline that is not after the current time.
    DeadlineNotInFuture,
    /// No task has the given id.
    TaskNotFound,
    /// The caller is not the task's creator.
    NotCreator,
    /// The caller is not the task's assignee.
    NotAssignee,
    /// The caller is not the configured deployer.
    NotDeployer,
    /// The task's status does not allow the operation.
    InvalidState,
    /// Funds were to be released before the assignee signed off the task.
    NotMarkedComplete,
    /// The task was to be completed after its deadline.
    TaskExpired,
    /// The task was to be marked expired before its deadline had passed.
    DeadlineNotPassed,
    /// The operation needs a task in the `Expired` status.
    NotExpired,
    /// There are no platform fees to withdraw.
    NoFeesToWithdraw,
    /// A counter or an amount would leave the range of its integer type.
    Overflow,
}

/// The class of a refusal: what kind of guard turned the operation down.
#[derive(Clone, Copy, Debug, PartialEq, Eq, Structural)]
pub enum ErrorKind {
    /// Malformed input.
    Validation,
    /// The caller does not hold the role the operation needs.
    Authorization,
    /// The operation is not allowed from the current status.
    State,
    /// The deadline decides against the operation.
    Temporal,
    /// Unknown task id.
    NotFound,
    /// Initialization happened twice, or not at all.
    Initialization,
    /// An integer would overflow.
    Overflow,
}

impl TaskError {
    /// The class that each refusal belongs to.
    pub open spec fn spec_kind(self) -> ErrorKind {
        match self {
            TaskError::AlreadyInitialized | TaskError::NotInitialized => ErrorKind::Initialization,
            TaskError::EmptyTitle
            | TaskError::EmptyDescription
            | TaskError::NonPositiveFunding
            | TaskError::DeadlineNotInFuture => ErrorKind::Validation,
            TaskError::TaskNotFound => ErrorKind::NotFound,
            TaskError::NotCreator | TaskError::NotAssignee | TaskError::NotDeployer => {
                ErrorKind::Authorization
            },
            TaskError::InvalidState | TaskError::NotMarkedComplete | TaskError::NoFeesToWithdraw => {
                ErrorKind::State
            },
            TaskError::TaskExpired | TaskError::DeadlineNotPassed | TaskError::NotExpired => {
                ErrorKind::Temporal
            },
            TaskError::Overflow => ErrorKind::Overflow,
        }
    }

    /// The class of this refusal.
    pub fn kind(&self) -> (k: ErrorKind)
        ensures
            k == self.spec_kind(),
    {
        match self {
            TaskError::AlreadyInitialized | TaskError::NotInitialized => ErrorKind::Initialization,
            TaskError::EmptyTitle
            | TaskError::EmptyDescription
            | TaskError::NonPositiveFunding
            | TaskError::DeadlineNotInFuture => ErrorKind::Validation,
            TaskError::TaskNotFound => ErrorKind::NotFound,
            TaskError::NotCreator | TaskError::NotAssignee | TaskError::NotDeployer => {
                ErrorKind::Authorization
            },
            TaskError::InvalidState | TaskError::NotMarkedComplete | TaskError::NoFeesToWithdraw => {
                ErrorKind::State
            },
            TaskError::TaskExpired | TaskError::DeadlineNotPassed | TaskError::NotExpired => {
                ErrorKind::Temporal
            },
            TaskError::Overflow => ErrorKind::Overflow,
        }
    }
}

} // verus!
