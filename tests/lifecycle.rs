use std::collections::HashMap;

use taskmaster::{ErrorKind, Payout, TaskError, TaskMaster, TaskStatus};

const TOKEN: &str = "CTOKEN";
const ESCROW: &str = "CTASKMASTER";
const ADMIN: &str = "GADMIN";
const CREATOR: &str = "GCREATOR";
const ASSIGNEE: &str = "GASSIGNEE";

/// Token balances, standing in for the token contract that the host runs.
struct Books {
    balances: HashMap<String, i128>,
}

impl Books {
    fn new() -> Books {
        Books { balances: HashMap::new() }
    }

    fn mint(&mut self, to: &str, amount: i128) {
        *self.balances.entry(to.to_string()).or_insert(0) += amount;
    }

    fn balance(&self, who: &str) -> i128 {
        *self.balances.get(who).unwrap_or(&0)
    }

    fn transfer(&mut self, from: &str, to: &str, amount: i128) {
        assert!(self.balance(from) >= amount, "insufficient balance");
        *self.balances.entry(from.to_string()).or_insert(0) -= amount;
        *self.balances.entry(to.to_string()).or_insert(0) += amount;
    }

    fn pay(&mut self, p: &Payout) {
        self.transfer(ESCROW, &p.to, p.amount);
    }
}

/// A ledger and its host: the clock, and the token books that carry out the
/// transfers the ledger reports.
struct Host {
    tm: TaskMaster,
    books: Books,
    now: u64,
}

impl Host {
    fn new() -> Host {
        let mut tm = TaskMaster::new();
        tm.initialize(TOKEN.to_string(), ADMIN.to_string()).unwrap();
        Host { tm, books: Books::new(), now: 0 }
    }

    fn create(
        &mut self,
        creator: &str,
        title: &str,
        description: &str,
        github_link: Option<&str>,
        funding_amount: i128,
        deadline: u64,
        assignee: &str,
    ) -> Result<u64, TaskError> {
        let r = self.tm.create_task(
            creator.to_string(),
            title.to_string(),
            description.to_string(),
            github_link.map(|s| s.to_string()),
            funding_amount,
            deadline,
            assignee.to_string(),
            self.now,
        );
        if r.is_ok() {
            self.books.transfer(creator, ESCROW, funding_amount);
        }
        r
    }

    fn create_default(&mut self, funding_amount: i128, deadline: u64) -> u64 {
        self.create(CREATOR, "Test Task", "Test Description", None, funding_amount, deadline, ASSIGNEE)
            .unwrap()
    }

    fn start(&mut self, who: &str, id: u64) -> Result<(), TaskError> {
        self.tm.start_task(&who.to_string(), id)
    }

    fn complete(&mut self, who: &str, id: u64) -> Result<(), TaskError> {
        self.tm.complete_task(&who.to_string(), id, self.now)
    }

    fn release(&mut self, who: &str, id: u64) -> Result<(), TaskError> {
        let p = self.tm.release_funds(&who.to_string(), id)?;
        self.books.pay(&p);
        Ok(())
    }

    fn cancel(&mut self, who: &str, id: u64) -> Result<(), TaskError> {
        let p = self.tm.cancel_task(&who.to_string(), id)?;
        self.books.pay(&p);
        Ok(())
    }

    fn mark_expired(&mut self, id: u64) -> Result<(), TaskError> {
        self.tm.mark_expired(id, self.now)
    }

    fn reclaim(&mut self, who: &str, id: u64) -> Result<(), TaskError> {
        let p = self.tm.reclaim_expired_funds(&who.to_string(), id)?;
        self.books.pay(&p);
        Ok(())
    }

    fn withdraw(&mut self, who: &str) -> Result<(), TaskError> {
        let p = self.tm.withdraw_platform_fees(&who.to_string())?;
        self.books.pay(&p);
        Ok(())
    }
}

#[test]
fn test_initialize() {
    let mut tm = TaskMaster::new();
    assert!(tm.initialize(TOKEN.to_string(), ADMIN.to_string()).is_ok());
    assert_eq!(tm.get_task_count(), 0);
    assert_eq!(tm.get_platform_fees(), 0);
}

#[test]
fn test_initialize_twice_fails() {
    let mut tm = TaskMaster::new();
    tm.initialize(TOKEN.to_string(), ADMIN.to_string()).unwrap();
    assert_eq!(
        tm.initialize(TOKEN.to_string(), ADMIN.to_string()),
        Err(TaskError::AlreadyInitialized)
    );
}

#[test]
fn test_create_task() {
    let mut h = Host::new();
    h.books.mint(CREATOR, 10_000_000);
    let funding_amount = 1_000_000i128;
    let deadline = h.now + 86400;
    let task_id = h
        .create(CREATOR, "Test Task", "Test Description", None, funding_amount, deadline, ASSIGNEE)
        .unwrap();
    assert_eq!(task_id, 1);

    let task = h.tm.get_task(task_id).unwrap();
    assert_eq!(task.id, 1);
    assert_eq!(task.title, "Test Task");
    assert_eq!(task.description, "Test Description");
    assert_eq!(task.funding_amount, funding_amount);
    assert_eq!(task.deadline, deadline);
    assert_eq!(task.status, TaskStatus::Assigned);
    assert!(!task.creator_approved);
    assert!(!task.assignee_approved);
    assert_eq!(task.assignee, Some(ASSIGNEE.to_string()));

    assert_eq!(h.tm.get_task_count(), 1);
    assert_eq!(h.books.balance(ESCROW), funding_amount);
}

#[test]
fn test_create_task_with_github_link() {
    let mut h = Host::new();
    h.books.mint(CREATOR, 10_000_000);
    let deadline = h.now + 86400;
    let task_id = h
        .create(
            CREATOR,
            "GitHub Task",
            "Task with GitHub link",
            Some("https://github.com/example/repo"),
            2_000_000,
            deadline,
            ASSIGNEE,
        )
        .unwrap();
    let task = h.tm.get_task(task_id).unwrap();
    assert_eq!(task.github_link, Some("https://github.com/example/repo".to_string()));
}

#[test]
fn test_create_task_empty_title_fails() {
    let mut h = Host::new();
    h.books.mint(CREATOR, 10_000_000);
    let deadline = h.now + 86400;
    let r = h.create(CREATOR, "", "Test Description", None, 1_000_000, deadline, ASSIGNEE);
    assert_eq!(r, Err(TaskError::EmptyTitle));
    assert_eq!(h.tm.get_task_count(), 0);
    assert_eq!(h.books.balance(CREATOR), 10_000_000);
}

#[test]
fn test_create_task_empty_description_fails() {
    let mut h = Host::new();
    h.books.mint(CREATOR, 10_000_000);
    let deadline = h.now + 86400;
    let r = h.create(CREATOR, "Test Task", "", None, 1_000_000, deadline, ASSIGNEE);
    assert_eq!(r, Err(TaskError::EmptyDescription));
    assert_eq!(h.tm.get_task_count(), 0);
}

#[test]
fn test_create_task_zero_funding_fails() {
    let mut h = Host::new();
    h.books.mint(CREATOR, 10_000_000);
    let deadline = h.now + 86400;
    let r = h.create(CREATOR, "Test Task", "Test Description", None, 0, deadline, ASSIGNEE);
    assert_eq!(r, Err(TaskError::NonPositiveFunding));
    assert_eq!(h.tm.get_task_count(), 0);
    assert_eq!(h.books.balance(ESCROW), 0);
}

#[test]
fn test_create_task_past_deadline_fails() {
    let mut h = Host::new();
    h.books.mint(CREATOR, 10_000_000);
    let deadline = h.now.saturating_sub(86400);
    let r = h.create(CREATOR, "Test Task", "Test Description", None, 1_000_000, deadline, ASSIGNEE);
    assert_eq!(r, Err(TaskError::DeadlineNotInFuture));
    assert_eq!(h.tm.get_task_count(), 0);
    assert_eq!(h.books.balance(ESCROW), 0);
}

#[test]
fn test_start_task() {
    let mut h = Host::new();
    h.books.mint(CREATOR, 10_000_000);
    let task_id = h.create_default(1_000_000, h.now + 86400);
    h.start(ASSIGNEE, task_id).unwrap();
    assert_eq!(h.tm.get_task(task_id).unwrap().status, TaskStatus::InProgress);
}

#[test]
fn test_complete_task() {
    let mut h = Host::new();
    h.books.mint(CREATOR, 10_000_000);
    let task_id = h.create_default(1_000_000, h.now + 86400);
    h.start(ASSIGNEE, task_id).unwrap();
    h.complete(ASSIGNEE, task_id).unwrap();
    let task = h.tm.get_task(task_id).unwrap();
    assert_eq!(task.status, TaskStatus::Completed);
    assert!(task.assignee_approved);
    assert!(task.completed_at.is_some());
}

#[test]
fn test_complete_task_invalid_state_fails() {
    let mut h = Host::new();
    h.books.mint(CREATOR, 10_000_000);
    let task_id = h.create_default(1_000_000, h.now + 86400);
    h.complete(ASSIGNEE, task_id).unwrap();
    assert_eq!(h.complete(ASSIGNEE, task_id), Err(TaskError::InvalidState));
}

#[test]
fn test_release_funds() {
    let mut h = Host::new();
    h.books.mint(CREATOR, 10_000_000);
    let funding_amount = 1_000_000i128;
    let task_id = h.create_default(funding_amount, h.now + 86400);
    h.complete(ASSIGNEE, task_id).unwrap();
    h.release(CREATOR, task_id).unwrap();

    let task = h.tm.get_task(task_id).unwrap();
    assert_eq!(task.status, TaskStatus::FundsReleased);
    assert!(task.creator_approved);

    let platform_fee = funding_amount * 3i128 / 100i128;
    let assignee_amount = funding_amount - platform_fee;
    assert_eq!(h.books.balance(ASSIGNEE), assignee_amount);
    assert_eq!(h.tm.get_platform_fees(), platform_fee);
}

#[test]
fn test_release_funds_without_completion_fails() {
    let mut h = Host::new();
    h.books.mint(CREATOR, 10_000_000);
    let task_id = h.create_default(1_000_000, h.now + 86400);
    assert_eq!(h.release(CREATOR, task_id), Err(TaskError::InvalidState));
}

#[test]
fn test_cancel_task() {
    let mut h = Host::new();
    h.books.mint(CREATOR, 10_000_000);
    let task_id = h.create_default(1_000_000, h.now + 86400);
    h.cancel(CREATOR, task_id).unwrap();
    assert_eq!(h.tm.get_task(task_id).unwrap().status, TaskStatus::Cancelled);
    assert_eq!(h.books.balance(CREATOR), 10_000_000);
}

#[test]
fn test_cancel_completed_task_fails() {
    let mut h = Host::new();
    h.books.mint(CREATOR, 10_000_000);
    let task_id = h.create_default(1_000_000, h.now + 86400);
    h.complete(ASSIGNEE, task_id).unwrap();
    assert_eq!(h.cancel(CREATOR, task_id), Err(TaskError::InvalidState));
}

#[test]
fn test_mark_expired() {
    let mut h = Host::new();
    h.books.mint(CREATOR, 10_000_000);
    let deadline = h.now + 100;
    let task_id = h.create_default(1_000_000, deadline);
    h.now = deadline + 1;
    h.mark_expired(task_id).unwrap();
    assert_eq!(h.tm.get_task(task_id).unwrap().status, TaskStatus::Expired);
}

#[test]
fn test_mark_expired_before_deadline_fails() {
    let mut h = Host::new();
    h.books.mint(CREATOR, 10_000_000);
    let task_id = h.create_default(1_000_000, h.now + 86400);
    assert_eq!(h.mark_expired(task_id), Err(TaskError::DeadlineNotPassed));
}

#[test]
fn test_reclaim_expired_funds() {
    let mut h = Host::new();
    h.books.mint(CREATOR, 10_000_000);
    let deadline = h.now + 100;
    let task_id = h.create_default(1_000_000, deadline);
    h.now = deadline + 1;
    h.mark_expired(task_id).unwrap();
    h.reclaim(CREATOR, task_id).unwrap();
    assert_eq!(h.tm.get_task(task_id).unwrap().status, TaskStatus::Cancelled);
    assert_eq!(h.books.balance(CREATOR), 10_000_000);
}

#[test]
fn test_reassign_task() {
    let mut h = Host::new();
    let new_assignee = "GNEWASSIGNEE";
    h.books.mint(CREATOR, 10_000_000);
    let deadline = h.now + 100;
    let task_id = h.create_default(1_000_000, deadline);
    h.now = deadline + 1;
    h.mark_expired(task_id).unwrap();
    h.tm.reassign_task(&CREATOR.to_string(), task_id, new_assignee.to_string()).unwrap();

    let task = h.tm.get_task(task_id).unwrap();
    assert_eq!(task.status, TaskStatus::Assigned);
    assert_eq!(task.assignee, Some(new_assignee.to_string()));
    assert!(!task.assignee_approved);
    assert!(!task.creator_approved);
    assert_eq!(task.completed_at, None);

    let new_assignee_tasks = h.tm.get_assigned_tasks(&new_assignee.to_string());
    assert!(new_assignee_tasks.contains(&task_id));
}

#[test]
fn test_reassign_non_expired_task_fails() {
    let mut h = Host::new();
    h.books.mint(CREATOR, 10_000_000);
    let task_id = h.create_default(1_000_000, h.now + 86400);
    assert_eq!(
        h.tm.reassign_task(&CREATOR.to_string(), task_id, "GNEWASSIGNEE".to_string()),
        Err(TaskError::NotExpired)
    );
}

#[test]
fn test_get_user_tasks() {
    let mut h = Host::new();
    h.books.mint(CREATOR, 10_000_000);
    let deadline = h.now + 86400;
    let task_id1 =
        h.create(CREATOR, "Task 1", "Test Description", None, 1_000_000, deadline, "GASSIGNEE1").unwrap();
    let task_id2 =
        h.create(CREATOR, "Task 2", "Test Description", None, 2_000_000, deadline, "GASSIGNEE2").unwrap();
    let user_tasks = h.tm.get_user_tasks(&CREATOR.to_string());
    assert_eq!(user_tasks.len(), 2);
    assert!(user_tasks.contains(&task_id1));
    assert!(user_tasks.contains(&task_id2));
}

#[test]
fn test_get_assigned_tasks() {
    let mut h = Host::new();
    h.books.mint(CREATOR, 10_000_000);
    let deadline = h.now + 86400;
    let task_id1 =
        h.create(CREATOR, "Task 1", "Test Description", None, 1_000_000, deadline, ASSIGNEE).unwrap();
    let task_id2 =
        h.create(CREATOR, "Task 2", "Test Description", None, 2_000_000, deadline, ASSIGNEE).unwrap();
    let assigned_tasks = h.tm.get_assigned_tasks(&ASSIGNEE.to_string());
    assert_eq!(assigned_tasks.len(), 2);
    assert!(assigned_tasks.contains(&task_id1));
    assert!(assigned_tasks.contains(&task_id2));
}

#[test]
fn test_complete_task_lifecycle() {
    let mut h = Host::new();
    h.books.mint(CREATOR, 10_000_000);
    let funding_amount = 5_000_000i128;
    let deadline = h.now + 86400;
    let task_id = h
        .create(
            CREATOR,
            "Complete Lifecycle Task",
            "Test full lifecycle",
            Some("https://github.com/test/repo"),
            funding_amount,
            deadline,
            ASSIGNEE,
        )
        .unwrap();
    assert_eq!(h.tm.get_task(task_id).unwrap().status, TaskStatus::Assigned);

    h.start(ASSIGNEE, task_id).unwrap();
    assert_eq!(h.tm.get_task(task_id).unwrap().status, TaskStatus::InProgress);

    h.complete(ASSIGNEE, task_id).unwrap();
    let task = h.tm.get_task(task_id).unwrap();
    assert_eq!(task.status, TaskStatus::Completed);
    assert!(task.assignee_approved);
    assert!(task.completed_at.is_some());

    h.release(CREATOR, task_id).unwrap();
    let task = h.tm.get_task(task_id).unwrap();
    assert_eq!(task.status, TaskStatus::FundsReleased);
    assert!(task.creator_approved);

    let platform_fee = funding_amount * 3i128 / 100i128;
    let expected_assignee_amount = funding_amount - platform_fee;
    assert_eq!(h.books.balance(ASSIGNEE), expected_assignee_amount);
}

#[test]
fn test_complete_expired_task_fails() {
    let mut h = Host::new();
    h.books.mint(CREATOR, 10_000_000);
    let deadline = h.now + 100;
    let task_id = h.create_default(1_000_000, deadline);
    h.now = deadline + 1;
    assert_eq!(h.complete(ASSIGNEE, task_id), Err(TaskError::TaskExpired));
}

#[test]
fn test_task_count() {
    let mut h = Host::new();
    h.books.mint(CREATOR, 10_000_000);
    assert_eq!(h.tm.get_task_count(), 0);
    for _ in 0..3 {
        let deadline = h.now + 86400;
        h.create(CREATOR, "Task", "Description", None, 1_000_000, deadline, ASSIGNEE).unwrap();
    }
    assert_eq!(h.tm.get_task_count(), 3);
}

#[test]
fn test_withdraw_platform_fees() {
    let mut h = Host::new();
    h.books.mint(CREATOR, 10_000_000);
    let funding_amount = 1_000_000i128;
    let task_id = h.create_default(funding_amount, h.now + 86400);
    h.complete(ASSIGNEE, task_id).unwrap();
    h.release(CREATOR, task_id).unwrap();

    let expected_platform_fee = funding_amount * 3i128 / 100i128;
    assert_eq!(h.tm.get_platform_fees(), expected_platform_fee);

    h.withdraw(ADMIN).unwrap();
    assert_eq!(h.tm.get_platform_fees(), 0);
    assert_eq!(h.books.balance(ADMIN), expected_platform_fee);
}

#[test]
fn test_withdraw_platform_fees_unauthorized_fails() {
    let mut h = Host::new();
    h.books.mint(CREATOR, 10_000_000);
    let task_id = h.create_default(1_000_000, h.now + 86400);
    h.complete(ASSIGNEE, task_id).unwrap();
    h.release(CREATOR, task_id).unwrap();
    assert_eq!(h.withdraw("GUNAUTHORIZED"), Err(TaskError::NotDeployer));
    assert_eq!(h.tm.get_platform_fees(), 30_000);
}

#[test]
fn test_withdraw_zero_platform_fees_fails() {
    let mut h = Host::new();
    assert_eq!(h.withdraw(ADMIN), Err(TaskError::NoFeesToWithdraw));
}

#[test]
fn test_multiple_tasks_platform_fees() {
    let mut h = Host::new();
    h.books.mint(CREATOR, 20_000_000);
    let task_id1 = h.create_default(1_000_000, h.now + 86400);
    let task_id2 = h.create_default(2_000_000, h.now + 86400);
    h.complete(ASSIGNEE, task_id1).unwrap();
    h.complete(ASSIGNEE, task_id2).unwrap();
    h.release(CREATOR, task_id1).unwrap();
    h.release(CREATOR, task_id2).unwrap();

    let expected_platform_fee = (1_000_000i128 + 2_000_000i128) * 3i128 / 100i128;
    assert_eq!(h.tm.get_platform_fees(), expected_platform_fee);

    h.withdraw(ADMIN).unwrap();
    assert_eq!(h.tm.get_platform_fees(), 0);
    assert_eq!(h.books.balance(ADMIN), expected_platform_fee);
}

#[test]
fn test_platform_fee_small_amount() {
    let mut h = Host::new();
    let funding_amount = 100i128;
    h.books.mint(CREATOR, 10_000_000);
    let deadline = h.now + 86400;
    let task_id = h
        .create(CREATOR, "Small Amount Task", "Test with small amount", None, funding_amount, deadline, ASSIGNEE)
        .unwrap();
    h.complete(ASSIGNEE, task_id).unwrap();
    h.release(CREATOR, task_id).unwrap();

    let expected_platform_fee = funding_amount * 3i128 / 100i128;
    assert_eq!(h.tm.get_platform_fees(), expected_platform_fee);
    let expected_assignee_amount = funding_amount - expected_platform_fee;
    assert_eq!(h.books.balance(ASSIGNEE), expected_assignee_amount);

    h.withdraw(ADMIN).unwrap();
    assert_eq!(h.books.balance(ADMIN), expected_platform_fee);
}

#[test]
fn test_platform_fee_large_amount() {
    let mut h = Host::new();
    let funding_amount = 10_000_000_000i128;
    h.books.mint(CREATOR, funding_amount);
    let deadline = h.now + 86400;
    let task_id = h
        .create(CREATOR, "Large Amount Task", "Test with large amount", None, funding_amount, deadline, ASSIGNEE)
        .unwrap();
    h.complete(ASSIGNEE, task_id).unwrap();
    h.release(CREATOR, task_id).unwrap();

    let expected_platform_fee = funding_amount * 3i128 / 100i128;
    assert_eq!(h.tm.get_platform_fees(), expected_platform_fee);
    let expected_assignee_amount = funding_amount - expected_platform_fee;
    assert_eq!(h.books.balance(ASSIGNEE), expected_assignee_amount);

    h.withdraw(ADMIN).unwrap();
    assert_eq!(h.books.balance(ADMIN), expected_platform_fee);
}

#[test]
fn test_multiple_platform_fee_withdrawals() {
    let mut h = Host::new();
    h.books.mint(CREATOR, 10_000_000);
    let funding_amount1 = 1_000_000i128;
    let deadline = h.now + 86400;
    let task_id1 =
        h.create(CREATOR, "Task 1", "First task", None, funding_amount1, deadline, ASSIGNEE).unwrap();
    h.complete(ASSIGNEE, task_id1).unwrap();
    h.release(CREATOR, task_id1).unwrap();

    let expected_platform_fee1 = funding_amount1 * 3i128 / 100i128;
    assert_eq!(h.tm.get_platform_fees(), expected_platform_fee1);
    h.withdraw(ADMIN).unwrap();
    assert_eq!(h.tm.get_platform_fees(), 0);
    assert_eq!(h.books.balance(ADMIN), expected_platform_fee1);

    let funding_amount2 = 2_000_000i128;
    let task_id2 =
        h.create(CREATOR, "Task 2", "Second task", None, funding_amount2, deadline, ASSIGNEE).unwrap();
    h.complete(ASSIGNEE, task_id2).unwrap();
    h.release(CREATOR, task_id2).unwrap();

    let expected_platform_fee2 = funding_amount2 * 3i128 / 100i128;
    assert_eq!(h.tm.get_platform_fees(), expected_platform_fee2);
    h.withdraw(ADMIN).unwrap();
    assert_eq!(h.tm.get_platform_fees(), 0);
    assert_eq!(h.books.balance(ADMIN), expected_platform_fee1 + expected_platform_fee2);
}

#[test]
fn test_platform_fee_accumulation_many_tasks() {
    let mut h = Host::new();
    let total_funding = 10_000_000i128 * 10;
    h.books.mint(CREATOR, total_funding);
    let funding_amount = 10_000_000i128;
    let mut task_ids = Vec::new();
    for _i in 0..10 {
        let deadline = h.now + 86400;
        let task_id =
            h.create(CREATOR, "Task", "Test task", None, funding_amount, deadline, ASSIGNEE).unwrap();
        task_ids.push(task_id);
    }
    for i in 0..10 {
        h.complete(ASSIGNEE, task_ids[i]).unwrap();
    }
    for i in 0..10 {
        h.release(CREATOR, task_ids[i]).unwrap();
    }

    let total_funding_amount = funding_amount * 10i128;
    let expected_platform_fee = total_funding_amount * 3i128 / 100i128;
    assert_eq!(h.tm.get_platform_fees(), expected_platform_fee);

    h.withdraw(ADMIN).unwrap();
    assert_eq!(h.tm.get_platform_fees(), 0);
    assert_eq!(h.books.balance(ADMIN), expected_platform_fee);
    let expected_assignee_amount = total_funding_amount - expected_platform_fee;
    assert_eq!(h.books.balance(ASSIGNEE), expected_assignee_amount);
}

#[test]
fn test_no_platform_fee_for_cancelled_task() {
    let mut h = Host::new();
    let funding_amount = 1_000_000i128;
    h.books.mint(CREATOR, 10_000_000);
    let deadline = h.now + 86400;
    let task_id = h
        .create(CREATOR, "Task to Cancel", "The task will be cancelled", None, funding_amount, deadline, ASSIGNEE)
        .unwrap();
    h.cancel(CREATOR, task_id).unwrap();
    assert_eq!(h.tm.get_platform_fees(), 0);
    assert_eq!(h.books.balance(CREATOR), 10_000_000);
}

#[test]
fn test_no_platform_fee_for_expired_task() {
    let mut h = Host::new();
    let funding_amount = 1_000_000i128;
    h.books.mint(CREATOR, 10_000_000);
    let deadline = h.now + 100;
    let task_id = h
        .create(CREATOR, "Task to Expire", "The task will expire", None, funding_amount, deadline, ASSIGNEE)
        .unwrap();
    h.now = deadline + 1;
    h.mark_expired(task_id).unwrap();
    h.reclaim(CREATOR, task_id).unwrap();
    assert_eq!(h.tm.get_platform_fees(), 0);
    assert_eq!(h.books.balance(CREATOR), 10_000_000);
}

#[test]
fn test_get_platform_fees_when_none_exist() {
    let h = Host::new();
    assert_eq!(h.tm.get_platform_fees(), 0);
}

#[test]
fn test_platform_fee_calculation_precision() {
    let mut h = Host::new();
    let funding_amount1 = 101i128;
    let funding_amount2 = 99i128;
    let funding_amount3 = 333i128;
    let total_funding = funding_amount1 + funding_amount2 + funding_amount3;
    h.books.mint(CREATOR, total_funding + 1_000_000);

    let mut ids = Vec::new();
    for amount in [funding_amount1, funding_amount2, funding_amount3] {
        let deadline = h.now + 86400;
        let id = h
            .create(CREATOR, "Precision Test Task", "Testing precision", None, amount, deadline, ASSIGNEE)
            .unwrap();
        h.complete(ASSIGNEE, id).unwrap();
        h.release(CREATOR, id).unwrap();
        ids.push(id);
    }

    let expected_fee1 = funding_amount1 * 3i128 / 100i128;
    let expected_fee2 = funding_amount2 * 3i128 / 100i128;
    let expected_fee3 = funding_amount3 * 3i128 / 100i128;
    let total_expected_fee = expected_fee1 + expected_fee2 + expected_fee3;
    assert_eq!(h.tm.get_platform_fees(), total_expected_fee);

    h.withdraw(ADMIN).unwrap();
    assert_eq!(h.books.balance(ADMIN), total_expected_fee);

    let expected_assignee_amount1 = funding_amount1 - expected_fee1;
    let expected_assignee_amount2 = funding_amount2 - expected_fee2;
    let expected_assignee_amount3 = funding_amount3 - expected_fee3;
    assert_eq!(
        h.books.balance(ASSIGNEE),
        expected_assignee_amount1 + expected_assignee_amount2 + expected_assignee_amount3
    );
}

#[test]
fn escrow_balance_matches_the_ledger() {
    let mut h = Host::new();
    h.books.mint(CREATOR, 10_000_000);
    let a = h.create_default(1_000_000, 100);
    let b = h.create_default(2_000_001, 100);
    let c = h.create_default(333, 100);
    let d = h.create_default(45_678, 100);
    h.complete(ASSIGNEE, a).unwrap();
    h.release(CREATOR, a).unwrap();
    h.cancel(CREATOR, b).unwrap();
    h.start(ASSIGNEE, c).unwrap();
    h.now = 101;
    h.mark_expired(d).unwrap();

    let held: i128 = h
        .tm
        .tasks()
        .iter()
        .filter(|t| t.status != TaskStatus::FundsReleased && t.status != TaskStatus::Cancelled)
        .map(|t| t.funding_amount)
        .sum();
    assert_eq!(held, 333 + 45_678);
    assert_eq!(h.books.balance(ESCROW), held + h.tm.get_platform_fees());
    assert_eq!(
        h.books.balance(ESCROW) + h.books.balance(ASSIGNEE) + h.books.balance(CREATOR),
        10_000_000
    );

    h.reclaim(CREATOR, d).unwrap();
    h.withdraw(ADMIN).unwrap();
    assert_eq!(h.books.balance(ESCROW), 333);
    assert_eq!(h.books.balance(ADMIN), 30_000);
    assert_eq!(h.books.balance(ASSIGNEE), 970_000);
    assert_eq!(h.books.balance(CREATOR), 10_000_000 - 1_000_000 - 333);
}

#[test]
fn released_task_refuses_every_operation() {
    let mut h = Host::new();
    h.books.mint(CREATOR, 10_000_000);
    let id = h.create_default(1_000_000, 100);
    h.complete(ASSIGNEE, id).unwrap();
    h.release(CREATOR, id).unwrap();
    assert_eq!(h.release(CREATOR, id), Err(TaskError::InvalidState));
    assert_eq!(h.cancel(CREATOR, id), Err(TaskError::InvalidState));
    assert_eq!(h.start(ASSIGNEE, id), Err(TaskError::InvalidState));
    assert_eq!(h.complete(ASSIGNEE, id), Err(TaskError::InvalidState));
    h.now = 1_000;
    assert_eq!(h.mark_expired(id), Err(TaskError::InvalidState));
    assert_eq!(h.reclaim(CREATOR, id), Err(TaskError::NotExpired));
    assert_eq!(h.books.balance(ASSIGNEE), 970_000);
    assert_eq!(h.tm.get_task(id).unwrap().status, TaskStatus::FundsReleased);
}

#[test]
fn creator_index_is_never_pruned() {
    let mut h = Host::new();
    h.books.mint(CREATOR, 10_000_000);
    h.books.mint("GOTHER", 10_000_000);
    let a = h.create_default(1_000, 100);
    let b = h.create("GOTHER", "Other", "Other task", None, 2_000, 100, ASSIGNEE).unwrap();
    let c = h.create_default(3_000, 100);
    h.cancel(CREATOR, a).unwrap();
    h.now = 200;
    h.mark_expired(c).unwrap();
    h.reclaim(CREATOR, c).unwrap();
    assert_eq!(h.tm.get_user_tasks(&CREATOR.to_string()), vec![a, c]);
    assert_eq!(h.tm.get_user_tasks(&"GOTHER".to_string()), vec![b]);
    assert_eq!(h.tm.get_assigned_tasks(&ASSIGNEE.to_string()), vec![a, b, c]);
    assert_eq!(h.tm.get_user_tasks(&ASSIGNEE.to_string()), Vec::<u64>::new());
    assert_eq!(ErrorKind::Validation, TaskError::EmptyTitle.kind());
}
