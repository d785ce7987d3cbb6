use vstd::prelude::*;
use crate::error::TaskError;
use crate::fee::{fee_of, payout_of, platform_fee};
use crate::index::{
    assigned_ids, created_ids, held_sum, lemma_held_sum_push, lemma_held_sum_update,
    lemma_push_no_duplicates, lemma_without_contains, lemma_without_no_duplicates, without,
};
use crate::task::{AccountId, Task, TaskStatus};

verus! {

/// What `initialize` fixes once: the token that value moves in, and the
/// account entitled to the platform fees.
#[derive(Clone, Debug)]
pub struct Config {
    pub token: AccountId,
    pub deployer: AccountId,
}

/// A value that leaves escrow: `amount` of the token goes to `to`.
#[derive(Clone, Debug)]
pub struct Payout {
    pub to: AccountId,
    pub amount: i128,
}

/// The ledger as a mathematical value: the records, the assignment order
/// that the assignee index follows, the fee accumulator, and the running
/// totals of value that came in and went out.
pub struct LedgerView {
    pub config: Option<Config>,
    pub tasks: Seq<Task>,
    pub assignment_order: Seq<u64>,
    pub platform_fees: int,
    /// Everything creators have put into escrow.
    pub funded: int,
    /// Everything paid to assignees.
    pub paid_out: int,
    /// Everything refunded to creators.
    pub refunded: int,
    /// Everything the deployer has withdrawn in fees.
    pub withdrawn: int,
}

/// The task ledger: every record, both indexes, the fee accumulator and the
/// configuration, changed only through the operations below.
pub struct TaskMaster {
    config: Option<Config>,
    tasks: Vec<Task>,
    assignment_order: Vec<u64>,
    platform_fees: i128,
    funded: Ghost<int>,
    paid_out: Ghost<int>,
    refunded: Ghost<int>,
    withdrawn: Ghost<int>,
}

impl View for TaskMaster {
    type V = LedgerView;

    closed spec fn view(&self) -> LedgerView {
        LedgerView {
            config: self.config,
            tasks: self.tasks@,
            assignment_order: self.assignment_order@,
            platform_fees: self.platform_fees as int,
            funded: self.funded@,
            paid_out: self.paid_out@,
            refunded: self.refunded@,
            withdrawn: self.withdrawn@,
        }
    }
}

impl LedgerView {
    /// Some task has id `id`.
    pub open spec fn has_task(self, id: u64) -> bool {
        1 <= id <= self.tasks.len()
    }

    /// The record of task `id`.
    pub open spec fn task(self, id: u64) -> Task {
        self.tasks[id - 1]
    }

    /// What the ledger holds in escrow: the funding of every task whose
    /// outcome is not settled, and the fees not yet withdrawn.
    pub open spec fn escrow(self) -> int {
        held_sum(self.tasks) + self.platform_fees
    }

    /// The index of the tasks that `who` created.
    pub open spec fn created_by(self, who: Seq<char>) -> Seq<u64> {
        created_ids(self.tasks, who)
    }

    /// The index of the tasks currently assigned to `who`.
    pub open spec fn assigned_to(self, who: Seq<char>) -> Seq<u64> {
        assigned_ids(self.assignment_order, self.tasks, who)
    }

    /// `who` is the configured deployer.
    pub open spec fn is_deployer(self, who: Seq<char>) -> bool {
        self.config is Some && self.config->0.deployer@ == who
    }

    /// The invariant of the ledger.
    pub open spec fn wf(self) -> bool {
        &&& self.config is None ==> self.tasks.len() == 0 && self.platform_fees == 0
        &&& forall|i: int| 0 <= i < self.tasks.len() ==> (#[trigger] self.tasks[i]).id == i + 1
        &&& forall|i: int| 0 <= i < self.tasks.len() ==> (#[trigger] self.tasks[i]).well_formed()
        &&& self.assignment_order.no_duplicates()
        &&& forall|k: int|
            0 <= k < self.assignment_order.len() ==> self.has_task(
                #[trigger] self.assignment_order[k],
            )
        &&& forall|id: u64| self.has_task(id) ==> #[trigger] self.assignment_order.contains(id)
        &&& self.platform_fees >= 0
        &&& self.escrow() + self.paid_out + self.refunded + self.withdrawn == self.funded
    }

    /// The ledger with the record of task `id` replaced by `t`.
    pub open spec fn with_task(self, id: u64, t: Task) -> LedgerView {
        LedgerView { tasks: self.tasks.update(id - 1, t), ..self }
    }

    /// Which guard of `create_task` refuses, in the order they are checked.
    pub open spec fn create_error(
        self,
        title: Seq<char>,
        description: Seq<char>,
        funding_amount: i128,
        deadline: u64,
        now: u64,
    ) -> Option<TaskError> {
        if title.len() == 0 {
            Some(TaskError::EmptyTitle)
        } else if description.len() == 0 {
            Some(TaskError::EmptyDescription)
        } else if funding_amount <= 0 {
            Some(TaskError::NonPositiveFunding)
        } else if deadline <= now {
            Some(TaskError::DeadlineNotInFuture)
        } else if self.config is None {
            Some(TaskError::NotInitialized)
        } else if self.tasks.len() >= u64::MAX {
            Some(TaskError::Overflow)
        } else {
            None
        }
    }

    /// Which guard of `start_task` refuses.
    pub open spec fn start_error(self, who: Seq<char>, id: u64) -> Option<TaskError> {
        if !self.has_task(id) {
            Some(TaskError::TaskNotFound)
        } else if !self.task(id).assigned_to(who) {
            Some(TaskError::NotAssignee)
        } else if self.task(id).status != TaskStatus::Assigned {
            Some(TaskError::InvalidState)
        } else {
            None
        }
    }

    /// The ledger after the assignee started task `id`.
    pub open spec fn started(self, id: u64) -> LedgerView {
        self.with_task(id, Task { status: TaskStatus::InProgress, ..self.task(id) })
    }

    /// Which guard of `complete_task` refuses. A task already marked
    /// expired is refused for its deadline, as one whose deadline has passed.
    pub open spec fn complete_error(self, who: Seq<char>, id: u64, now: u64) -> Option<TaskError> {
        if !self.has_task(id) {
            Some(TaskError::TaskNotFound)
        } else if !self.task(id).assigned_to(who) {
            Some(TaskError::NotAssignee)
        } else if self.task(id).status == TaskStatus::Expired {
            Some(TaskError::TaskExpired)
        } else if !self.task(id).status.is_open() {
            Some(TaskError::InvalidState)
        } else if now > self.task(id).deadline {
            Some(TaskError::TaskExpired)
        } else {
            None
        }
    }

    /// The ledger after the assignee completed task `id` at time `now`.
    pub open spec fn completed(self, id: u64, now: u64) -> LedgerView {
        self.with_task(
            id,
            Task {
                status: TaskStatus::Completed,
                assignee_approved: true,
                completed_at: Some(now),
                ..self.task(id)
            },
        )
    }

    /// Which guard of `release_funds` refuses.
    pub open spec fn release_error(self, who: Seq<char>, id: u64) -> Option<TaskError> {
        if !self.has_task(id) {
            Some(TaskError::TaskNotFound)
        } else if self.task(id).creator@ != who {
            Some(TaskError::NotCreator)
        } else if self.task(id).status != TaskStatus::Completed {
            Some(TaskError::InvalidState)
        } else if !self.task(id).assignee_approved {
            Some(TaskError::NotMarkedComplete)
        } else if self.platform_fees + fee_of(self.task(id).funding_amount as int) > i128::MAX {
            Some(TaskError::Overflow)
        } else {
            None
        }
    }

    /// The ledger after the creator released the funds of task `id`: the
    /// fee stays in the accumulator, the rest is paid to the assignee.
    pub open spec fn released(self, id: u64) -> LedgerView {
        let t = self.task(id);
        LedgerView {
            platform_fees: self.platform_fees + fee_of(t.funding_amount as int),
            paid_out: self.paid_out + payout_of(t.funding_amount as int),
            ..self.with_task(
                id,
                Task { status: TaskStatus::FundsReleased, creator_approved: true, ..t },
            )
        }
    }

    /// Which guard of `cancel_task` refuses.
    pub open spec fn cancel_error(self, who: Seq<char>, id: u64) -> Option<TaskError> {
        if !self.has_task(id) {
            Some(TaskError::TaskNotFound)
        } else if self.task(id).creator@ != who {
            Some(TaskError::NotCreator)
        } else if !self.task(id).status.is_open() {
            Some(TaskError::InvalidState)
        } else {
            None
        }
    }

    /// The ledger after task `id` was cancelled and its whole funding
    /// refunded.
    pub open spec fn cancelled(self, id: u64) -> LedgerView {
        let t = self.task(id);
        LedgerView {
            refunded: self.refunded + t.funding_amount,
            ..self.with_task(id, Task { status: TaskStatus::Cancelled, ..t })
        }
    }

    /// Which guard of `mark_expired` refuses.
    pub open spec fn expire_error(self, id: u64, now: u64) -> Option<TaskError> {
        if !self.has_task(id) {
            Some(TaskError::TaskNotFound)
        } else if !self.task(id).status.is_open() {
            Some(TaskError::InvalidState)
        } else if now <= self.task(id).deadline {
            Some(TaskError::DeadlineNotPassed)
        } else {
            None
        }
    }

    /// The ledger after task `id` was marked expired.
    pub open spec fn expired(self, id: u64) -> LedgerView {
        self.with_task(id, Task { status: TaskStatus::Expired, ..self.task(id) })
    }

    /// Which guard of `reclaim_expired_funds` refuses.
    pub open spec fn reclaim_error(self, who: Seq<char>, id: u64) -> Option<TaskError> {
        if !self.has_task(id) {
            Some(TaskError::TaskNotFound)
        } else if self.task(id).creator@ != who {
            Some(TaskError::NotCreator)
        } else if self.task(id).status != TaskStatus::Expired {
            Some(TaskError::NotExpired)
        } else {
            None
        }
    }

    /// Which guard of `reassign_task` refuses.
    pub open spec fn reassign_error(self, who: Seq<char>, id: u64) -> Option<TaskError> {
        if !self.has_task(id) {
            Some(TaskError::TaskNotFound)
        } else if self.task(id).creator@ != who {
            Some(TaskError::NotCreator)
        } else if self.task(id).status != TaskStatus::Expired {
            Some(TaskError::NotExpired)
        } else {
            None
        }
    }

    /// The ledger after expired task `id` went to `new_assignee`: the task
    /// is assigned afresh, and its id moves to the end of the assignment
    /// order, so that it leaves the old assignee's index for the new one's.
    pub open spec fn reassigned(self, id: u64, new_assignee: AccountId) -> LedgerView {
        LedgerView {
            assignment_order: without(self.assignment_order, id).push(id),
            ..self.with_task(
                id,
                Task {
                    assignee: Some(new_assignee),
                    status: TaskStatus::Assigned,
                    completed_at: None,
                    creator_approved: false,
                    assignee_approved: false,
                    ..self.task(id)
                },
            )
        }
    }

    /// Which guard of `withdraw_platform_fees` refuses.
    pub open spec fn withdraw_error(self, who: Seq<char>) -> Option<TaskError> {
        if self.config is None {
            Some(TaskError::NotInitialized)
        } else if !self.is_deployer(who) {
            Some(TaskError::NotDeployer)
        } else if self.platform_fees <= 0 {
            Some(TaskError::NoFeesToWithdraw)
        } else {
            None
        }
    }

    /// The ledger after the deployer withdrew every accumulated fee.
    pub open spec fn fees_withdrawn(self) -> LedgerView {
        LedgerView { platform_fees: 0, withdrawn: self.withdrawn + self.platform_fees, ..self }
    }

    /// The id that the next task will get.
    pub open spec fn next_id(self) -> u64 {
        (self.tasks.len() + 1) as u64
    }

    /// The ledger after a new task `t` went into escrow.
    pub open spec fn created(self, t: Task) -> LedgerView {
        LedgerView {
            tasks: self.tasks.push(t),
            assignment_order: self.assignment_order.push(t.id),
            funded: self.funded + t.funding_amount,
            ..self
        }
    }
}

/// The record of a task as it is created: assigned, nothing signed off.
pub open spec fn fresh_task(
    id: u64,
    title: String,
    description: String,
    github_link: Option<String>,
    funding_amount: i128,
    deadline: u64,
    creator: AccountId,
    assignee: AccountId,
    now: u64,
) -> Task {
    Task {
        id,
        title,
        description,
        github_link,
        funding_amount,
        deadline,
        creator,
        assignee: Some(assignee),
        status: TaskStatus::Assigned,
        created_at: now,
        completed_at: None,
        creator_approved: false,
        assignee_approved: false,
    }
}

/// The ledger that `TaskMaster::restore` builds from stored parts: nothing
/// paid out, refunded or withdrawn yet on its books, so that what it holds
/// is what was put in.
pub open spec fn restored(
    config: Option<Config>,
    tasks: Seq<Task>,
    assignment_order: Seq<u64>,
    platform_fees: i128,
) -> LedgerView {
    LedgerView {
        config,
        tasks,
        assignment_order,
        platform_fees: platform_fees as int,
        funded: held_sum(tasks) + platform_fees,
        paid_out: 0,
        refunded: 0,
        withdrawn: 0,
    }
}

/// `order` lists each of the ids `1..=n` exactly once.
pub open spec fn lists_each_id_once(order: Seq<u64>, n: nat) -> bool {
    &&& order.no_duplicates()
    &&& forall|k: int| 0 <= k < order.len() ==> 1 <= #[trigger] order[k] <= n
    &&& forall|id: u64| 1 <= id <= n ==> #[trigger] order.contains(id)
}

/// Whether `order` lists each of the ids `1..=n` exactly once.
fn check_order(order: &Vec<u64>, n: usize) -> (b: bool)
    ensures
        b == lists_each_id_once(order@, n as nat),
{
    let mut seen: Vec<bool> = Vec::new();
    let mut j: usize = 0;
    while j < n
        invariant
            j <= n,
            seen@.len() == j,
            forall|x: int| 0 <= x < j ==> !seen@[x],
        decreases n - j,
    {
        seen.push(false);
        j += 1;
    }
    let mut k: usize = 0;
    while k < order.len()
        invariant
            seen@.len() == n,
            k <= order.len(),
            forall|x: int| 0 <= x < k ==> 1 <= #[trigger] order@[x] <= n,
            order@.take(k as int).no_duplicates(),
            forall|x: int|
                0 <= x < n ==> (#[trigger] seen@[x] <==> order@.take(k as int).contains(
                    (x + 1) as u64,
                )),
        decreases order.len() - k,
    {
        let id = order[k];
        if id == 0 || id > n as u64 {
            return false;
        }
        let i = (id - 1) as usize;
        let ghost before = order@.take(k as int);
        let ghost after = order@.take(k + 1);
        assert(after == before.push(id));
        if seen[i] {
            proof {
                let w = choose|w: int| 0 <= w < before.len() && before[w] == id;
                assert(order@[w] == order@[k as int]);
            }
            return false;
        }
        seen.set(i, true);
        proof {
            assert(!before.contains(id));
            lemma_push_no_duplicates(before, id);
            assert forall|x: int| 0 <= x < n implies (#[trigger] seen@[x] <==> after.contains(
                (x + 1) as u64,
            )) by {
                if after.contains((x + 1) as u64) && x != i {
                    let w = choose|w: int| 0 <= w < after.len() && after[w] == (x + 1) as u64;
                    assert(w < before.len());
                    assert(before[w] == (x + 1) as u64);
                }
                if before.contains((x + 1) as u64) {
                    let w = choose|w: int| 0 <= w < before.len() && before[w] == (x + 1) as u64;
                    assert(after[w] == (x + 1) as u64);
                }
                if x == i {
                    assert(after[before.len() as int] == id);
                }
            }
        }
        k += 1;
    }
    proof {
        assert(order@.take(order.len() as int) =~= order@);
    }
    let mut x: usize = 0;
    while x < n
        invariant
            x <= n,
            seen@.len() == n,
            forall|y: int| 0 <= y < x ==> #[trigger] seen@[y],
            forall|y: int| 0 <= y < n ==> (#[trigger] seen@[y] <==> order@.contains((y + 1) as u64)),
        decreases n - x,
    {
        if !seen[x] {
            return false;
        }
        x += 1;
    }
    proof {
        assert forall|id: u64| 1 <= id <= n implies #[trigger] order@.contains(id) by {
            assert(seen@[id - 1]);
        }
    }
    true
}

impl TaskMaster {
    /// Rebuilds a ledger from its stored parts, as `config`, `tasks`,
    /// `assignment_order` and `get_platform_fees` give them; `None` unless
    /// the parts satisfy the ledger's invariant.
    pub fn restore(
        config: Option<Config>,
        tasks: Vec<Task>,
        assignment_order: Vec<u64>,
        platform_fees: i128,
    ) -> (r: Option<TaskMaster>)
        ensures
            r is Some <==> restored(config, tasks@, assignment_order@, platform_fees).wf(),
            r matches Some(l) ==> l@ == restored(config, tasks@, assignment_order@, platform_fees),
    {
        let ghost target = restored(config, tasks@, assignment_order@, platform_fees);
        if platform_fees < 0 {
            return None;
        }
        if config.is_none() && (tasks.len() > 0 || platform_fees != 0) {
            return None;
        }
        let mut k: usize = 0;
        while k < tasks.len()
            invariant
                k <= tasks@.len(),
                target == restored(config, tasks@, assignment_order@, platform_fees),
                forall|i: int| 0 <= i < k ==> (#[trigger] tasks@[i]).id == i + 1,
                forall|i: int| 0 <= i < k ==> (#[trigger] tasks@[i]).well_formed(),
            decreases tasks@.len() - k,
        {
            if tasks[k].id != k as u64 + 1 || !tasks[k].is_well_formed() {
                assert(!target.wf()) by {
                    if target.wf() {
                        assert(target.tasks[k as int].id == k + 1);
                        assert(target.tasks[k as int].well_formed());
                    }
                }
                return None;
            }
            k += 1;
        }
        if !check_order(&assignment_order, tasks.len()) {
            assert(!target.wf()) by {
                if target.wf() {
                    assert forall|k: int| 0 <= k < assignment_order@.len() implies 1
                        <= #[trigger] assignment_order@[k] <= tasks@.len() by {
                        assert(target.has_task(assignment_order@[k]));
                    }
                    assert forall|id: u64| 1 <= id <= tasks@.len() implies #[trigger] assignment_order@.contains(id) by {
                        assert(target.has_task(id));
                    }
                }
            }
            return None;
        }
        let l = TaskMaster {
            config,
            tasks,
            assignment_order,
            platform_fees,
            funded: Ghost(held_sum(tasks@) + platform_fees),
            paid_out: Ghost(0),
            refunded: Ghost(0),
            withdrawn: Ghost(0),
        };
        assert(l@ == target);
        Some(l)
    }

    /// The records, by id from 1.
    pub fn tasks(&self) -> (t: &Vec<Task>)
        ensures
            t@ == self@.tasks,
    {
        &self.tasks
    }

    /// Every task id, in the order in which the tasks were last assigned.
    pub fn assignment_order(&self) -> (o: &Vec<u64>)
        ensures
            o@ == self@.assignment_order,
    {
        &self.assignment_order
    }

    /// The position of task `task_id` among the records, if there is one.
    fn position(&self, task_id: u64) -> (r: Option<usize>)
        ensures
            r is Some <==> self@.has_task(task_id),
            r matches Some(i) ==> i == task_id - 1,
    {
        if task_id == 0 || task_id > self.tasks.len() as u64 {
            None
        } else {
            Some((task_id - 1) as usize)
        }
    }

    /// The invariant of the ledger.
    pub open spec fn wf(&self) -> bool {
        self@.wf()
    }

    /// An empty ledger that has not been initialized.
    pub fn new() -> (l: TaskMaster)
        ensures
            l.wf(),
            l@.config is None,
            l@.tasks.len() == 0,
            l@.assignment_order.len() == 0,
            l@.platform_fees == 0,
            l@.funded == 0,
            l@.paid_out == 0,
            l@.refunded == 0,
            l@.withdrawn == 0,
    {
        TaskMaster {
            config: None,
            tasks: Vec::new(),
            assignment_order: Vec::new(),
            platform_fees: 0,
            funded: Ghost(0),
            paid_out: Ghost(0),
            refunded: Ghost(0),
            withdrawn: Ghost(0),
        }
    }

    /// Fixes the token and the deployer, once.
    pub fn initialize(&mut self, token: AccountId, deployer: AccountId) -> (r: Result<(), TaskError>)
        requires
            old(self).wf(),
        ensures
            final(self).wf(),
            old(self)@.config is Some ==> r == Err::<(), TaskError>(TaskError::AlreadyInitialized)
                && final(self)@ == old(self)@,
            old(self)@.config is None ==> r is Ok && final(self)@ == (LedgerView {
                config: Some(Config { token, deployer }),
                ..old(self)@
            }),
    {
        if self.config.is_some() {
            return Err(TaskError::AlreadyInitialized);
        }
        self.config = Some(Config { token, deployer });
        Ok(())
    }

    /// Creates a task funded by `creator`, assigned to `assignee`, at time
    /// `now`, and returns its id. On success the caller moves
    /// `funding_amount` from `creator` into escrow, in the same unit of work.
    pub fn create_task(
        &mut self,
        creator: AccountId,
        title: String,
        description: String,
        github_link: Option<String>,
        funding_amount: i128,
        deadline: u64,
        assignee: AccountId,
        now: u64,
    ) -> (r: Result<u64, TaskError>)
        requires
            old(self).wf(),
        ensures
            final(self).wf(),
            old(self)@.create_error(title@, description@, funding_amount, deadline, now) matches Some(e)
                ==> r == Err::<u64, TaskError>(e) && final(self)@ == old(self)@,
            old(self)@.create_error(title@, description@, funding_amount, deadline, now) is None
                ==> r == Ok::<u64, TaskError>(old(self)@.next_id()) && final(self)@ == old(self)@.created(
                fresh_task(
                    old(self)@.next_id(),
                    title,
                    description,
                    github_link,
                    funding_amount,
                    deadline,
                    creator,
                    assignee,
                    now,
                ),
            ),
    {
        if title.as_str().is_empty() {
            return Err(TaskError::EmptyTitle);
        }
        if description.as_str().is_empty() {
            return Err(TaskError::EmptyDescription);
        }
        if funding_amount <= 0 {
            return Err(TaskError::NonPositiveFunding);
        }
        if deadline <= now {
            return Err(TaskError::DeadlineNotInFuture);
        }
        if self.config.is_none() {
            return Err(TaskError::NotInitialized);
        }
        let count = self.tasks.len() as u64;
        if count >= u64::MAX {
            return Err(TaskError::Overflow);
        }
        let id: u64 = count + 1;
        let task = Task {
            id,
            title,
            description,
            github_link,
            funding_amount,
            deadline,
            creator,
            assignee: Some(assignee),
            status: TaskStatus::Assigned,
            created_at: now,
            completed_at: None,
            creator_approved: false,
            assignee_approved: false,
        };
        let ghost before = self@;
        proof {
            lemma_held_sum_push(before.tasks, task);
        }
        self.tasks.push(task);
        self.assignment_order.push(id);
        self.funded = Ghost(self.funded@ + funding_amount);
        proof {
            let after = self@;
            assert(after.tasks =~= before.tasks.push(task));
            assert(forall|i: int| 0 <= i < before.tasks.len() ==> after.tasks[i] == before.tasks[i]);
            assert forall|k: int| 0 <= k < after.assignment_order.len() implies after.has_task(
                #[trigger] after.assignment_order[k],
            ) by {
                if k < before.assignment_order.len() {
                    assert(after.assignment_order[k] == before.assignment_order[k]);
                }
            }
            assert forall|x: u64| after.has_task(x) implies #[trigger] after.assignment_order.contains(x) by {
                if x == id {
                    assert(after.assignment_order[before.assignment_order.len() as int] == x);
                } else {
                    assert(before.assignment_order.contains(x));
                    let k = choose|k: int| 0 <= k < before.assignment_order.len() && before.assignment_order[k] == x;
                    assert(after.assignment_order[k] == x);
                }
            }
            assert(!before.assignment_order.contains(id)) by {
                if before.assignment_order.contains(id) {
                    let k = choose|k: int| 0 <= k < before.assignment_order.len() && before.assignment_order[k] == id;
                    assert(before.has_task(before.assignment_order[k]));
                }
            }
            assert(after.assignment_order =~= before.assignment_order.push(id));
            lemma_push_no_duplicates(before.assignment_order, id);
            assert(after == before.created(task));
        }
        Ok(id)
    }

    /// The assignee `caller` starts work on task `task_id`.
    pub fn start_task(&mut self, caller: &AccountId, task_id: u64) -> (r: Result<(), TaskError>)
        requires
            old(self).wf(),
        ensures
            final(self).wf(),
            old(self)@.start_error(caller@, task_id) matches Some(e) ==> r == Err::<(), TaskError>(e)
                && final(self)@ == old(self)@,
            old(self)@.start_error(caller@, task_id) is None ==> r is Ok && final(self)@ == old(
                self,
            )@.started(task_id),
    {
        let i = match self.position(task_id) {
            Some(i) => i,
            None => return Err(TaskError::TaskNotFound),
        };
        if !self.is_assignee(i, caller) {
            return Err(TaskError::NotAssignee);
        }
        if self.tasks[i].status != TaskStatus::Assigned {
            return Err(TaskError::InvalidState);
        }
        let ghost before = self@;
        self.tasks[i].status = TaskStatus::InProgress;
        proof {
            lemma_held_sum_update(before.tasks, i as int, self.tasks@[i as int]);
            assert(self@.tasks =~= before.started(task_id).tasks);
            self.lemma_same_ids(before);
        }
        Ok(())
    }

    /// `caller` is the assignee of the task at position `i`.
    fn is_assignee(&self, i: usize, caller: &AccountId) -> (b: bool)
        requires
            i < self@.tasks.len(),
        ensures
            b == self@.tasks[i as int].assigned_to(caller@),
    {
        match &self.tasks[i].assignee {
            Some(a) => a.eq(caller),
            None => false,
        }
    }

    /// After one record changed in place, keeping its id, the order and
    /// everything it refers to stay valid.
    proof fn lemma_same_ids(&self, before: LedgerView)
        requires
            before.wf(),
            self@.tasks.len() == before.tasks.len(),
            self@.assignment_order == before.assignment_order,
            forall|i: int| 0 <= i < self@.tasks.len() ==> (#[trigger] self@.tasks[i]).id == before.tasks[i].id,
        ensures
            forall|id: u64| self@.has_task(id) == before.has_task(id),
            forall|i: int| 0 <= i < self@.tasks.len() ==> (#[trigger] self@.tasks[i]).id == i + 1,
    {
    }

    /// The assignee `caller` marks task `task_id` complete at time `now`.
    pub fn complete_task(&mut self, caller: &AccountId, task_id: u64, now: u64) -> (r: Result<(), TaskError>)
        requires
            old(self).wf(),
        ensures
            final(self).wf(),
            old(self)@.complete_error(caller@, task_id, now) matches Some(e) ==> r == Err::<(), TaskError>(e)
                && final(self)@ == old(self)@,
            old(self)@.complete_error(caller@, task_id, now) is None ==> r is Ok && final(self)@ == old(
                self,
            )@.completed(task_id, now),
    {
        let i = match self.position(task_id) {
            Some(i) => i,
            None => return Err(TaskError::TaskNotFound),
        };
        if !self.is_assignee(i, caller) {
            return Err(TaskError::NotAssignee);
        }
        let status = self.tasks[i].status;
        if status == TaskStatus::Expired {
            return Err(TaskError::TaskExpired);
        }
        if status != TaskStatus::Assigned && status != TaskStatus::InProgress {
            return Err(TaskError::InvalidState);
        }
        if now > self.tasks[i].deadline {
            return Err(TaskError::TaskExpired);
        }
        let ghost before = self@;
        self.tasks[i].status = TaskStatus::Completed;
        self.tasks[i].assignee_approved = true;
        self.tasks[i].completed_at = Some(now);
        proof {
            lemma_held_sum_update(before.tasks, i as int, self.tasks@[i as int]);
            assert(self@.tasks =~= before.completed(task_id, now).tasks);
            self.lemma_same_ids(before);
        }
        Ok(())
    }

    /// The creator `caller` approves completed task `task_id`: the fee goes
    /// to the accumulator, and the returned payout, the funding less the fee,
    /// leaves escrow for the assignee.
    pub fn release_funds(&mut self, caller: &AccountId, task_id: u64) -> (r: Result<Payout, TaskError>)
        requires
            old(self).wf(),
        ensures
            final(self).wf(),
            old(self)@.release_error(caller@, task_id) matches Some(e) ==> r == Err::<Payout, TaskError>(e)
                && final(self)@ == old(self)@,
            old(self)@.release_error(caller@, task_id) is None ==> (r matches Ok(p) && final(self)@
                == old(self)@.released(task_id) && p.to == old(self)@.task(task_id).assignee->0
                && p.amount == payout_of(old(self)@.task(task_id).funding_amount as int)),
    {
        let i = match self.position(task_id) {
            Some(i) => i,
            None => return Err(TaskError::TaskNotFound),
        };
        if !self.tasks[i].creator.eq(caller) {
            return Err(TaskError::NotCreator);
        }
        if self.tasks[i].status != TaskStatus::Completed {
            return Err(TaskError::InvalidState);
        }
        if !self.tasks[i].assignee_approved {
            return Err(TaskError::NotMarkedComplete);
        }
        let funding = self.tasks[i].funding_amount;
        let fee = platform_fee(funding);
        let fees = match self.platform_fees.checked_add(fee) {
            Some(f) => f,
            None => return Err(TaskError::Overflow),
        };
        // Every record has an assignee (`Task::well_formed`), so this never refuses.
        let to = match &self.tasks[i].assignee {
            Some(a) => a.clone(),
            None => return Err(TaskError::NotAssignee),
        };
        let amount = funding - fee;
        let ghost before = self@;
        self.tasks[i].status = TaskStatus::FundsReleased;
        self.tasks[i].creator_approved = true;
        self.platform_fees = fees;
        self.paid_out = Ghost(self.paid_out@ + amount);
        proof {
            lemma_held_sum_update(before.tasks, i as int, self.tasks@[i as int]);
            assert(self@.tasks =~= before.released(task_id).tasks);
            self.lemma_same_ids(before);
        }
        Ok(Payout { to, amount })
    }

    /// The creator `caller` cancels open task `task_id`; the returned payout
    /// refunds the whole funding to the creator.
    pub fn cancel_task(&mut self, caller: &AccountId, task_id: u64) -> (r: Result<Payout, TaskError>)
        requires
            old(self).wf(),
        ensures
            final(self).wf(),
            old(self)@.cancel_error(caller@, task_id) matches Some(e) ==> r == Err::<Payout, TaskError>(e)
                && final(self)@ == old(self)@,
            old(self)@.cancel_error(caller@, task_id) is None ==> (r matches Ok(p) && final(self)@
                == old(self)@.cancelled(task_id) && p.to == old(self)@.task(task_id).creator
                && p.amount == old(self)@.task(task_id).funding_amount),
    {
        let i = match self.position(task_id) {
            Some(i) => i,
            None => return Err(TaskError::TaskNotFound),
        };
        if !self.tasks[i].creator.eq(caller) {
            return Err(TaskError::NotCreator);
        }
        let status = self.tasks[i].status;
        if status != TaskStatus::Assigned && status != TaskStatus::InProgress {
            return Err(TaskError::InvalidState);
        }
        Ok(self.refund(i, task_id))
    }

    /// The task at position `i`, open or expired, becomes `Cancelled`, and
    /// its whole funding goes back to its creator.
    fn refund(&mut self, i: usize, task_id: u64) -> (p: Payout)
        requires
            old(self).wf(),
            old(self)@.has_task(task_id),
            i == task_id - 1,
            old(self)@.task(task_id).status.is_open() || old(self)@.task(task_id).status
                == TaskStatus::Expired,
        ensures
            final(self).wf(),
            final(self)@ == old(self)@.cancelled(task_id),
            p.to == old(self)@.task(task_id).creator,
            p.amount == old(self)@.task(task_id).funding_amount,
    {
        let to = self.tasks[i].creator.clone();
        let amount = self.tasks[i].funding_amount;
        let ghost before = self@;
        self.tasks[i].status = TaskStatus::Cancelled;
        self.refunded = Ghost(self.refunded@ + amount);
        proof {
            lemma_held_sum_update(before.tasks, i as int, self.tasks@[i as int]);
            assert(self@.tasks =~= before.cancelled(task_id).tasks);
            self.lemma_same_ids(before);
        }
        Payout { to, amount }
    }

    /// Anyone marks open task `task_id` expired, once its deadline has
    /// passed at time `now`.
    pub fn mark_expired(&mut self, task_id: u64, now: u64) -> (r: Result<(), TaskError>)
        requires
            old(self).wf(),
        ensures
            final(self).wf(),
            old(self)@.expire_error(task_id, now) matches Some(e) ==> r == Err::<(), TaskError>(e)
                && final(self)@ == old(self)@,
            old(self)@.expire_error(task_id, now) is None ==> r is Ok && final(self)@ == old(
                self,
            )@.expired(task_id),
    {
        let i = match self.position(task_id) {
            Some(i) => i,
            None => return Err(TaskError::TaskNotFound),
        };
        let status = self.tasks[i].status;
        if status != TaskStatus::Assigned && status != TaskStatus::InProgress {
            return Err(TaskError::InvalidState);
        }
        if now <= self.tasks[i].deadline {
            return Err(TaskError::DeadlineNotPassed);
        }
        let ghost before = self@;
        self.tasks[i].status = TaskStatus::Expired;
        proof {
            lemma_held_sum_update(before.tasks, i as int, self.tasks@[i as int]);
            assert(self@.tasks =~= before.expired(task_id).tasks);
            self.lemma_same_ids(before);
        }
        Ok(())
    }

    /// The creator `caller` takes back the funding of expired task
    /// `task_id`, which becomes `Cancelled`.
    pub fn reclaim_expired_funds(&mut self, caller: &AccountId, task_id: u64) -> (r: Result<Payout, TaskError>)
        requires
            old(self).wf(),
        ensures
            final(self).wf(),
            old(self)@.reclaim_error(caller@, task_id) matches Some(e) ==> r == Err::<Payout, TaskError>(e)
                && final(self)@ == old(self)@,
            old(self)@.reclaim_error(caller@, task_id) is None ==> (r matches Ok(p) && final(self)@
                == old(self)@.cancelled(task_id) && p.to == old(self)@.task(task_id).creator
                && p.amount == old(self)@.task(task_id).funding_amount),
    {
        let i = match self.position(task_id) {
            Some(i) => i,
            None => return Err(TaskError::TaskNotFound),
        };
        if !self.tasks[i].creator.eq(caller) {
            return Err(TaskError::NotCreator);
        }
        if self.tasks[i].status != TaskStatus::Expired {
            return Err(TaskError::NotExpired);
        }
        Ok(self.refund(i, task_id))
    }

    /// The creator `caller` hands expired task `task_id` to `new_assignee`.
    pub fn reassign_task(&mut self, caller: &AccountId, task_id: u64, new_assignee: AccountId) -> (r: Result<(), TaskError>)
        requires
            old(self).wf(),
        ensures
            final(self).wf(),
            old(self)@.reassign_error(caller@, task_id) matches Some(e) ==> r == Err::<(), TaskError>(e)
                && final(self)@ == old(self)@,
            old(self)@.reassign_error(caller@, task_id) is None ==> r is Ok && final(self)@ == old(
                self,
            )@.reassigned(task_id, new_assignee),
    {
        let i = match self.position(task_id) {
            Some(i) => i,
            None => return Err(TaskError::TaskNotFound),
        };
        if !self.tasks[i].creator.eq(caller) {
            return Err(TaskError::NotCreator);
        }
        if self.tasks[i].status != TaskStatus::Expired {
            return Err(TaskError::NotExpired);
        }
        let ghost before = self@;
        let mut order = without_id(&self.assignment_order, task_id);
        order.push(task_id);
        self.assignment_order = order;
        self.tasks[i].assignee = Some(new_assignee);
        self.tasks[i].status = TaskStatus::Assigned;
        self.tasks[i].completed_at = None;
        self.tasks[i].creator_approved = false;
        self.tasks[i].assignee_approved = false;
        proof {
            lemma_held_sum_update(before.tasks, i as int, self.tasks@[i as int]);
            assert(self@.tasks =~= before.reassigned(task_id, new_assignee).tasks);
            let old_order = before.assignment_order;
            let kept = without(old_order, task_id);
            let after = self@;
            assert(after.assignment_order == kept.push(task_id));
            lemma_without_no_duplicates(old_order, task_id);
            lemma_without_contains(old_order, task_id, task_id);
            assert forall|k: int| 0 <= k < after.assignment_order.len() implies after.has_task(
                #[trigger] after.assignment_order[k],
            ) by {
                if k < kept.len() {
                    let y = kept[k];
                    assert(kept.contains(y));
                    lemma_without_contains(old_order, task_id, y);
                    let j = choose|j: int| 0 <= j < old_order.len() && old_order[j] == y;
                    assert(before.has_task(old_order[j]));
                }
            }
            assert forall|y: u64| after.has_task(y) implies #[trigger] after.assignment_order.contains(y) by {
                if y == task_id {
                    assert(after.assignment_order[kept.len() as int] == y);
                } else {
                    assert(before.assignment_order.contains(y));
                    lemma_without_contains(old_order, task_id, y);
                    let j = choose|j: int| 0 <= j < kept.len() && kept[j] == y;
                    assert(after.assignment_order[j] == y);
                }
            }
            lemma_push_no_duplicates(kept, task_id);
        }
        Ok(())
    }

    /// The deployer `caller` takes every accumulated fee; the returned payout
    /// carries it from escrow to the deployer.
    pub fn withdraw_platform_fees(&mut self, caller: &AccountId) -> (r: Result<Payout, TaskError>)
        requires
            old(self).wf(),
        ensures
            final(self).wf(),
            old(self)@.withdraw_error(caller@) matches Some(e) ==> r == Err::<Payout, TaskError>(e)
                && final(self)@ == old(self)@,
            old(self)@.withdraw_error(caller@) is None ==> (r matches Ok(p) && final(self)@
                == old(self)@.fees_withdrawn() && p.to == old(self)@.config->0.deployer
                && p.amount == old(self)@.platform_fees),
    {
        let to = match &self.config {
            Some(c) => {
                if !c.deployer.eq(caller) {
                    return Err(TaskError::NotDeployer);
                }
                c.deployer.clone()
            },
            None => return Err(TaskError::NotInitialized),
        };
        if self.platform_fees <= 0 {
            return Err(TaskError::NoFeesToWithdraw);
        }
        let amount = self.platform_fees;
        self.platform_fees = 0;
        self.withdrawn = Ghost(self.withdrawn@ + amount);
        Ok(Payout { to, amount })
    }

    /// The record of task `task_id`.
    pub fn get_task(&self, task_id: u64) -> (r: Result<&Task, TaskError>)
        ensures
            !self@.has_task(task_id) ==> r == Err::<&Task, TaskError>(TaskError::TaskNotFound),
            self@.has_task(task_id) ==> (r matches Ok(t) && *t == self@.task(task_id)),
    {
        match self.position(task_id) {
            Some(i) => Ok(&self.tasks[i]),
            None => Err(TaskError::TaskNotFound),
        }
    }

    /// The ids of the tasks that `user` created, in the order of creation.
    pub fn get_user_tasks(&self, user: &AccountId) -> (r: Vec<u64>)
        ensures
            r@ == self@.created_by(user@),
    {
        let mut r: Vec<u64> = Vec::new();
        let mut k: usize = 0;
        while k < self.tasks.len()
            invariant
                k <= self@.tasks.len(),
                r@ == created_ids(self@.tasks.take(k as int), user@),
            decreases self@.tasks.len() - k,
        {
            proof {
                assert(self@.tasks.take(k + 1).drop_last() =~= self@.tasks.take(k as int));
            }
            if self.tasks[k].creator.eq(user) {
                r.push(self.tasks[k].id);
            }
            k += 1;
        }
        proof {
            assert(self@.tasks.take(self@.tasks.len() as int) =~= self@.tasks);
        }
        r
    }

    /// The ids of the tasks currently assigned to `user`, in the order in
    /// which they were assigned to them.
    pub fn get_assigned_tasks(&self, user: &AccountId) -> (r: Vec<u64>)
        ensures
            r@ == self@.assigned_to(user@),
    {
        let mut r: Vec<u64> = Vec::new();
        let mut k: usize = 0;
        let n = self.tasks.len() as u64;
        while k < self.assignment_order.len()
            invariant
                k <= self@.assignment_order.len(),
                n == self@.tasks.len(),
                self@.tasks.len() <= usize::MAX,
                r@ == assigned_ids(self@.assignment_order.take(k as int), self@.tasks, user@),
            decreases self@.assignment_order.len() - k,
        {
            let id = self.assignment_order[k];
            proof {
                assert(self@.assignment_order.take(k + 1).drop_last() =~= self@.assignment_order.take(
                    k as int,
                ));
            }
            if 1 <= id && id <= n {
                let i = (id - 1) as usize;
                assert(i == id - 1);
                if self.is_assignee(i, user) {
                    r.push(id);
                }
            }
            k += 1;
        }
        proof {
            assert(self@.assignment_order.take(self@.assignment_order.len() as int)
                =~= self@.assignment_order);
        }
        r
    }

    /// How many tasks were ever created.
    pub fn get_task_count(&self) -> (n: u64)
        ensures
            n == self@.tasks.len(),
    {
        self.tasks.len() as u64
    }

    /// The platform fees accumulated and not yet withdrawn.
    pub fn get_platform_fees(&self) -> (f: i128)
        ensures
            f == self@.platform_fees,
    {
        self.platform_fees
    }

    /// The configuration, once `initialize` has fixed it.
    pub fn config(&self) -> (c: Option<&Config>)
        ensures
            c matches Some(x) ==> self@.config == Some(*x),
            c is None <==> self@.config is None,
    {
        self.config.as_ref()
    }
}

/// A copy of `order` without `x`, the rest in order.
fn without_id(order: &Vec<u64>, x: u64) -> (r: Vec<u64>)
    ensures
        r@ == without(order@, x),
{
    let mut r: Vec<u64> = Vec::new();
    let mut k: usize = 0;
    while k < order.len()
        invariant
            k <= order.len(),
            r@ == without(order@.take(k as int), x),
        decreases order.len() - k,
    {
        let y = order[k];
        proof {
            assert(order@.take(k + 1).drop_last() =~= order@.take(k as int));
        }
        if y != x {
            r.push(y);
        }
        k += 1;
    }
    proof {
        assert(order@.take(order.len() as int) =~= order@);
    }
    r
}

} // verus!
