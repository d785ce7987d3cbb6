//! Properties of the ledger that relate its operations, proved over the
//! outcomes and guards that the operations' contracts are stated in.

use vstd::prelude::*;
use crate::fee::{fee_of, payout_of};
use crate::index::{
    held_sum, is_assigned, lemma_assigned_ids_frame, lemma_assigned_ids_members,
    lemma_assigned_ids_push, lemma_created_ids_push, lemma_created_ids_update,
    lemma_held_sum_update, lemma_without_contains, without,
};
use crate::ledger::{fresh_task, LedgerView};
use crate::task::{AccountId, Task, TaskStatus};

verus! {

/// A task is only ever created with a positive funding and a deadline after
/// its creation time; a request that lacks either is refused.
pub proof fn lemma_creation_validity(
    l: LedgerView,
    creator: AccountId,
    title: String,
    description: String,
    github_link: Option<String>,
    funding_amount: i128,
    deadline: u64,
    assignee: AccountId,
    now: u64,
)
    requires
        l.wf(),
    ensures
        l.create_error(title@, description@, funding_amount, deadline, now) is None ==> ({
            let t = fresh_task(
                l.next_id(),
                title,
                description,
                github_link,
                funding_amount,
                deadline,
                creator,
                assignee,
                now,
            );
            &&& t.funding_amount > 0
            &&& t.deadline > t.created_at
            &&& t.well_formed()
        }),
        funding_amount <= 0 || deadline <= now ==> l.create_error(
            title@,
            description@,
            funding_amount,
            deadline,
            now,
        ) is Some,
{
}

/// Value is conserved: what the ledger holds in escrow (the funding of every
/// unsettled task and the accumulated fees), together with everything paid
/// to assignees, refunded to creators and withdrawn by the deployer, is what
/// creators put in.
pub proof fn lemma_value_conserved(l: LedgerView)
    requires
        l.wf(),
    ensures
        held_sum(l.tasks) + l.platform_fees + l.paid_out + l.refunded + l.withdrawn == l.funded,
{
}

/// Each operation changes the escrowed amount by exactly the value it moves:
/// creation adds the funding, a release removes the assignee's payout (the
/// fee stays), a refund removes the whole funding, a withdrawal removes the
/// fees, and the other transitions move nothing.
pub proof fn lemma_escrow_moves_with_value(l: LedgerView, id: u64, new_assignee: AccountId, now: u64)
    requires
        l.wf(),
        l.has_task(id),
    ensures
        l.task(id).status == TaskStatus::Assigned ==> l.started(id).escrow() == l.escrow(),
        l.task(id).status.is_open() ==> l.completed(id, now).escrow() == l.escrow(),
        l.task(id).status.is_open() ==> l.expired(id).escrow() == l.escrow(),
        l.task(id).status == TaskStatus::Expired ==> l.reassigned(id, new_assignee).escrow()
            == l.escrow(),
        l.task(id).status == TaskStatus::Completed ==> l.released(id).escrow() == l.escrow()
            - payout_of(l.task(id).funding_amount as int),
        l.task(id).status.is_open() || l.task(id).status == TaskStatus::Expired ==> l.cancelled(
            id,
        ).escrow() == l.escrow() - l.task(id).funding_amount,
        l.fees_withdrawn().escrow() == l.escrow() - l.platform_fees,
{
    let i = id - 1;
    let t = l.task(id);
    lemma_held_sum_update(l.tasks, i, l.started(id).tasks[i]);
    lemma_held_sum_update(l.tasks, i, l.completed(id, now).tasks[i]);
    lemma_held_sum_update(l.tasks, i, l.expired(id).tasks[i]);
    lemma_held_sum_update(l.tasks, i, l.reassigned(id, new_assignee).tasks[i]);
    lemma_held_sum_update(l.tasks, i, l.released(id).tasks[i]);
    lemma_held_sum_update(l.tasks, i, l.cancelled(id).tasks[i]);
}

/// Once a task's funds are released or it is cancelled, every operation on
/// it is refused, whoever calls and whenever: its outcome is settled and is
/// exactly one of the two.
pub proof fn lemma_settled_task_is_final(l: LedgerView, id: u64, who: Seq<char>, now: u64)
    requires
        l.wf(),
        l.has_task(id),
        l.task(id).status.is_terminal(),
    ensures
        l.start_error(who, id) is Some,
        l.complete_error(who, id, now) is Some,
        l.release_error(who, id) is Some,
        l.cancel_error(who, id) is Some,
        l.expire_error(id, now) is Some,
        l.reclaim_error(who, id) is Some,
        l.reassign_error(who, id) is Some,
        !(l.task(id).status == TaskStatus::FundsReleased && l.task(id).status
            == TaskStatus::Cancelled),
{
}

/// Every task that is not settled can still be settled by its creator: an
/// open task by cancelling it, an expired one by reclaiming its funds, a
/// completed one by releasing them (as long as the fee accumulator has room
/// for the fee).
pub proof fn lemma_settlement_reachable(l: LedgerView, id: u64)
    requires
        l.wf(),
        l.has_task(id),
        !l.task(id).status.is_terminal(),
        l.task(id).status == TaskStatus::Completed ==> l.platform_fees + fee_of(
            l.task(id).funding_amount as int,
        ) <= i128::MAX,
    ensures
        l.task(id).status.is_open() ==> l.cancel_error(l.task(id).creator@, id) is None
            && l.cancelled(id).task(id).status == TaskStatus::Cancelled,
        l.task(id).status == TaskStatus::Completed ==> l.release_error(l.task(id).creator@, id) is None
            && l.released(id).task(id).status == TaskStatus::FundsReleased,
        l.task(id).status == TaskStatus::Expired ==> l.reclaim_error(l.task(id).creator@, id) is None
            && l.cancelled(id).task(id).status == TaskStatus::Cancelled,
{
    assert(l.tasks[id - 1].well_formed());
}

/// `Expired` is never where a task ends: its creator can always reclaim the
/// funds (the task becomes `Cancelled`) or hand it to a new assignee (it
/// becomes `Assigned`).
pub proof fn lemma_expired_is_not_terminal(l: LedgerView, id: u64, new_assignee: AccountId)
    requires
        l.wf(),
        l.has_task(id),
        l.task(id).status == TaskStatus::Expired,
    ensures
        !l.task(id).status.is_terminal(),
        l.reclaim_error(l.task(id).creator@, id) is None,
        l.cancelled(id).task(id).status == TaskStatus::Cancelled,
        l.reassign_error(l.task(id).creator@, id) is None,
        l.reassigned(id, new_assignee).task(id).status == TaskStatus::Assigned,
{
}

/// Funds are released only from `Completed`, after the assignee signed off,
/// at the creator's request; the fee is three percent of the funding rounded
/// down, and fee and payout add up to the funding.
pub proof fn lemma_release_rules(l: LedgerView, who: Seq<char>, id: u64)
    requires
        l.wf(),
        l.release_error(who, id) is None,
    ensures
        l.task(id).status == TaskStatus::Completed,
        l.task(id).assignee_approved,
        l.task(id).creator@ == who,
        l.released(id).platform_fees == l.platform_fees + l.task(id).funding_amount * 3 / 100,
        fee_of(l.task(id).funding_amount as int) + payout_of(l.task(id).funding_amount as int)
            == l.task(id).funding_amount,
        l.released(id).task(id).status == TaskStatus::FundsReleased,
{
}

/// Cancelling an open task and reclaiming an expired one both refund the
/// whole funding to the creator and take no fee.
pub proof fn lemma_refunds_take_no_fee(l: LedgerView, who: Seq<char>, id: u64)
    requires
        l.wf(),
        l.cancel_error(who, id) is None || l.reclaim_error(who, id) is None,
    ensures
        l.cancelled(id).platform_fees == l.platform_fees,
        l.cancelled(id).paid_out == l.paid_out,
        l.cancelled(id).refunded == l.refunded + l.task(id).funding_amount,
        l.cancelled(id).task(id).status == TaskStatus::Cancelled,
{
}

/// A task is reassigned only from `Expired`, by its creator. Afterwards
/// neither party has signed off, there is no completion time, and the task's
/// id is in the new assignee's index and, when the assignee changed, no
/// longer in the old one's.
pub proof fn lemma_reassign_moves_index(
    l: LedgerView,
    who: Seq<char>,
    id: u64,
    new_assignee: AccountId,
)
    requires
        l.wf(),
        l.reassign_error(who, id) is None,
    ensures
        l.task(id).status == TaskStatus::Expired,
        l.task(id).creator@ == who,
        !l.reassigned(id, new_assignee).task(id).assignee_approved,
        !l.reassigned(id, new_assignee).task(id).creator_approved,
        l.reassigned(id, new_assignee).task(id).completed_at is None,
        l.reassigned(id, new_assignee).assigned_to(new_assignee@).contains(id),
        l.task(id).assignee->0@ != new_assignee@ ==> !l.reassigned(id, new_assignee).assigned_to(
            l.task(id).assignee->0@,
        ).contains(id),
{
    let after = l.reassigned(id, new_assignee);
    let kept = without(l.assignment_order, id);
    let old_who = l.task(id).assignee->0@;
    assert(after.task(id).assigned_to(new_assignee@));
    lemma_assigned_ids_push(kept, id, after.tasks, new_assignee@);
    let mine = after.assigned_to(new_assignee@);
    assert(mine[mine.len() - 1] == id);
    lemma_assigned_ids_push(kept, id, after.tasks, old_who);
    if old_who != new_assignee@ && after.assigned_to(old_who).contains(id) {
        lemma_assigned_ids_members(kept, after.tasks, old_who, id);
        lemma_without_contains(l.assignment_order, id, id);
    }
}

/// Only the deployer can withdraw fees, and only when there are some; a
/// withdrawal empties the accumulator and moves all of it to the deployer's
/// side of the books.
pub proof fn lemma_withdraw_rules(l: LedgerView, who: Seq<char>)
    requires
        l.wf(),
    ensures
        !l.is_deployer(who) ==> l.withdraw_error(who) is Some,
        l.platform_fees == 0 ==> l.withdraw_error(who) is Some,
        l.withdraw_error(who) is None ==> l.fees_withdrawn().platform_fees == 0
            && l.fees_withdrawn().withdrawn == l.withdrawn + l.platform_fees,
{
}

/// Creating a task appends its id to its creator's index and to its
/// assignee's index, and leaves every other index as it was.
pub proof fn lemma_creation_updates_indexes(l: LedgerView, t: Task, who: Seq<char>)
    requires
        l.wf(),
        l.tasks.len() < u64::MAX,
        t.id == l.next_id(),
    ensures
        l.created(t).created_by(who) == if t.creator@ == who {
            l.created_by(who).push(t.id)
        } else {
            l.created_by(who)
        },
        l.created(t).assigned_to(who) == if t.assigned_to(who) {
            l.assigned_to(who).push(t.id)
        } else {
            l.assigned_to(who)
        },
{
    let after = l.created(t);
    lemma_created_ids_push(l.tasks, t, who);
    lemma_assigned_ids_push(l.assignment_order, t.id, after.tasks, who);
    assert(after.tasks[t.id - 1] == t);
    assert forall|k: int| 0 <= k < l.assignment_order.len() implies is_assigned(
        after.tasks,
        #[trigger] l.assignment_order[k],
        who,
    ) == is_assigned(l.tasks, l.assignment_order[k], who) by {
        let x = l.assignment_order[k];
        assert(l.has_task(x));
        assert(after.tasks[x - 1] == l.tasks[x - 1]);
    }
    lemma_assigned_ids_frame(l.assignment_order, after.tasks, l.tasks, who);
}

/// The creator index only ever grows: no operation but creation changes it.
pub proof fn lemma_creator_index_only_grows(
    l: LedgerView,
    id: u64,
    now: u64,
    new_assignee: AccountId,
    who: Seq<char>,
)
    requires
        l.wf(),
        l.has_task(id),
    ensures
        l.started(id).created_by(who) == l.created_by(who),
        l.completed(id, now).created_by(who) == l.created_by(who),
        l.released(id).created_by(who) == l.created_by(who),
        l.cancelled(id).created_by(who) == l.created_by(who),
        l.expired(id).created_by(who) == l.created_by(who),
        l.reassigned(id, new_assignee).created_by(who) == l.created_by(who),
        l.fees_withdrawn().created_by(who) == l.created_by(who),
{
    let i = id - 1;
    lemma_created_ids_update(l.tasks, i, l.started(id).tasks[i], who);
    lemma_created_ids_update(l.tasks, i, l.completed(id, now).tasks[i], who);
    lemma_created_ids_update(l.tasks, i, l.released(id).tasks[i], who);
    lemma_created_ids_update(l.tasks, i, l.cancelled(id).tasks[i], who);
    lemma_created_ids_update(l.tasks, i, l.expired(id).tasks[i], who);
    lemma_created_ids_update(l.tasks, i, l.reassigned(id, new_assignee).tasks[i], who);
}

/// Only reassignment changes who a task is assigned to: every other
/// operation leaves every assignee index as it was.
pub proof fn lemma_assignee_index_stable(l: LedgerView, id: u64, now: u64, who: Seq<char>)
    requires
        l.wf(),
        l.has_task(id),
    ensures
        l.started(id).assigned_to(who) == l.assigned_to(who),
        l.completed(id, now).assigned_to(who) == l.assigned_to(who),
        l.released(id).assigned_to(who) == l.assigned_to(who),
        l.cancelled(id).assigned_to(who) == l.assigned_to(who),
        l.expired(id).assigned_to(who) == l.assigned_to(who),
        l.fees_withdrawn().assigned_to(who) == l.assigned_to(who),
{
    let order = l.assignment_order;
    assert forall|k: int| 0 <= k < order.len() implies is_assigned(
        l.started(id).tasks,
        #[trigger] order[k],
        who,
    ) == is_assigned(l.tasks, order[k], who) && is_assigned(
        l.completed(id, now).tasks,
        order[k],
        who,
    ) == is_assigned(l.tasks, order[k], who) && is_assigned(l.released(id).tasks, order[k], who)
        == is_assigned(l.tasks, order[k], who) && is_assigned(l.cancelled(id).tasks, order[k], who)
        == is_assigned(l.tasks, order[k], who) && is_assigned(l.expired(id).tasks, order[k], who)
        == is_assigned(l.tasks, order[k], who) by {
        let x = order[k];
        assert(l.has_task(x));
    }
    lemma_assigned_ids_frame(order, l.started(id).tasks, l.tasks, who);
    lemma_assigned_ids_frame(order, l.completed(id, now).tasks, l.tasks, who);
    lemma_assigned_ids_frame(order, l.released(id).tasks, l.tasks, who);
    lemma_assigned_ids_frame(order, l.cancelled(id).tasks, l.tasks, who);
    lemma_assigned_ids_frame(order, l.expired(id).tasks, l.tasks, who);
}

} // verus!
