//! The two secondary indexes of the ledger, by creator and by assignee, as
//! functions of the task records and of the order in which tasks were
//! assigned; and the amount that the records hold in escrow.

use vstd::prelude::*;
use crate::task::Task;

verus! {

/// The ids of the tasks that `who` created, in the order of creation.
pub open spec fn created_ids(tasks: Seq<Task>, who: Seq<char>) -> Seq<u64>
    decreases tasks.len(),
{
    if tasks.len() == 0 {
        Seq::empty()
    } else {
        let earlier = created_ids(tasks.drop_last(), who);
        if tasks.last().creator@ == who {
            earlier.push(tasks.last().id)
        } else {
            earlier
        }
    }
}

/// Task `id` exists among `tasks` (ids count from 1) and `who` is its
/// current assignee.
pub open spec fn is_assigned(tasks: Seq<Task>, id: u64, who: Seq<char>) -> bool {
    1 <= id <= tasks.len() && tasks[id - 1].assigned_to(who)
}

/// The ids of the tasks currently assigned to `who`, in the order in which
/// they were (last) assigned.
pub open spec fn assigned_ids(order: Seq<u64>, tasks: Seq<Task>, who: Seq<char>) -> Seq<u64>
    decreases order.len(),
{
    if order.len() == 0 {
        Seq::empty()
    } else {
        let earlier = assigned_ids(order.drop_last(), tasks, who);
        if is_assigned(tasks, order.last(), who) {
            earlier.push(order.last())
        } else {
            earlier
        }
    }
}

/// `s` with every occurrence of `x` taken out, the rest in order.
pub open spec fn without(s: Seq<u64>, x: u64) -> Seq<u64>
    decreases s.len(),
{
    if s.len() == 0 {
        Seq::empty()
    } else if s.last() == x {
        without(s.drop_last(), x)
    } else {
        without(s.drop_last(), x).push(s.last())
    }
}

/// The total that the records still hold in escrow.
pub open spec fn held_sum(tasks: Seq<Task>) -> int
    decreases tasks.len(),
{
    if tasks.len() == 0 {
        0
    } else {
        held_sum(tasks.drop_last()) + tasks.last().held()
    }
}

pub proof fn lemma_created_ids_push(tasks: Seq<Task>, t: Task, who: Seq<char>)
    ensures
        created_ids(tasks.push(t), who) == if t.creator@ == who {
            created_ids(tasks, who).push(t.id)
        } else {
            created_ids(tasks, who)
        },
{
    assert(tasks.push(t).drop_last() =~= tasks);
}

/// Replacing a record by one with the same creator and id leaves every
/// creator's index as it was.
pub proof fn lemma_created_ids_update(tasks: Seq<Task>, i: int, t: Task, who: Seq<char>)
    requires
        0 <= i < tasks.len(),
        t.creator == tasks[i].creator,
        t.id == tasks[i].id,
    ensures
        created_ids(tasks.update(i, t), who) == created_ids(tasks, who),
    decreases tasks.len(),
{
    let u = tasks.update(i, t);
    if i == tasks.len() - 1 {
        assert(u.drop_last() =~= tasks.drop_last());
    } else {
        assert(u.drop_last() =~= tasks.drop_last().update(i, t));
        lemma_created_ids_update(tasks.drop_last(), i, t, who);
    }
}

/// The index of `who` depends on the records only through who is assigned
/// to the ids that `order` lists.
pub proof fn lemma_assigned_ids_frame(
    order: Seq<u64>,
    tasks1: Seq<Task>,
    tasks2: Seq<Task>,
    who: Seq<char>,
)
    requires
        forall|k: int|
            0 <= k < order.len() ==> is_assigned(tasks1, #[trigger] order[k], who) == is_assigned(
                tasks2,
                order[k],
                who,
            ),
    ensures
        assigned_ids(order, tasks1, who) == assigned_ids(order, tasks2, who),
    decreases order.len(),
{
    if order.len() > 0 {
        let rest = order.drop_last();
        assert forall|k: int| 0 <= k < rest.len() implies is_assigned(
            tasks1,
            #[trigger] rest[k],
            who,
        ) == is_assigned(tasks2, rest[k], who) by {
            assert(rest[k] == order[k]);
        }
        lemma_assigned_ids_frame(rest, tasks1, tasks2, who);
        assert(is_assigned(tasks1, order[order.len() - 1], who) == is_assigned(
            tasks2,
            order[order.len() - 1],
            who,
        ));
    }
}

pub proof fn lemma_assigned_ids_push(order: Seq<u64>, x: u64, tasks: Seq<Task>, who: Seq<char>)
    ensures
        assigned_ids(order.push(x), tasks, who) == if is_assigned(tasks, x, who) {
            assigned_ids(order, tasks, who).push(x)
        } else {
            assigned_ids(order, tasks, who)
        },
{
    assert(order.push(x).drop_last() =~= order);
}

/// Every id in an assignee's index is listed in `order` and assigned to them.
pub proof fn lemma_assigned_ids_members(order: Seq<u64>, tasks: Seq<Task>, who: Seq<char>, x: u64)
    requires
        assigned_ids(order, tasks, who).contains(x),
    ensures
        order.contains(x),
        is_assigned(tasks, x, who),
    decreases order.len(),
{
    let rest = order.drop_last();
    let earlier = assigned_ids(rest, tasks, who);
    if earlier.contains(x) {
        lemma_assigned_ids_members(rest, tasks, who, x);
        let k = choose|k: int| 0 <= k < rest.len() && rest[k] == x;
        assert(order[k] == x);
    } else {
        let e = assigned_ids(order, tasks, who);
        let k = choose|k: int| 0 <= k < e.len() && e[k] == x;
        assert(is_assigned(tasks, order.last(), who));
        assert(e == earlier.push(order.last()));
        assert(k == earlier.len());
        assert(order[order.len() - 1] == x);
    }
}

/// `without(s, x)` holds exactly the elements of `s` other than `x`.
pub proof fn lemma_without_contains(s: Seq<u64>, x: u64, y: u64)
    ensures
        without(s, x).contains(y) <==> (s.contains(y) && y != x),
    decreases s.len(),
{
    if s.len() > 0 {
        let rest = s.drop_last();
        lemma_without_contains(rest, x, y);
        if rest.contains(y) {
            let k = choose|k: int| 0 <= k < rest.len() && rest[k] == y;
            assert(s[k] == y);
        }
        if s.contains(y) && !rest.contains(y) {
            let k = choose|k: int| 0 <= k < s.len() && s[k] == y;
            if k < rest.len() {
                assert(rest[k] == y);
            }
            assert(s.last() == y);
        }
        if s.last() != x {
            let w = without(rest, x);
            assert(w.push(s.last())[w.len() as int] == s.last());
            if w.push(s.last()).contains(y) {
                let k = choose|k: int| 0 <= k < w.len() + 1 && w.push(s.last())[k] == y;
                if k < w.len() {
                    assert(w[k] == y);
                }
            }
            if w.contains(y) {
                let k = choose|k: int| 0 <= k < w.len() && w[k] == y;
                assert(w.push(s.last())[k] == y);
            }
        }
    }
}

/// Appending an element that is not yet there keeps a sequence free of
/// duplicates.
pub proof fn lemma_push_no_duplicates(s: Seq<u64>, x: u64)
    requires
        s.no_duplicates(),
        !s.contains(x),
    ensures
        s.push(x).no_duplicates(),
{
    let t = s.push(x);
    assert forall|i: int, j: int|
        0 <= i < t.len() && 0 <= j < t.len() && i != j implies #[trigger] t[i] != #[trigger] t[j] by {
        if i < s.len() && j < s.len() {
            assert(t[i] == s[i] && t[j] == s[j]);
        } else if i < s.len() {
            assert(s.contains(t[i]));
        } else {
            assert(s.contains(t[j]));
        }
    }
}

/// Taking out an element keeps a sequence free of duplicates.
pub proof fn lemma_without_no_duplicates(s: Seq<u64>, x: u64)
    requires
        s.no_duplicates(),
    ensures
        without(s, x).no_duplicates(),
    decreases s.len(),
{
    if s.len() > 0 {
        let rest = s.drop_last();
        assert(rest.no_duplicates());
        lemma_without_no_duplicates(rest, x);
        if s.last() != x {
            let w = without(rest, x);
            lemma_without_contains(rest, x, s.last());
            assert(!rest.contains(s.last())) by {
                if rest.contains(s.last()) {
                    let k = choose|k: int| 0 <= k < rest.len() && rest[k] == s.last();
                    assert(s[k] == s[s.len() - 1]);
                }
            }
            lemma_push_no_duplicates(w, s.last());
        }
    }
}

/// Replacing one record changes the escrowed total by the difference of
/// what the two records hold.
pub proof fn lemma_held_sum_update(tasks: Seq<Task>, i: int, t: Task)
    requires
        0 <= i < tasks.len(),
    ensures
        held_sum(tasks.update(i, t)) == held_sum(tasks) - tasks[i].held() + t.held(),
    decreases tasks.len(),
{
    let u = tasks.update(i, t);
    if i == tasks.len() - 1 {
        assert(u.drop_last() =~= tasks.drop_last());
    } else {
        assert(u.drop_last() =~= tasks.drop_last().update(i, t));
        lemma_held_sum_update(tasks.drop_last(), i, t);
    }
}

pub proof fn lemma_held_sum_push(tasks: Seq<Task>, t: Task)
    ensures
        held_sum(tasks.push(t)) == held_sum(tasks) + t.held(),
{
    assert(tasks.push(t).drop_last() =~= tasks);
}

} // verus!
