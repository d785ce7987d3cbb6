//! An escrow ledger for funded tasks: a creator funds a task for a worker,
//! and the funds are released (less a platform fee), refunded, or the task is
//! reassigned, according to a fixed state machine and its authorization rules.
//!
//! The ledger is a plain value. Whoever hosts it supplies the current time
//! and the identity that proved control of its address, and carries out the
//! value transfers that the operations report.

mod error;
mod fee;
mod index;
mod laws;
mod ledger;
mod task;

pub use error::{ErrorKind, TaskError};
pub use fee::{fee_of, payout_of, platform_fee, PLATFORM_FEE_PERCENT};
pub use index::{assigned_ids, created_ids, held_sum, is_assigned, without};
pub use laws::{
    lemma_assignee_index_stable, lemma_creation_updates_indexes, lemma_creation_validity,
    lemma_creator_index_only_grows, lemma_escrow_moves_with_value, lemma_expired_is_not_terminal,
    lemma_reassign_moves_index, lemma_refunds_take_no_fee, lemma_release_rules,
    lemma_settled_task_is_final, lemma_settlement_reachable, lemma_value_conserved,
    lemma_withdraw_rules,
};
pub use ledger::{fresh_task, lists_each_id_once, restored, Config, LedgerView, Payout, TaskMaster};
pub use task::{AccountId, Task, TaskStatus};
