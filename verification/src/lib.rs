//! Tracker for open-source contribution activity: comments on pull requests
//! become typed commands, commands drive an append-biased ledger of
//! per-contribution records, and confirmed work is folded into time-bucketed
//! per-user aggregates and streaks.

use vstd::prelude::*;

pub mod commands;
pub mod events;
pub mod github;
pub mod kv;
pub mod ledger;
pub mod messages;
pub mod migration;
pub mod streak;
pub mod text;
pub mod timeperiod;

verus! {

/// Per (user, time-bucket) aggregate of confirmed contribution activity.
/// All counters are non-decreasing within a bucket.
#[derive(Debug, Clone, Copy, PartialEq, Eq, Structural, Default)]
pub struct UserPeriodData {
    pub total_score: u32,
    pub executed_prs: u32,
    pub prs_opened: u32,
    pub prs_merged: u32,
}

} // verus!
