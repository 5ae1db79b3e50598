//! Streaks: named criteria sets evaluated against per-bucket user data, and
//! the continuity rule that extends, restarts or breaks a user's run of
//! consecutive achieved buckets.

use vstd::prelude::*;
use crate::UserPeriodData;
use crate::timeperiod::TimePeriod;
use crate::timeperiod::TimePeriodString;

verus! {

pub type StreakId = u64;

#[derive(Debug, Clone, Copy, PartialEq, Eq, Structural)]
pub enum StreakType {
    PRsOpened(u32),
    PRsMerged(u32),
    TotalScore(u32),
    AverageScoreGreaterThan(u32),
}

impl StreakType {
    /// Whether one criterion holds of a bucket's data. The average criterion
    /// is only meaningful once the bucket has at least one executed
    /// contribution.
    pub open spec fn spec_achieved(self, d: UserPeriodData) -> bool {
        match self {
            StreakType::PRsOpened(value) => d.prs_opened >= value,
            StreakType::PRsMerged(value) => d.prs_merged >= value,
            StreakType::TotalScore(score) => d.total_score >= score,
            StreakType::AverageScoreGreaterThan(score) => d.executed_prs > 0 && d.total_score
                / d.executed_prs > score,
        }
    }

    pub fn from_prs_opened(value: u32) -> (r: Self)
        ensures
            r == StreakType::PRsOpened(value),
    {
        Self::PRsOpened(value)
    }

    pub fn from_prs_merged(value: u32) -> (r: Self)
        ensures
            r == StreakType::PRsMerged(value),
    {
        Self::PRsMerged(value)
    }

    pub fn is_streak_achieved(&self, user_period_data: &UserPeriodData) -> (r: bool)
        requires
            *self is AverageScoreGreaterThan ==> user_period_data.executed_prs > 0,
        ensures
            r == self.spec_achieved(*user_period_data),
    {
        match self {
            Self::PRsOpened(value) => user_period_data.prs_opened >= *value,
            Self::PRsMerged(value) => user_period_data.prs_merged >= *value,
            Self::TotalScore(score) => user_period_data.total_score >= *score,
            Self::AverageScoreGreaterThan(score) => user_period_data.total_score
                / user_period_data.executed_prs > *score,
        }
    }
}

#[derive(Debug, Clone)]
pub struct Streak {
    pub id: StreakId,
    pub time_period: TimePeriod,
    pub streak_criterias: Vec<StreakType>,
    pub is_active: bool,
}

impl Streak {
    /// All criteria hold simultaneously of `d`.
    pub open spec fn spec_achieved(self, d: UserPeriodData) -> bool {
        forall|i: int|
            0 <= i < self.streak_criterias@.len() ==> (#[trigger] self.streak_criterias@[i]).spec_achieved(d)
    }

    /// The average criterion never has to divide by zero on `d`.
    pub open spec fn avg_safe(self, d: UserPeriodData) -> bool {
        d.executed_prs > 0 || (forall|i: int|
            0 <= i < self.streak_criterias@.len()
                ==> !((#[trigger] self.streak_criterias@[i]) is AverageScoreGreaterThan))
    }

    /// A streak needs at least one criterion and a bounded period.
    pub fn new(streak_id: u64, time_period: TimePeriod, streak_criterias: Vec<StreakType>) -> (r:
        Self)
        requires
            streak_criterias@.len() > 0,
            time_period != TimePeriod::AllTime,
        ensures
            r.id == streak_id,
            r.time_period == time_period,
            r.streak_criterias == streak_criterias,
            r.is_active,
    {
        Self { id: streak_id, time_period, streak_criterias, is_active: true }
    }

    pub fn is_streak_achieved(&self, user_period_data: &UserPeriodData) -> (r: bool)
        requires
            self.avg_safe(*user_period_data),
        ensures
            r == self.spec_achieved(*user_period_data),
    {
        let mut i: usize = 0;
        while i < self.streak_criterias.len()
            invariant
                self.avg_safe(*user_period_data),
                0 <= i <= self.streak_criterias@.len(),
                forall|k: int|
                    0 <= k < i ==> (#[trigger] self.streak_criterias@[k]).spec_achieved(
                        *user_period_data,
                    ),
            decreases self.streak_criterias@.len() - i,
        {
            if !self.streak_criterias[i].is_streak_achieved(user_period_data) {
                return false;
            }
            i = i + 1;
        }
        true
    }
}

/// A user's progress on one streak: the number of consecutive achieved
/// buckets, and the bucket in which it was last extended.
#[derive(Debug, Clone)]
pub struct StreakUserData {
    pub amount: u32,
    pub latest_time_string: TimePeriodString,
}

impl Default for StreakUserData {
    fn default() -> (r: Self)
        ensures
            r.amount == 0,
            r.latest_time_string@ == Seq::<char>::empty(),
    {
        Self { amount: 0, latest_time_string: String::new() }
    }
}

/// The continuity rule for the run length. `cur` and `prev` are the bucket
/// strings of the evaluation timestamp and of the bucket immediately before
/// it.
///
/// - Achieved and already counted for `cur`: unchanged.
/// - Achieved and last extended in exactly the preceding bucket: one more.
/// - Achieved after a gap (or for the first time): restart at one.
/// - Not achieved while the preceding bucket was the last extension: broken,
///   reset to zero.
/// - Not achieved otherwise: unchanged.
pub open spec fn spec_update_amount(
    amount: int,
    latest: Seq<char>,
    cur: Seq<char>,
    prev: Seq<char>,
    achieved: bool,
) -> int {
    if achieved {
        if latest == cur {
            amount
        } else if latest == prev {
            amount + 1
        } else {
            1
        }
    } else {
        if latest == prev {
            0
        } else {
            amount
        }
    }
}

/// The bucket recorded as the latest extension after an evaluation: moves to
/// `cur` exactly when the criteria were achieved.
pub open spec fn spec_update_latest(
    latest: Seq<char>,
    cur: Seq<char>,
    prev: Seq<char>,
    achieved: bool,
) -> Seq<char> {
    if achieved {
        cur
    } else {
        latest
    }
}

/// Apply the continuity rule. Returns `None` only when the extended run
/// length no longer fits in a `u32`.
pub fn update_streak(
    d: &StreakUserData,
    cur: &TimePeriodString,
    prev: &TimePeriodString,
    achieved: bool,
) -> (r: Option<StreakUserData>)
    ensures
        match r {
            Some(nd) => spec_update_amount(d.amount as int, d.latest_time_string@, cur@, prev@, achieved)
                == nd.amount as int && nd.latest_time_string@ == spec_update_latest(
                d.latest_time_string@,
                cur@,
                prev@,
                achieved,
            ),
            None => spec_update_amount(d.amount as int, d.latest_time_string@, cur@, prev@, achieved)
                > u32::MAX,
        },
{
    if achieved {
        if d.latest_time_string.eq(cur) {
            Some(StreakUserData { amount: d.amount, latest_time_string: cur.clone() })
        } else if d.latest_time_string.eq(prev) {
            if d.amount == u32::MAX {
                None
            } else {
                Some(StreakUserData { amount: d.amount + 1, latest_time_string: cur.clone() })
            }
        } else {
            Some(StreakUserData { amount: 1, latest_time_string: cur.clone() })
        }
    } else {
        if d.latest_time_string.eq(prev) {
            Some(StreakUserData { amount: 0, latest_time_string: d.latest_time_string.clone() })
        } else {
            Some(
                StreakUserData {
                    amount: d.amount,
                    latest_time_string: d.latest_time_string.clone(),
                },
            )
        }
    }
}

/// Streak continuity: achieving the criteria in three consecutive buckets
/// accumulates a run length of three, starting from any state that was not
/// already in or adjacent to the first bucket.
pub proof fn lemma_streak_continuity(
    amount0: int,
    latest0: Seq<char>,
    b0: Seq<char>,
    p0: Seq<char>,
    b1: Seq<char>,
    b2: Seq<char>,
)
    requires
        latest0 != b0,
        latest0 != p0,
        b0 != b1,
        b1 != b2,
    ensures
        ({
            let a1 = spec_update_amount(amount0, latest0, b0, p0, true);
            let l1 = spec_update_latest(latest0, b0, p0, true);
            let a2 = spec_update_amount(a1, l1, b1, b0, true);
            let l2 = spec_update_latest(l1, b1, b0, true);
            let a3 = spec_update_amount(a2, l2, b2, b1, true);
            a3 == 3
        }),
{
}

/// Streak continuity, broken run: skipping the bucket in between resets the
/// run length to one.
pub proof fn lemma_streak_skip_resets(
    amount0: int,
    latest0: Seq<char>,
    b0: Seq<char>,
    p0: Seq<char>,
    b1: Seq<char>,
    b2: Seq<char>,
)
    requires
        latest0 != b0,
        latest0 != p0,
        b0 != b1,
        b0 != b2,
    ensures
        ({
            // achieved in b0, then evaluated next in b2 whose previous bucket
            // is b1: the run restarts at one.
            let a1 = spec_update_amount(amount0, latest0, b0, p0, true);
            let l1 = spec_update_latest(latest0, b0, p0, true);
            let a2 = spec_update_amount(a1, l1, b2, b1, true);
            a2 == 1
        }),
{
}

} // verus!
