//! Schema migration: rebuild the per-period aggregates and every user's
//! streak progress from the executed records alone.
//!
//! The rebuild is a one-shot deterministic fold over all executed records —
//! never an incremental patch — so re-running it over the same records
//! produces identical output, and every author's `AllTime` bucket ends up
//! holding exactly the sum of that author's executed scores.

use vstd::prelude::*;
use crate::UserPeriodData;
use crate::kv::PairMap;
use crate::kv::StrMap;
use crate::ledger::Ledger;
use crate::ledger::LedgerError;
use crate::ledger::PRRecord;
use crate::ledger::all_periods_seq;
use crate::ledger::bump_ok;
use crate::ledger::fold_ok;
use crate::ledger::folded_buckets;
use crate::ledger::get_bucket;
use crate::ledger::spec_walk;
use crate::ledger::spec_walk_latest;
use crate::ledger::streak_map_updated;
use crate::ledger::zero_data;
use crate::streak::Streak;
use crate::timeperiod::TimePeriod;
use crate::timeperiod::lemma_time_string_not_alltime;
use crate::timeperiod::spec_time_string;

verus! {

/// A user known to the old schema.
#[derive(Debug)]
pub struct UserData {
    pub handle: String,
    pub total_prs_merged: u32,
    pub total_prs_opened: u32,
    pub account_id: Option<String>,
}

/// The stores of the previous schema. The monthly aggregates are discarded
/// and rebuilt per period; everything else carries over.
pub struct OldState {
    pub sloth: String,
    pub sloths: StrMap<UserData>,
    pub sloths_per_month: PairMap<u32>,
    pub organizations: Vec<String>,
    pub prs: StrMap<PRRecord>,
    pub executed_prs: StrMap<PRRecord>,
    pub excluded_prs: Vec<String>,
}

impl OldState {
    /// The old stores are maps, and every executed record carries both a
    /// score and a merge timestamp — that is what executed means.
    pub open spec fn wf(self) -> bool {
        &&& self.sloths.wf()
        &&& self.sloths_per_month.wf()
        &&& self.prs.wf()
        &&& self.executed_prs.wf()
        &&& forall|i: int|
            0 <= i < self.executed_prs.entries@.len() ==> (
            #[trigger] self.executed_prs.entries@[i]).1.score is Some
                && self.executed_prs.entries@[i].1.merged_at is Some
    }
}

/// The aggregates rebuilt from scratch: fold every executed record's score
/// into every period bucket of its author, in store order.
pub open spec fn spec_rebuild(entries: Seq<(String, PRRecord)>) -> Map<
    (Seq<char>, Seq<char>),
    UserPeriodData,
>
    decreases entries.len(),
{
    if entries.len() == 0 {
        Map::empty()
    } else {
        folded_buckets(
            spec_rebuild(entries.drop_last()),
            entries.last().1.author@,
            entries.last().1.merged_at->0,
            entries.last().1.score->0,
            all_periods_seq(),
        )
    }
}

/// No counter overflows anywhere along the rebuild.
pub open spec fn spec_rebuild_ok(entries: Seq<(String, PRRecord)>) -> bool
    decreases entries.len(),
{
    if entries.len() == 0 {
        true
    } else {
        spec_rebuild_ok(entries.drop_last()) && fold_ok(
            spec_rebuild(entries.drop_last()),
            entries.last().1.author@,
            entries.last().1.merged_at->0,
            entries.last().1.score->0,
            all_periods_seq(),
        )
    }
}

proof fn lemma_rebuild_ok_extends_contra(entries: Seq<(String, PRRecord)>, i: int)
    requires
        0 <= i <= entries.len(),
        !spec_rebuild_ok(entries.take(i)),
    ensures
        !spec_rebuild_ok(entries),
    decreases entries.len() - i,
{
    if i == entries.len() {
        assert(entries.take(i) =~= entries);
    } else {
        assert(entries.take(i + 1).drop_last() =~= entries.take(i));
        lemma_rebuild_ok_extends_contra(entries, i + 1);
    }
}

/// An author's executed scores, summed in store order.
pub open spec fn sum_scores(entries: Seq<(String, PRRecord)>, author: Seq<char>) -> int
    decreases entries.len(),
{
    if entries.len() == 0 {
        0
    } else {
        sum_scores(entries.drop_last(), author) + (if entries.last().1.author@ == author {
            entries.last().1.score->0 as int
        } else {
            0
        })
    }
}

/// Folding one record changes an author's `AllTime` total by exactly that
/// record's score, and the executed count by exactly one, when the author
/// matches — and not at all otherwise.
proof fn lemma_fold_alltime_total(
    m: Map<(Seq<char>, Seq<char>), UserPeriodData>,
    handle: Seq<char>,
    ts: u64,
    score: u64,
    author: Seq<char>,
)
    requires
        fold_ok(m, handle, ts, score, all_periods_seq()),
    ensures
        get_bucket(folded_buckets(m, handle, ts, score, all_periods_seq()), author, "all-time"@).total_score
            as int == get_bucket(m, author, "all-time"@).total_score as int + (if handle == author {
            score as int
        } else {
            0
        }),
        get_bucket(folded_buckets(m, handle, ts, score, all_periods_seq()), author, "all-time"@).executed_prs
            as int == get_bucket(m, author, "all-time"@).executed_prs as int + (if handle
            == author {
            1int
        } else {
            0
        }),
{
    let ps = all_periods_seq();
    let key = (author, "all-time"@);
    lemma_time_string_not_alltime(TimePeriod::Week, ts);
    lemma_time_string_not_alltime(TimePeriod::Month, ts);
    lemma_time_string_not_alltime(TimePeriod::Quarter, ts);
    lemma_time_string_not_alltime(TimePeriod::Year, ts);
    assert(ps.drop_last() =~= ps.take(4));
    assert(ps.take(4).drop_last() =~= ps.take(3));
    assert(ps.take(3).drop_last() =~= ps.take(2));
    assert(ps.take(2).drop_last() =~= ps.take(1));
    assert(ps.take(1).drop_last() =~= ps.take(0));
    assert(ps.take(0) =~= Seq::<TimePeriod>::empty());
    assert(spec_time_string(ps.last(), ts) == "all-time"@);
    let m0 = folded_buckets(m, handle, ts, score, ps.take(0));
    let m1 = folded_buckets(m, handle, ts, score, ps.take(1));
    let m2 = folded_buckets(m, handle, ts, score, ps.take(2));
    let m3 = folded_buckets(m, handle, ts, score, ps.take(3));
    let m4 = folded_buckets(m, handle, ts, score, ps.take(4));
    assert(m0 == m);
    assert(ps.take(1).last() == TimePeriod::Week);
    assert(ps.take(2).last() == TimePeriod::Month);
    assert(ps.take(3).last() == TimePeriod::Quarter);
    assert(ps.take(4).last() == TimePeriod::Year);
    assert((handle, spec_time_string(TimePeriod::Week, ts)) != key);
    assert((handle, spec_time_string(TimePeriod::Month, ts)) != key);
    assert((handle, spec_time_string(TimePeriod::Quarter, ts)) != key);
    assert((handle, spec_time_string(TimePeriod::Year, ts)) != key);
    assert(get_bucket(m1, author, "all-time"@) == get_bucket(m0, author, "all-time"@));
    assert(get_bucket(m2, author, "all-time"@) == get_bucket(m1, author, "all-time"@));
    assert(get_bucket(m3, author, "all-time"@) == get_bucket(m2, author, "all-time"@));
    assert(get_bucket(m4, author, "all-time"@) == get_bucket(m3, author, "all-time"@));
    if handle == author {
        let base = if m4.contains_key((handle, "all-time"@)) {
            m4[(handle, "all-time"@)]
        } else {
            zero_data()
        };
        assert(fold_ok(m, handle, ts, score, ps));
        assert(bump_ok(base, score));
    }
}

/// How many executed records an author has, counted in store order.
pub open spec fn count_executed(entries: Seq<(String, PRRecord)>, author: Seq<char>) -> int
    decreases entries.len(),
{
    if entries.len() == 0 {
        0
    } else {
        count_executed(entries.drop_last(), author) + (if entries.last().1.author@ == author {
            1int
        } else {
            0
        })
    }
}

/// Migration total-fold: after the rebuild, each author's `AllTime` bucket
/// holds exactly the sum of that author's executed scores, and counts each
/// of that author's executed records exactly once.
pub proof fn lemma_migration_total_fold(entries: Seq<(String, PRRecord)>, author: Seq<char>)
    requires
        spec_rebuild_ok(entries),
    ensures
        get_bucket(spec_rebuild(entries), author, "all-time"@).total_score as int == sum_scores(
            entries,
            author,
        ),
        get_bucket(spec_rebuild(entries), author, "all-time"@).executed_prs as int
            == count_executed(entries, author),
    decreases entries.len(),
{
    if entries.len() == 0 {
    } else {
        lemma_migration_total_fold(entries.drop_last(), author);
        lemma_fold_alltime_total(
            spec_rebuild(entries.drop_last()),
            entries.last().1.author@,
            entries.last().1.merged_at->0,
            entries.last().1.score->0,
            author,
        );
    }
}

/// Migrate the old schema: carry the records over, rebuild every aggregate
/// bucket from the executed records, and recompute every known user's
/// progress on the configured streaks from scratch. All-or-nothing: a
/// counter overflow yields an error and no new state.
#[verifier::loop_isolation(false)]
pub fn migrate(old_state: OldState, streaks: Vec<Streak>, now: u64) -> (r: Result<
    Ledger,
    LedgerError,
>)
    requires
        old_state.wf(),
        now < u64::MAX,
        forall|i: int|
            0 <= i < streaks@.len() ==> !((#[trigger] streaks@[i]).time_period is AllTime)
                && streaks@[i].streak_criterias@.len() > 0,
    ensures
        ({
            let entries = old_state.executed_prs.entries@;
            match r {
                Ok(l) => {
                    &&& l.wf()
                    &&& l.prs == old_state.prs
                    &&& l.executed_prs == old_state.executed_prs
                    &&& l.allowed_orgs == old_state.organizations
                    &&& l.excluded_prs == old_state.excluded_prs
                    &&& l.paused_repos@.len() == 0
                    &&& l.streaks@ == streaks@
                    &&& spec_rebuild_ok(entries)
                    &&& l.sloths_per_period@ == spec_rebuild(entries)
                    &&& forall|si: int, j: int|
                        0 <= si < streaks@.len() && (#[trigger] streaks@[si]).is_active && 0 <= j
                            < old_state.sloths.entries@.len() ==> {
                            let h = (#[trigger] old_state.sloths.entries@[j]).1.handle@;
                            &&& l.user_streaks@[si]@.contains_key(h)
                            &&& l.user_streaks@[si]@[h].amount as int == spec_walk(
                                streaks@[si],
                                spec_rebuild(entries),
                                h,
                                now,
                                now as nat,
                            ) as int
                            &&& l.user_streaks@[si]@[h].latest_time_string@ == spec_walk_latest(
                                streaks@[si],
                                spec_rebuild(entries),
                                h,
                                now,
                            )
                        }
                    &&& forall|si: int|
                        0 <= si < streaks@.len() && !(#[trigger] streaks@[si]).is_active
                            ==> l.user_streaks@[si]@ == Map::<
                            Seq<char>,
                            crate::streak::StreakUserData,
                        >::empty()
                    &&& forall|si: int, k: Seq<char>|
                        0 <= si < streaks@.len() && streaks@[si].is_active && (
                        #[trigger] l.user_streaks@[si]@.contains_key(k)) ==> exists|j: int|
                            0 <= j < old_state.sloths.entries@.len() && (
                            #[trigger] old_state.sloths.entries@[j]).1.handle@ == k
                },
                Err(e) => e == LedgerError::CounterOverflow && (!spec_rebuild_ok(entries)
                    || exists|si: int, j: int|
                    0 <= si < streaks@.len() && (#[trigger] streaks@[si]).is_active && 0 <= j
                        < old_state.sloths.entries@.len() && spec_walk(
                        streaks@[si],
                        spec_rebuild(entries),
                        (#[trigger] old_state.sloths.entries@[j]).1.handle@,
                        now,
                        now as nat,
                    ) > u32::MAX),
            }
        }),
{
    let ghost streaks_view = streaks@;
    let streaks_len = streaks.len();
    let mut user_streaks: Vec<StrMap<crate::streak::StreakUserData>> = Vec::new();
    let mut k: usize = 0;
    while k < streaks_len
        invariant
            0 <= k <= streaks_len,
            user_streaks@.len() == k,
            forall|i: int|
                0 <= i < k ==> (#[trigger] user_streaks@[i]).wf() && user_streaks@[i]@ == Map::<
                    Seq<char>,
                    crate::streak::StreakUserData,
                >::empty(),
        decreases streaks_len - k,
    {
        user_streaks.push(StrMap::new());
        k = k + 1;
    }
    let mut ledger = Ledger {
        allowed_orgs: old_state.organizations,
        paused_repos: Vec::new(),
        prs: old_state.prs,
        executed_prs: old_state.executed_prs,
        excluded_prs: old_state.excluded_prs,
        sloths_per_period: PairMap::new(),
        streaks,
        user_streaks,
    };
    let ghost entries = ledger.executed_prs.entries@;
    let n = ledger.executed_prs.len();
    let mut i: usize = 0;
    proof {
        assert(entries.take(0) =~= Seq::<(String, PRRecord)>::empty());
    }
    while i < n
        invariant
            ledger.wf(),
            0 <= i <= n,
            n == entries.len(),
            ledger.executed_prs.entries@ == entries,
            ledger.prs == old_state.prs,
            ledger.executed_prs == old_state.executed_prs,
            ledger.allowed_orgs == old_state.organizations,
            ledger.excluded_prs == old_state.excluded_prs,
            ledger.paused_repos@.len() == 0,
            ledger.streaks@ == streaks_view,
            ledger.user_streaks@.len() == streaks_view.len(),
            forall|si: int|
                0 <= si < streaks_view.len() ==> (#[trigger] ledger.user_streaks@[si]).wf()
                    && ledger.user_streaks@[si]@ == Map::<
                    Seq<char>,
                    crate::streak::StreakUserData,
                >::empty(),
            spec_rebuild_ok(entries.take(i as int)),
            ledger.sloths_per_period@ == spec_rebuild(entries.take(i as int)),
        decreases n - i,
    {
        let rec = ledger.executed_prs.entry_at(i).1.clone();
        let score = match rec.score {
            Some(s) => s,
            None => 0,
        };
        proof {
            assert(entries.take(i + 1).drop_last() =~= entries.take(i as int));
            assert(entries.take(i + 1).last() == entries[i as int]);
        }
        match ledger.count_score_to_periods(&rec, score) {
            Ok(()) => {
            },
            Err(e) => {
                proof {
                    assert(!spec_rebuild_ok(entries.take(i + 1)));
                    lemma_rebuild_ok_extends_contra(entries, i + 1);
                }
                return Err(e);
            },
        }
        i = i + 1;
    }
    proof {
        assert(entries.take(n as int) =~= entries);
    }
    let ghost buckets = ledger.sloths_per_period@;
    let ghost users = old_state.sloths.entries@;
    let m = old_state.sloths.len();
    let mut j: usize = 0;
    while j < m
        invariant
            ledger.wf(),
            0 <= j <= m,
            m == users.len(),
            old_state.sloths.entries@ == users,
            ledger.executed_prs.entries@ == entries,
            ledger.prs == old_state.prs,
            ledger.executed_prs == old_state.executed_prs,
            ledger.allowed_orgs == old_state.organizations,
            ledger.excluded_prs == old_state.excluded_prs,
            ledger.paused_repos@.len() == 0,
            ledger.streaks@ == streaks_view,
            ledger.user_streaks@.len() == streaks_view.len(),
            ledger.sloths_per_period@ == buckets,
            forall|si: int, u: int|
                0 <= si < streaks_view.len() && (#[trigger] streaks_view[si]).is_active && 0 <= u
                    < j ==> {
                    let h = (#[trigger] users[u]).1.handle@;
                    &&& ledger.user_streaks@[si]@.contains_key(h)
                    &&& ledger.user_streaks@[si]@[h].amount as int == spec_walk(
                        streaks_view[si],
                        buckets,
                        h,
                        now,
                        now as nat,
                    ) as int
                    &&& ledger.user_streaks@[si]@[h].latest_time_string@ == spec_walk_latest(
                        streaks_view[si],
                        buckets,
                        h,
                        now,
                    )
                },
            forall|si: int|
                0 <= si < streaks_view.len() && !(#[trigger] streaks_view[si]).is_active
                    ==> ledger.user_streaks@[si]@ == Map::<
                    Seq<char>,
                    crate::streak::StreakUserData,
                >::empty(),
            forall|si: int, k: Seq<char>|
                0 <= si < streaks_view.len() && streaks_view[si].is_active && (
                #[trigger] ledger.user_streaks@[si]@.contains_key(k)) ==> exists|u: int|
                    0 <= u < j && (#[trigger] users[u]).1.handle@ == k,
        decreases m - j,
    {
        let handle = old_state.sloths.entry_at(j).1.handle.clone();
        let ghost pre = ledger;
        match ledger.calculate_streak(&handle, now) {
            Ok(()) => {
                proof {
                    assert forall|si: int, u: int|
                        0 <= si < streaks_view.len() && (#[trigger] streaks_view[si]).is_active
                            && 0 <= u < j + 1 implies {
                        let h = (#[trigger] users[u]).1.handle@;
                        &&& ledger.user_streaks@[si]@.contains_key(h)
                        &&& ledger.user_streaks@[si]@[h].amount as int == spec_walk(
                            streaks_view[si],
                            buckets,
                            h,
                            now,
                            now as nat,
                        ) as int
                        &&& ledger.user_streaks@[si]@[h].latest_time_string@ == spec_walk_latest(
                            streaks_view[si],
                            buckets,
                            h,
                            now,
                        )
                    } by {
                        let h = users[u].1.handle@;
                        assert(streak_map_updated(
                            pre.user_streaks@[si]@,
                            ledger.user_streaks@[si]@,
                            handle@,
                            spec_walk(streaks_view[si], buckets, handle@, now, now as nat) as int,
                            spec_walk_latest(streaks_view[si], buckets, handle@, now),
                        ));
                        if u < j && h != handle@ {
                            assert(ledger.user_streaks@[si]@.remove(handle@)
                                == pre.user_streaks@[si]@.remove(handle@));
                            assert(pre.user_streaks@[si]@.contains_key(h));
                            assert(pre.user_streaks@[si]@.remove(handle@).contains_key(h));
                            assert(ledger.user_streaks@[si]@.contains_key(h));
                            assert(ledger.user_streaks@[si]@[h] == ledger.user_streaks@[si]@.remove(
                                handle@,
                            )[h]);
                            assert(ledger.user_streaks@[si]@[h] == pre.user_streaks@[si]@[h]);
                        }
                    }
                    assert forall|si: int, k: Seq<char>|
                        0 <= si < streaks_view.len() && streaks_view[si].is_active && (
                        #[trigger] ledger.user_streaks@[si]@.contains_key(k)) implies exists|u: int|
                        0 <= u < j + 1 && (#[trigger] users[u]).1.handle@ == k by {
                        if k == handle@ {
                            assert(users[j as int].1.handle@ == k);
                        } else {
                            assert(streak_map_updated(
                                pre.user_streaks@[si]@,
                                ledger.user_streaks@[si]@,
                                handle@,
                                spec_walk(
                                    streaks_view[si],
                                    buckets,
                                    handle@,
                                    now,
                                    now as nat,
                                ) as int,
                                spec_walk_latest(streaks_view[si], buckets, handle@, now),
                            ));
                            assert(ledger.user_streaks@[si]@.remove(handle@).contains_key(k));
                            assert(pre.user_streaks@[si]@.contains_key(k));
                            let u = choose|u: int|
                                0 <= u < j && (#[trigger] users[u]).1.handle@ == k;
                            assert(users[u].1.handle@ == k);
                        }
                    }
                }
            },
            Err(e) => {
                proof {
                    let si = choose|si: int|
                        0 <= si < ledger.streaks@.len() && (#[trigger] ledger.streaks@[si]).is_active
                            && spec_walk(
                            ledger.streaks@[si],
                            ledger.sloths_per_period@,
                            handle@,
                            now,
                            now as nat,
                        ) > u32::MAX;
                    assert(users[j as int].1.handle@ == handle@);
                    assert(spec_walk(
                        streaks_view[si],
                        spec_rebuild(entries),
                        users[j as int].1.handle@,
                        now,
                        now as nat,
                    ) > u32::MAX);
                }
                return Err(e);
            },
        }
        j = j + 1;
    }
    Ok(ledger)
}

} // verus!
