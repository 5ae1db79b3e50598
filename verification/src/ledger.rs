//! The authoritative ledger of contribution records.
//!
//! A contribution is keyed by its full id `owner/repo/number`. Records are
//! created by `sloth_called`, gain a score through `sloth_scored` and a merge
//! timestamp through `sloth_merged`, and become *executed* exactly when both
//! are present. The executed transition folds the score into every
//! time-period bucket of the author and re-evaluates every active streak;
//! nothing is ever aggregated before that point, and nothing is aggregated
//! twice. Records are never deleted: exclusion (`sloth_stale`) is a flag.

use vstd::prelude::*;
use vstd::string::StringExecFns;
use crate::UserPeriodData;
use crate::kv::StrMap;
use crate::kv::PairMap;
use crate::kv::str_in_seq;
use crate::kv::pair_in_seq;
use crate::kv::str_vec_contains;
use crate::kv::pair_vec_contains;
use crate::streak::Streak;
use crate::streak::StreakUserData;
use crate::streak::spec_update_amount;
use crate::streak::spec_update_latest;
use crate::streak::update_streak;
use crate::timeperiod::TimePeriod;
use crate::timeperiod::spec_time_string;
use crate::timeperiod::spec_previous_period;
use crate::text::dec_digits;
use crate::text::u64_to_dec;

verus! {

pub type GithubHandle = String;

/// Names of the ledger's persisted collections, fixed so that stored data
/// keeps its meaning across releases.
#[derive(Debug, Clone, Copy, PartialEq, Eq, Structural)]
pub enum StorageKey {
    Users,
    SlothsPerPeriod,
    Organizations,
    PRs,
    MergedPRs,
    ExcludedPRs,
    Streaks,
    UserStreaks,
    AccountIds,
}

/// The idempotency gate: a snapshot of what the ledger knows about one
/// contribution, re-read before every mutating command.
#[derive(Debug, Clone, Copy, PartialEq, Eq, Structural)]
pub struct PRInfo {
    pub allowed: bool,
    pub allowed_repo: bool,
    pub exist: bool,
    pub merged: bool,
    pub scored: bool,
    pub executed: bool,
}

/// Identity of a contribution, as listed by the unmerged view.
#[derive(Debug)]
pub struct PRData {
    pub organization: String,
    pub repo: String,
    pub number: u64,
}

/// A per-contribution record owned by the ledger.
#[derive(Debug)]
pub struct PRRecord {
    pub organization: String,
    pub repo: String,
    pub number: u64,
    pub author: GithubHandle,
    pub created_at: u64,
    pub score: Option<u64>,
    pub merged_at: Option<u64>,
}

impl Clone for PRRecord {
    fn clone(&self) -> (r: Self)
        ensures
            r == *self,
    {
        PRRecord {
            organization: self.organization.clone(),
            repo: self.repo.clone(),
            number: self.number,
            author: self.author.clone(),
            created_at: self.created_at,
            score: self.score,
            merged_at: self.merged_at,
        }
    }
}

/// Why a ledger transition was refused. The state is never changed by a
/// refused transition.
#[derive(Debug, Clone, Copy, PartialEq, Eq, Structural)]
pub enum LedgerError {
    /// `sloth_called` on a contribution that already has a record.
    AlreadyExists,
    /// `sloth_called` for an organization not on the allow-list.
    OrgNotAllowed,
    /// A transition on a contribution with no record.
    UnknownContribution,
    /// A transition on a contribution that already executed.
    AlreadyExecuted,
    /// An aggregate or a streak counter would no longer fit its type.
    CounterOverflow,
    /// A merge was reported for a contribution with no merge timestamp.
    NotMerged,
}

/// The full id `owner/repo/number`.
pub open spec fn spec_full_id(org: Seq<char>, repo: Seq<char>, number: u64) -> Seq<char> {
    org + seq!['/'] + repo + seq!['/'] + dec_digits(number as nat)
}

/// Build the full id of a contribution.
pub fn full_id_string(org: &String, repo: &String, number: u64) -> (r: String)
    ensures
        r@ == spec_full_id(org@, repo@, number),
{
    proof {
        reveal_strlit("/");
        assert("/"@ =~= seq!['/']);
    }
    let mut s = org.clone();
    s.append("/");
    s.append(repo.as_str());
    s.append("/");
    let n = u64_to_dec(number);
    s.append(n.as_str());
    proof {
        assert(s@ =~= spec_full_id(org@, repo@, number));
    }
    s
}

/// A bucket with nothing recorded yet.
pub open spec fn zero_data() -> UserPeriodData {
    UserPeriodData { total_score: 0, executed_prs: 0, prs_opened: 0, prs_merged: 0 }
}

/// All counters of a bucket still fit after folding in one executed
/// contribution with this score.
pub open spec fn bump_ok(d: UserPeriodData, score: u64) -> bool {
    &&& d.total_score + score <= u32::MAX
    &&& d.executed_prs + 1 <= u32::MAX
    &&& d.prs_opened + 1 <= u32::MAX
    &&& d.prs_merged + 1 <= u32::MAX
}

/// Fold one executed contribution with this score into a bucket.
pub open spec fn bump(d: UserPeriodData, score: u64) -> UserPeriodData {
    UserPeriodData {
        total_score: (d.total_score + score) as u32,
        executed_prs: (d.executed_prs + 1) as u32,
        prs_opened: (d.prs_opened + 1) as u32,
        prs_merged: (d.prs_merged + 1) as u32,
    }
}

/// The period sequence the executed transition folds over, in order.
pub open spec fn all_periods_seq() -> Seq<TimePeriod> {
    seq![
        TimePeriod::Week,
        TimePeriod::Month,
        TimePeriod::Quarter,
        TimePeriod::Year,
        TimePeriod::AllTime,
    ]
}

/// The bucket map after folding `score` into the buckets of `handle` for
/// each period in `periods`, at the merge timestamp `ts`.
pub open spec fn folded_buckets(
    m: Map<(Seq<char>, Seq<char>), UserPeriodData>,
    handle: Seq<char>,
    ts: u64,
    score: u64,
    periods: Seq<TimePeriod>,
) -> Map<(Seq<char>, Seq<char>), UserPeriodData>
    decreases periods.len(),
{
    if periods.len() == 0 {
        m
    } else {
        let m1 = folded_buckets(m, handle, ts, score, periods.drop_last());
        let key = (handle, spec_time_string(periods.last(), ts));
        let base = if m1.contains_key(key) {
            m1[key]
        } else {
            zero_data()
        };
        m1.insert(key, bump(base, score))
    }
}

/// No counter overflows anywhere along the fold.
pub open spec fn fold_ok(
    m: Map<(Seq<char>, Seq<char>), UserPeriodData>,
    handle: Seq<char>,
    ts: u64,
    score: u64,
    periods: Seq<TimePeriod>,
) -> bool
    decreases periods.len(),
{
    if periods.len() == 0 {
        true
    } else {
        let m1 = folded_buckets(m, handle, ts, score, periods.drop_last());
        let key = (handle, spec_time_string(periods.last(), ts));
        let base = if m1.contains_key(key) {
            m1[key]
        } else {
            zero_data()
        };
        fold_ok(m, handle, ts, score, periods.drop_last()) && bump_ok(base, score)
    }
}

proof fn lemma_fold_ok_extends_contra(
    m: Map<(Seq<char>, Seq<char>), UserPeriodData>,
    handle: Seq<char>,
    ts: u64,
    score: u64,
    periods: Seq<TimePeriod>,
    i: int,
)
    requires
        0 <= i <= periods.len(),
        !fold_ok(m, handle, ts, score, periods.take(i)),
    ensures
        !fold_ok(m, handle, ts, score, periods),
    decreases periods.len() - i,
{
    if i == periods.len() {
        assert(periods.take(i) =~= periods);
    } else {
        assert(periods.take(i + 1).drop_last() =~= periods.take(i));
        lemma_fold_ok_extends_contra(m, handle, ts, score, periods, i + 1);
    }
}

/// The bucket under a key, or the zero bucket.
pub open spec fn get_bucket(
    m: Map<(Seq<char>, Seq<char>), UserPeriodData>,
    handle: Seq<char>,
    ts_string: Seq<char>,
) -> UserPeriodData {
    if m.contains_key((handle, ts_string)) {
        m[(handle, ts_string)]
    } else {
        zero_data()
    }
}

/// The bucket string of the period immediately before `ts`, or the empty
/// string when there is none.
pub open spec fn spec_prev_bucket_string(p: TimePeriod, ts: u64) -> Seq<char> {
    match spec_previous_period(p, ts) {
        Some(t) => spec_time_string(p, t),
        None => Seq::<char>::empty(),
    }
}

/// The run length of a streak for `handle` after an executed transition at
/// `ts`, evaluated against the already-folded buckets.
pub open spec fn spec_streak_amount_after(
    st: Streak,
    pm: Map<Seq<char>, StreakUserData>,
    buckets: Map<(Seq<char>, Seq<char>), UserPeriodData>,
    handle: Seq<char>,
    ts: u64,
) -> int {
    let cur = spec_time_string(st.time_period, ts);
    let prev = spec_prev_bucket_string(st.time_period, ts);
    let a0 = if pm.contains_key(handle) {
        pm[handle].amount as int
    } else {
        0
    };
    let l0 = if pm.contains_key(handle) {
        pm[handle].latest_time_string@
    } else {
        Seq::<char>::empty()
    };
    let achieved = st.spec_achieved(get_bucket(buckets, handle, cur));
    spec_update_amount(a0, l0, cur, prev, achieved)
}

/// The latest-extension bucket of a streak after the same evaluation.
pub open spec fn spec_streak_latest_after(
    st: Streak,
    pm: Map<Seq<char>, StreakUserData>,
    buckets: Map<(Seq<char>, Seq<char>), UserPeriodData>,
    handle: Seq<char>,
    ts: u64,
) -> Seq<char> {
    let cur = spec_time_string(st.time_period, ts);
    let prev = spec_prev_bucket_string(st.time_period, ts);
    let l0 = if pm.contains_key(handle) {
        pm[handle].latest_time_string@
    } else {
        Seq::<char>::empty()
    };
    let achieved = st.spec_achieved(get_bucket(buckets, handle, cur));
    spec_update_latest(l0, cur, prev, achieved)
}

/// One streak-progress map was rewritten only at `handle`, to the given run
/// length and latest bucket.
pub open spec fn streak_map_updated(
    oldm: Map<Seq<char>, StreakUserData>,
    newm: Map<Seq<char>, StreakUserData>,
    handle: Seq<char>,
    amount: int,
    latest: Seq<char>,
) -> bool {
    &&& newm.contains_key(handle)
    &&& newm[handle].amount as int == amount
    &&& newm[handle].latest_time_string@ == latest
    &&& newm.remove(handle) == oldm.remove(handle)
}

/// The ledger state.
pub struct Ledger {
    pub allowed_orgs: Vec<String>,
    pub paused_repos: Vec<(String, String)>,
    pub prs: StrMap<PRRecord>,
    pub executed_prs: StrMap<PRRecord>,
    pub excluded_prs: Vec<String>,
    pub sloths_per_period: PairMap<UserPeriodData>,
    pub streaks: Vec<Streak>,
    pub user_streaks: Vec<StrMap<StreakUserData>>,
}

/// The record with its score set.
pub open spec fn scored_record(rec: PRRecord, score: u64) -> PRRecord {
    PRRecord { score: Some(score), ..rec }
}

/// The record with its merge timestamp set.
pub open spec fn merged_record(rec: PRRecord, merged_at: u64) -> PRRecord {
    PRRecord { merged_at: Some(merged_at), ..rec }
}

/// Every active streak's new run length still fits its counter.
pub open spec fn streaks_ok(
    l: Ledger,
    buckets: Map<(Seq<char>, Seq<char>), UserPeriodData>,
    handle: Seq<char>,
    ts: u64,
) -> bool {
    forall|si: int|
        0 <= si < l.streaks@.len() && (#[trigger] l.streaks@[si]).is_active
            ==> spec_streak_amount_after(
            l.streaks@[si],
            l.user_streaks@[si]@,
            buckets,
            handle,
            ts,
        ) <= u32::MAX
}

/// The executed transition for `record` runs without any counter overflow.
pub open spec fn executed_ok(pre: Ledger, record: PRRecord) -> bool {
    let handle = record.author@;
    let ts = record.merged_at->0;
    let score = record.score->0;
    let buckets = folded_buckets(
        pre.sloths_per_period@,
        handle,
        ts,
        score,
        all_periods_seq(),
    );
    &&& fold_ok(pre.sloths_per_period@, handle, ts, score, all_periods_seq())
    &&& streaks_ok(pre, buckets, handle, ts)
}

/// What the executed transition does: the score is folded into every period
/// bucket of the author, every active streak of the author is re-evaluated
/// under the continuity rule, the record joins the executed set, and nothing
/// else moves. (The open-record store is described by the callers.)
pub open spec fn executed_transition(
    pre: Ledger,
    post: Ledger,
    id: Seq<char>,
    record: PRRecord,
) -> bool {
    let handle = record.author@;
    let ts = record.merged_at->0;
    let score = record.score->0;
    let buckets = folded_buckets(
        pre.sloths_per_period@,
        handle,
        ts,
        score,
        all_periods_seq(),
    );
    &&& post.sloths_per_period@ == buckets
    &&& post.executed_prs@ == pre.executed_prs@.insert(id, record)
    &&& post.streaks == pre.streaks
    &&& post.user_streaks@.len() == pre.user_streaks@.len()
    &&& forall|si: int|
        0 <= si < pre.streaks@.len() && (#[trigger] pre.streaks@[si]).is_active
            ==> streak_map_updated(
            pre.user_streaks@[si]@,
            post.user_streaks@[si]@,
            handle,
            spec_streak_amount_after(
                pre.streaks@[si],
                pre.user_streaks@[si]@,
                buckets,
                handle,
                ts,
            ),
            spec_streak_latest_after(
                pre.streaks@[si],
                pre.user_streaks@[si]@,
                buckets,
                handle,
                ts,
            ),
        )
    &&& forall|si: int|
        0 <= si < pre.streaks@.len() && !(#[trigger] pre.streaks@[si]).is_active
            ==> post.user_streaks@[si] == pre.user_streaks@[si]
    &&& post.allowed_orgs == pre.allowed_orgs
    &&& post.paused_repos == pre.paused_repos
    &&& post.excluded_prs == pre.excluded_prs
}

/// Everything but the open-record store is unchanged.
pub open spec fn only_prs_changed(pre: Ledger, post: Ledger) -> bool {
    &&& post.executed_prs == pre.executed_prs
    &&& post.sloths_per_period == pre.sloths_per_period
    &&& post.user_streaks == pre.user_streaks
    &&& post.streaks == pre.streaks
    &&& post.allowed_orgs == pre.allowed_orgs
    &&& post.paused_repos == pre.paused_repos
    &&& post.excluded_prs == pre.excluded_prs
}

/// Only the bucket store differs.
pub open spec fn buckets_only_changed(pre: Ledger, post: Ledger) -> bool {
    &&& post.prs == pre.prs
    &&& post.executed_prs == pre.executed_prs
    &&& post.user_streaks == pre.user_streaks
    &&& post.streaks == pre.streaks
    &&& post.allowed_orgs == pre.allowed_orgs
    &&& post.paused_repos == pre.paused_repos
    &&& post.excluded_prs == pre.excluded_prs
}

/// The from-scratch run length of a streak: how many consecutive buckets,
/// walking backward from the bucket of `ts`, exist and meet the criteria.
/// The walk moves to a strictly earlier timestamp each step, so a fuel of
/// `ts` always suffices; the fuel only serves the recursion measure.
pub open spec fn spec_walk(
    st: Streak,
    buckets: Map<(Seq<char>, Seq<char>), UserPeriodData>,
    handle: Seq<char>,
    ts: u64,
    fuel: nat,
) -> nat
    decreases fuel,
{
    let cur = spec_time_string(st.time_period, ts);
    if !(buckets.contains_key((handle, cur)) && st.spec_achieved(buckets[(handle, cur)])) {
        0
    } else {
        match spec_previous_period(st.time_period, ts) {
            None => 1,
            Some(t2) => if fuel == 0 {
                1
            } else {
                1 + spec_walk(st, buckets, handle, t2, (fuel - 1) as nat)
            },
        }
    }
}

/// The latest-extension bucket after a from-scratch recomputation at `ts`.
pub open spec fn spec_walk_latest(
    st: Streak,
    buckets: Map<(Seq<char>, Seq<char>), UserPeriodData>,
    handle: Seq<char>,
    ts: u64,
) -> Seq<char> {
    if spec_walk(st, buckets, handle, ts, ts as nat) > 0 {
        spec_time_string(st.time_period, ts)
    } else {
        Seq::<char>::empty()
    }
}

/// Walk backward from `ts` counting achieved buckets.
fn walk_streak(
    st: &Streak,
    buckets: &PairMap<UserPeriodData>,
    user: &String,
    ts: u64,
) -> (r: u64)
    requires
        buckets.wf(),
        ts < u64::MAX,
        forall|k: (Seq<char>, Seq<char>)|
            buckets@.contains_key(k) ==> (#[trigger] buckets@[k]).executed_prs > 0,
    ensures
        r as nat == spec_walk(*st, buckets@, user@, ts, ts as nat),
        r as int <= ts as int + 1,
    decreases ts,
{
    let cur = st.time_period.time_string(ts);
    match buckets.get(user, &cur) {
        None => 0,
        Some(b) => {
            let bucket = *b;
            if !st.is_streak_achieved(&bucket) {
                0
            } else {
                match st.time_period.previous_period(ts) {
                    None => 1,
                    Some(t2) => {
                        let rest = walk_streak(st, buckets, user, t2);
                        proof {
                            lemma_walk_fuel(*st, buckets@, user@, t2, t2 as nat, (ts - 1) as nat);
                        }
                        1 + rest
                    },
                }
            }
        },
    }
}

/// The fuel does not matter once it is at least the timestamp.
proof fn lemma_walk_fuel(
    st: Streak,
    buckets: Map<(Seq<char>, Seq<char>), UserPeriodData>,
    handle: Seq<char>,
    ts: u64,
    f1: nat,
    f2: nat,
)
    requires
        f1 >= ts,
        f2 >= ts,
    ensures
        spec_walk(st, buckets, handle, ts, f1) == spec_walk(st, buckets, handle, ts, f2),
    decreases f1 + f2,
{
    let cur = spec_time_string(st.time_period, ts);
    if buckets.contains_key((handle, cur)) && st.spec_achieved(buckets[(handle, cur)]) {
        match spec_previous_period(st.time_period, ts) {
            None => {
            },
            Some(t2) => {
                // A representable previous bucket is strictly earlier, so
                // the timestamp is positive and both fuels are too.
                assert(t2 < ts);
                if f1 == 0 || f2 == 0 {
                } else {
                    lemma_walk_fuel(st, buckets, handle, t2, (f1 - 1) as nat, (f2 - 1) as nat);
                }
            },
        }
    }
}

/// A bucket exists for `ts` and meets the streak's criteria.
pub open spec fn walk_hit(
    st: Streak,
    buckets: Map<(Seq<char>, Seq<char>), UserPeriodData>,
    handle: Seq<char>,
    ts: u64,
) -> bool {
    let cur = spec_time_string(st.time_period, ts);
    buckets.contains_key((handle, cur)) && st.spec_achieved(buckets[(handle, cur)])
}

/// Streak continuity over the from-scratch walk: criteria met in the
/// current bucket and the two immediately preceding ones, and in no bucket
/// before those, give a run length of exactly three.
pub proof fn lemma_walk_three_consecutive(
    st: Streak,
    buckets: Map<(Seq<char>, Seq<char>), UserPeriodData>,
    handle: Seq<char>,
    t0: u64,
)
    requires
        walk_hit(st, buckets, handle, t0),
        spec_previous_period(st.time_period, t0) is Some,
        walk_hit(st, buckets, handle, spec_previous_period(st.time_period, t0)->0),
        spec_previous_period(st.time_period, spec_previous_period(st.time_period, t0)->0)
            is Some,
        walk_hit(
            st,
            buckets,
            handle,
            spec_previous_period(
                st.time_period,
                spec_previous_period(st.time_period, t0)->0,
            )->0,
        ),
        ({
            let t2 = spec_previous_period(
                st.time_period,
                spec_previous_period(st.time_period, t0)->0,
            )->0;
            spec_previous_period(st.time_period, t2) is Some ==> !walk_hit(
                st,
                buckets,
                handle,
                spec_previous_period(st.time_period, t2)->0,
            )
        }),
    ensures
        spec_walk(st, buckets, handle, t0, t0 as nat) == 3,
{
    let t1 = spec_previous_period(st.time_period, t0)->0;
    let t2 = spec_previous_period(st.time_period, t1)->0;
    assert(t1 < t0 && t2 < t1);
    assert(spec_walk(st, buckets, handle, t0, t0 as nat) == 1 + spec_walk(
        st,
        buckets,
        handle,
        t1,
        (t0 - 1) as nat,
    ));
    lemma_walk_fuel(st, buckets, handle, t1, (t0 - 1) as nat, t1 as nat);
    assert(spec_walk(st, buckets, handle, t1, t1 as nat) == 1 + spec_walk(
        st,
        buckets,
        handle,
        t2,
        (t1 - 1) as nat,
    ));
    lemma_walk_fuel(st, buckets, handle, t2, (t1 - 1) as nat, t2 as nat);
    match spec_previous_period(st.time_period, t2) {
        None => {
        },
        Some(t3) => {
            assert(t3 < t2);
            assert(spec_walk(st, buckets, handle, t3, (t2 - 1) as nat) == 0);
        },
    }
}

/// Streak continuity over the from-scratch walk, broken run: criteria met
/// in the current bucket but not in the one immediately before it give a
/// run length of exactly one.
pub proof fn lemma_walk_gap_resets(
    st: Streak,
    buckets: Map<(Seq<char>, Seq<char>), UserPeriodData>,
    handle: Seq<char>,
    t0: u64,
)
    requires
        walk_hit(st, buckets, handle, t0),
        spec_previous_period(st.time_period, t0) is Some ==> !walk_hit(
            st,
            buckets,
            handle,
            spec_previous_period(st.time_period, t0)->0,
        ),
    ensures
        spec_walk(st, buckets, handle, t0, t0 as nat) == 1,
{
    match spec_previous_period(st.time_period, t0) {
        None => {
        },
        Some(t1) => {
            assert(t1 < t0);
            assert(spec_walk(st, buckets, handle, t1, (t0 - 1) as nat) == 0);
        },
    }
}

/// The unmerged contributions in a record list, as identifying triples.
pub open spec fn spec_unmerged(entries: Seq<(String, PRRecord)>) -> Seq<(Seq<char>, Seq<char>, u64)>
    decreases entries.len(),
{
    if entries.len() == 0 {
        Seq::empty()
    } else {
        spec_unmerged(entries.drop_last()) + (if entries.last().1.merged_at is None {
            seq![
                (
                    entries.last().1.organization@,
                    entries.last().1.repo@,
                    entries.last().1.number,
                ),
            ]
        } else {
            Seq::<(Seq<char>, Seq<char>, u64)>::empty()
        })
    }
}

/// The identifying triple of a listed contribution.
pub open spec fn pr_data_view(d: PRData) -> (Seq<char>, Seq<char>, u64) {
    (d.organization@, d.repo@, d.number)
}

proof fn lemma_unmerged_len(entries: Seq<(String, PRRecord)>)
    ensures
        spec_unmerged(entries).len() <= entries.len(),
    decreases entries.len(),
{
    if entries.len() > 0 {
        lemma_unmerged_len(entries.drop_last());
    }
}

proof fn lemma_unmerged_prefix(entries: Seq<(String, PRRecord)>, i: int)
    requires
        0 <= i <= entries.len(),
    ensures
        forall|k: int|
            0 <= k < spec_unmerged(entries.take(i)).len() ==> #[trigger] spec_unmerged(
                entries.take(i),
            )[k] == spec_unmerged(entries)[k],
        spec_unmerged(entries.take(i)).len() <= spec_unmerged(entries).len(),
    decreases entries.len() - i,
{
    if i == entries.len() {
        assert(entries.take(i) =~= entries);
    } else {
        assert(entries.take(i + 1).drop_last() =~= entries.take(i));
        lemma_unmerged_prefix(entries, i + 1);
        assert forall|k: int|
            0 <= k < spec_unmerged(entries.take(i)).len() implies #[trigger] spec_unmerged(
            entries.take(i),
        )[k] == spec_unmerged(entries)[k] by {
            assert(spec_unmerged(entries.take(i))[k] == spec_unmerged(entries.take(i + 1))[k]);
        }
    }
}

/// Read a bucket as it stands after the pending updates: the pending map
/// wins over the committed store.
fn lookup_bucket(
    pending: &PairMap<UserPeriodData>,
    base: &PairMap<UserPeriodData>,
    a: &String,
    b: &String,
) -> (r: UserPeriodData)
    requires
        pending.wf(),
        base.wf(),
    ensures
        ({
            let u = base@.union_prefer_right(pending@);
            r == if u.contains_key((a@, b@)) {
                u[(a@, b@)]
            } else {
                zero_data()
            }
        }),
{
    match pending.get(a, b) {
        Some(d) => *d,
        None => match base.get(a, b) {
            Some(d) => *d,
            None => UserPeriodData { total_score: 0, executed_prs: 0, prs_opened: 0, prs_merged: 0 },
        },
    }
}

/// Fold one score into a bucket, refusing on counter overflow.
fn checked_bump(d: UserPeriodData, score: u64) -> (r: Option<UserPeriodData>)
    ensures
        match r {
            Some(nd) => bump_ok(d, score) && nd == bump(d, score),
            None => !bump_ok(d, score),
        },
{
    if score > (u32::MAX - d.total_score) as u64 {
        return None;
    }
    if d.executed_prs == u32::MAX || d.prs_opened == u32::MAX || d.prs_merged == u32::MAX {
        return None;
    }
    Some(
        UserPeriodData {
            total_score: d.total_score + (score as u32),
            executed_prs: d.executed_prs + 1,
            prs_opened: d.prs_opened + 1,
            prs_merged: d.prs_merged + 1,
        },
    )
}

impl Ledger {
    /// Well-formedness: the stores are maps, streak progress is kept per
    /// streak, streaks are bounded-period with at least one criterion, and
    /// every stored bucket has at least one executed contribution.
    pub open spec fn wf(self) -> bool {
        &&& self.prs.wf()
        &&& self.executed_prs.wf()
        &&& self.sloths_per_period.wf()
        &&& self.user_streaks@.len() == self.streaks@.len()
        &&& forall|i: int| 0 <= i < self.user_streaks@.len() ==> (#[trigger] self.user_streaks@[i]).wf()
        &&& forall|i: int|
            0 <= i < self.streaks@.len() ==> !((#[trigger] self.streaks@[i]).time_period
                is AllTime) && self.streaks@[i].streak_criterias@.len() > 0
        &&& forall|k: (Seq<char>, Seq<char>)|
            self.sloths_per_period@.contains_key(k) ==> (#[trigger] self.sloths_per_period@[k]).executed_prs
                > 0
    }

    pub fn new() -> (r: Self)
        ensures
            r.wf(),
            r.allowed_orgs@.len() == 0,
            r.paused_repos@.len() == 0,
            r.prs@ == Map::<Seq<char>, PRRecord>::empty(),
            r.executed_prs@ == Map::<Seq<char>, PRRecord>::empty(),
            r.excluded_prs@.len() == 0,
            r.sloths_per_period@ == Map::<(Seq<char>, Seq<char>), UserPeriodData>::empty(),
            r.streaks@.len() == 0,
            r.user_streaks@.len() == 0,
    {
        Ledger {
            allowed_orgs: Vec::new(),
            paused_repos: Vec::new(),
            prs: StrMap::new(),
            executed_prs: StrMap::new(),
            excluded_prs: Vec::new(),
            sloths_per_period: PairMap::new(),
            streaks: Vec::new(),
            user_streaks: Vec::new(),
        }
    }

    pub open spec fn spec_org_allowed(self, org: Seq<char>) -> bool {
        str_in_seq(self.allowed_orgs@, org)
    }

    pub open spec fn spec_repo_paused(self, org: Seq<char>, repo: Seq<char>) -> bool {
        pair_in_seq(self.paused_repos@, org, repo)
    }

    /// The idempotency snapshot of one contribution.
    pub open spec fn spec_pr_info(self, org: Seq<char>, repo: Seq<char>, number: u64) -> PRInfo {
        let id = spec_full_id(org, repo, number);
        let open_rec = self.prs@.contains_key(id);
        let exec_rec = self.executed_prs@.contains_key(id);
        PRInfo {
            allowed: self.spec_org_allowed(org) && !self.spec_repo_paused(org, repo),
            allowed_repo: !self.spec_repo_paused(org, repo),
            exist: open_rec || exec_rec,
            merged: exec_rec || (open_rec && self.prs@[id].merged_at is Some),
            scored: exec_rec || (open_rec && self.prs@[id].score is Some),
            executed: exec_rec,
        }
    }

    /// Read the idempotency gate. A view only; the state is untouched.
    pub fn check_info(&self, organization: &String, repo: &String, issue_id: u64) -> (r: PRInfo)
        requires
            self.wf(),
        ensures
            r == self.spec_pr_info(organization@, repo@, issue_id),
    {
        let id = full_id_string(organization, repo, issue_id);
        let paused = pair_vec_contains(&self.paused_repos, organization, repo);
        let allowed_org = str_vec_contains(&self.allowed_orgs, organization);
        let open_rec = self.prs.get(&id);
        let exec_rec = self.executed_prs.contains_key(&id);
        let (merged_open, scored_open) = match open_rec {
            Some(rec) => (rec.merged_at.is_some(), rec.score.is_some()),
            None => (false, false),
        };
        PRInfo {
            allowed: allowed_org && !paused,
            allowed_repo: !paused,
            exist: open_rec.is_some() || exec_rec,
            merged: exec_rec || merged_open,
            scored: exec_rec || scored_open,
            executed: exec_rec,
        }
    }

    /// Put an organization on the allow-list.
    pub fn allow_org(&mut self, org: String)
        requires
            old(self).wf(),
        ensures
            final(self).wf(),
            final(self).allowed_orgs@ == old(self).allowed_orgs@.push(org),
            final(self).paused_repos == old(self).paused_repos,
            final(self).prs == old(self).prs,
            final(self).executed_prs == old(self).executed_prs,
            final(self).excluded_prs == old(self).excluded_prs,
            final(self).sloths_per_period == old(self).sloths_per_period,
            final(self).streaks == old(self).streaks,
            final(self).user_streaks == old(self).user_streaks,
    {
        self.allowed_orgs.push(org);
    }

    /// Configure a new streak over a bounded period. Its id is its index.
    pub fn add_streak(&mut self, streak: Streak)
        requires
            old(self).wf(),
            !(streak.time_period is AllTime),
            streak.streak_criterias@.len() > 0,
        ensures
            final(self).wf(),
            final(self).streaks@ == old(self).streaks@.push(streak),
            final(self).user_streaks@.len() == old(self).user_streaks@.len() + 1,
            forall|i: int|
                0 <= i < old(self).user_streaks@.len() ==> final(self).user_streaks@[i] == old(
                    self,
                ).user_streaks@[i],
            final(self).user_streaks@.last()@ == Map::<Seq<char>, StreakUserData>::empty(),
            final(self).allowed_orgs == old(self).allowed_orgs,
            final(self).paused_repos == old(self).paused_repos,
            final(self).prs == old(self).prs,
            final(self).executed_prs == old(self).executed_prs,
            final(self).excluded_prs == old(self).excluded_prs,
            final(self).sloths_per_period == old(self).sloths_per_period,
    {
        self.streaks.push(streak);
        self.user_streaks.push(StrMap::new());
    }

    /// Flag a repository paused.
    pub fn sloth_pause(&mut self, organization: String, repo: String)
        requires
            old(self).wf(),
        ensures
            final(self).wf(),
            final(self).spec_repo_paused(organization@, repo@),
            forall|a: Seq<char>, b: Seq<char>|
                old(self).spec_repo_paused(a, b) ==> final(self).spec_repo_paused(a, b),
            forall|a: Seq<char>, b: Seq<char>|
                final(self).spec_repo_paused(a, b) ==> (old(self).spec_repo_paused(a, b) || (a
                    == organization@ && b == repo@)),
            final(self).allowed_orgs == old(self).allowed_orgs,
            final(self).prs == old(self).prs,
            final(self).executed_prs == old(self).executed_prs,
            final(self).excluded_prs == old(self).excluded_prs,
            final(self).sloths_per_period == old(self).sloths_per_period,
            final(self).streaks == old(self).streaks,
            final(self).user_streaks == old(self).user_streaks,
    {
        if !pair_vec_contains(&self.paused_repos, &organization, &repo) {
            let ghost oldseq = self.paused_repos@;
            let ghost oview = organization@;
            let ghost rview = repo@;
            self.paused_repos.push((organization, repo));
            proof {
                let ns = self.paused_repos@;
                assert(forall|j: int| 0 <= j < oldseq.len() ==> ns[j] == #[trigger] oldseq[j]);
                assert(ns[ns.len() - 1].0@ == oview && ns[ns.len() - 1].1@ == rview);
                assert(pair_in_seq(ns, oview, rview));
                assert forall|a: Seq<char>, b: Seq<char>| pair_in_seq(ns, a, b) implies (
                pair_in_seq(oldseq, a, b) || (a == oview && b == rview)) by {
                    let j = choose|j: int|
                        0 <= j < ns.len() && (#[trigger] ns[j]).0@ == a && ns[j].1@ == b;
                    if j < oldseq.len() {
                        assert(oldseq[j].0@ == a && oldseq[j].1@ == b);
                    }
                }
                assert forall|a: Seq<char>, b: Seq<char>| pair_in_seq(oldseq, a, b) implies
                pair_in_seq(ns, a, b) by {
                    let j = choose|j: int|
                        0 <= j < oldseq.len() && (#[trigger] oldseq[j]).0@ == a && oldseq[j].1@
                            == b;
                    assert(ns[j].0@ == a && ns[j].1@ == b);
                }
            }
        }
    }

    /// Clear the paused flag of a repository.
    pub fn sloth_unpause(&mut self, organization: &String, repo: &String)
        requires
            old(self).wf(),
        ensures
            final(self).wf(),
            !final(self).spec_repo_paused(organization@, repo@),
            forall|a: Seq<char>, b: Seq<char>|
                final(self).spec_repo_paused(a, b) <==> (old(self).spec_repo_paused(a, b) && !(a
                    == organization@ && b == repo@)),
            final(self).allowed_orgs == old(self).allowed_orgs,
            final(self).prs == old(self).prs,
            final(self).executed_prs == old(self).executed_prs,
            final(self).excluded_prs == old(self).excluded_prs,
            final(self).sloths_per_period == old(self).sloths_per_period,
            final(self).streaks == old(self).streaks,
            final(self).user_streaks == old(self).user_streaks,
    {
        let mut kept: Vec<(String, String)> = Vec::new();
        let mut i: usize = 0;
        while i < self.paused_repos.len()
            invariant
                0 <= i <= self.paused_repos@.len(),
                forall|a: Seq<char>, b: Seq<char>|
                    pair_in_seq(kept@, a, b) <==> (exists|j: int|
                        0 <= j < i && (#[trigger] self.paused_repos@[j]).0@ == a
                            && self.paused_repos@[j].1@ == b && !(a == organization@ && b
                            == repo@)),
                self == old(self),
            decreases self.paused_repos@.len() - i,
        {
            let keep = !(self.paused_repos[i].0.eq(organization) && self.paused_repos[i].1.eq(
                repo,
            ));
            let ghost oldkept = kept@;
            if keep {
                let org_k = self.paused_repos[i].0.clone();
                let repo_k = self.paused_repos[i].1.clone();
                kept.push((org_k, repo_k));
            }
            proof {
                let es = self.paused_repos@;
                assert forall|a: Seq<char>, b: Seq<char>| pair_in_seq(kept@, a, b) implies (
                exists|j: int|
                    0 <= j < i + 1 && (#[trigger] es[j]).0@ == a && es[j].1@ == b && !(a
                        == organization@ && b == repo@)) by {
                    let m = choose|m: int|
                        0 <= m < kept@.len() && (#[trigger] kept@[m]).0@ == a && kept@[m].1@ == b;
                    if m < oldkept.len() {
                        assert(pair_in_seq(oldkept, a, b));
                        let j = choose|j: int|
                            0 <= j < i && (#[trigger] es[j]).0@ == a && es[j].1@ == b && !(a
                                == organization@ && b == repo@);
                        assert(es[j].0@ == a && es[j].1@ == b);
                    } else {
                        assert(es[i as int].0@ == a && es[i as int].1@ == b);
                    }
                }
                assert forall|a: Seq<char>, b: Seq<char>|
                    (exists|j: int|
                        0 <= j < i + 1 && (#[trigger] es[j]).0@ == a && es[j].1@ == b && !(a
                            == organization@ && b == repo@)) implies pair_in_seq(kept@, a, b) by {
                    let j = choose|j: int|
                        0 <= j < i + 1 && (#[trigger] es[j]).0@ == a && es[j].1@ == b && !(a
                            == organization@ && b == repo@);
                    if j < i {
                        assert(pair_in_seq(oldkept, a, b));
                        let m = choose|m: int|
                            0 <= m < oldkept.len() && (#[trigger] oldkept[m]).0@ == a
                                && oldkept[m].1@ == b;
                        assert(kept@[m].0@ == a && kept@[m].1@ == b);
                    } else {
                        assert(kept@[kept@.len() - 1].0@ == a && kept@[kept@.len() - 1].1@ == b);
                    }
                }
            }
            i = i + 1;
        }
        self.paused_repos = kept;
    }

    /// Record a new contribution (`Start`). Refused when a record already
    /// exists or the organization is not allowed.
    pub fn sloth_called(
        &mut self,
        organization: String,
        repo: String,
        pr_number: u64,
        user: String,
        started_at: u64,
    ) -> (r: Result<(), LedgerError>)
        requires
            old(self).wf(),
        ensures
            final(self).wf(),
            ({
                let info = old(self).spec_pr_info(organization@, repo@, pr_number);
                let id = spec_full_id(organization@, repo@, pr_number);
                match r {
                    Ok(()) => {
                        &&& !info.exist
                        &&& info.allowed
                        &&& final(self).prs@ == old(self).prs@.insert(
                            id,
                            (PRRecord {
                                organization,
                                repo,
                                number: pr_number,
                                author: user,
                                created_at: started_at,
                                score: None,
                                merged_at: None,
                            }),
                        )
                        &&& final(self).executed_prs == old(self).executed_prs
                        &&& final(self).sloths_per_period == old(self).sloths_per_period
                        &&& final(self).user_streaks == old(self).user_streaks
                        &&& final(self).allowed_orgs == old(self).allowed_orgs
                        &&& final(self).paused_repos == old(self).paused_repos
                        &&& final(self).excluded_prs == old(self).excluded_prs
                        &&& final(self).streaks == old(self).streaks
                    },
                    Err(LedgerError::AlreadyExists) => info.exist && *final(self) == *old(self),
                    Err(LedgerError::OrgNotAllowed) => {
                        &&& !info.exist
                        &&& !info.allowed
                        &&& *final(self) == *old(self)
                    },
                    Err(_) => false,
                }
            }),
    {
        let info = self.check_info(&organization, &repo, pr_number);
        if info.exist {
            return Err(LedgerError::AlreadyExists);
        }
        if !info.allowed {
            return Err(LedgerError::OrgNotAllowed);
        }
        let id = full_id_string(&organization, &repo, pr_number);
        let record = PRRecord {
            organization,
            repo,
            number: pr_number,
            author: user,
            created_at: started_at,
            score: None,
            merged_at: None,
        };
        self.prs.insert(id, record);
        Ok(())
    }

    /// Record the score of a contribution. If a merge is already confirmed,
    /// this is the executed transition: the record moves to the executed set
    /// and the score is folded into the author's buckets and streaks.
    pub fn sloth_scored(&mut self, pr_id: &String, score: u64) -> (r: Result<(), LedgerError>)
        requires
            old(self).wf(),
        ensures
            final(self).wf(),
            ({
                let id = pr_id@;
                match r {
                    Ok(()) => {
                        &&& old(self).prs@.contains_key(id)
                        &&& ({
                            let rec = scored_record(old(self).prs@[id], score);
                            if old(self).prs@[id].merged_at is Some {
                                &&& executed_ok(*old(self), rec)
                                &&& executed_transition(*old(self), *final(self), id, rec)
                                &&& final(self).prs@ == old(self).prs@.remove(id)
                            } else {
                                &&& final(self).prs@ == old(self).prs@.insert(id, rec)
                                &&& only_prs_changed(*old(self), *final(self))
                            }
                        })
                    },
                    Err(LedgerError::AlreadyExecuted) => old(self).executed_prs@.contains_key(id)
                        && *final(self) == *old(self),
                    Err(LedgerError::UnknownContribution) => {
                        &&& !old(self).prs@.contains_key(id)
                        &&& !old(self).executed_prs@.contains_key(id)
                        &&& *final(self) == *old(self)
                    },
                    Err(LedgerError::CounterOverflow) => {
                        &&& old(self).prs@.contains_key(id)
                        &&& old(self).prs@[id].merged_at is Some
                        &&& !executed_ok(*old(self), scored_record(old(self).prs@[id], score))
                        &&& final(self).prs@ == old(self).prs@
                        &&& only_prs_changed(*old(self), *final(self))
                    },
                    Err(_) => false,
                }
            }),
    {
        if self.executed_prs.contains_key(pr_id) {
            return Err(LedgerError::AlreadyExecuted);
        }
        match self.prs.remove(pr_id) {
            None => Err(LedgerError::UnknownContribution),
            Some(mut rec) => {
                let saved_score = rec.score;
                rec.score = Some(score);
                if rec.merged_at.is_some() {
                    match self.execute_record(pr_id.clone(), rec) {
                        Ok(()) => Ok(()),
                        Err((mut rec_back, e)) => {
                            rec_back.score = saved_score;
                            self.prs.insert(pr_id.clone(), rec_back);
                            proof {
                                assert(self.prs@ =~= old(self).prs@);
                            }
                            Err(e)
                        },
                    }
                } else {
                    let ghost recg = rec;
                    self.prs.insert(pr_id.clone(), rec);
                    proof {
                        assert(self.prs@ =~= old(self).prs@.insert(pr_id@, recg));
                    }
                    Ok(())
                }
            },
        }
    }

    /// Record the merge of a contribution. If a score is already present,
    /// this is the executed transition.
    pub fn sloth_merged(&mut self, pr_id: &String, merged_at: u64) -> (r: Result<
        (),
        LedgerError,
    >)
        requires
            old(self).wf(),
        ensures
            final(self).wf(),
            ({
                let id = pr_id@;
                match r {
                    Ok(()) => {
                        &&& old(self).prs@.contains_key(id)
                        &&& ({
                            let rec = merged_record(old(self).prs@[id], merged_at);
                            if old(self).prs@[id].score is Some {
                                &&& executed_ok(*old(self), rec)
                                &&& executed_transition(*old(self), *final(self), id, rec)
                                &&& final(self).prs@ == old(self).prs@.remove(id)
                            } else {
                                &&& final(self).prs@ == old(self).prs@.insert(id, rec)
                                &&& only_prs_changed(*old(self), *final(self))
                            }
                        })
                    },
                    Err(LedgerError::AlreadyExecuted) => old(self).executed_prs@.contains_key(id)
                        && *final(self) == *old(self),
                    Err(LedgerError::UnknownContribution) => {
                        &&& !old(self).prs@.contains_key(id)
                        &&& !old(self).executed_prs@.contains_key(id)
                        &&& *final(self) == *old(self)
                    },
                    Err(LedgerError::CounterOverflow) => {
                        &&& old(self).prs@.contains_key(id)
                        &&& old(self).prs@[id].score is Some
                        &&& !executed_ok(*old(self), merged_record(old(self).prs@[id], merged_at))
                        &&& final(self).prs@ == old(self).prs@
                        &&& only_prs_changed(*old(self), *final(self))
                    },
                    Err(_) => false,
                }
            }),
    {
        if self.executed_prs.contains_key(pr_id) {
            return Err(LedgerError::AlreadyExecuted);
        }
        match self.prs.remove(pr_id) {
            None => Err(LedgerError::UnknownContribution),
            Some(mut rec) => {
                let saved_merged = rec.merged_at;
                rec.merged_at = Some(merged_at);
                if rec.score.is_some() {
                    match self.execute_record(pr_id.clone(), rec) {
                        Ok(()) => Ok(()),
                        Err((mut rec_back, e)) => {
                            rec_back.merged_at = saved_merged;
                            self.prs.insert(pr_id.clone(), rec_back);
                            proof {
                                assert(self.prs@ =~= old(self).prs@);
                            }
                            Err(e)
                        },
                    }
                } else {
                    let ghost recg = rec;
                    self.prs.insert(pr_id.clone(), rec);
                    proof {
                        assert(self.prs@ =~= old(self).prs@.insert(pr_id@, recg));
                    }
                    Ok(())
                }
            },
        }
    }

    /// The executed transition: fold the record's score into every period
    /// bucket of its author, re-evaluate every active streak, and move the
    /// record to the executed set. All-or-nothing: on a counter overflow the
    /// record is handed back and the state is untouched.
    #[verifier::loop_isolation(false)]
    fn execute_record(&mut self, id: String, record: PRRecord) -> (r: Result<
        (),
        (PRRecord, LedgerError),
    >)
        requires
            old(self).wf(),
            record.score is Some,
            record.merged_at is Some,
        ensures
            final(self).wf(),
            match r {
                Ok(()) => executed_ok(*old(self), record) && executed_transition(
                    *old(self),
                    *final(self),
                    id@,
                    record,
                ) && final(self).prs == old(self).prs,
                Err((rec_back, e)) => {
                    &&& rec_back == record
                    &&& e == LedgerError::CounterOverflow
                    &&& !executed_ok(*old(self), record)
                    &&& *final(self) == *old(self)
                },
            },
    {
        let author = record.author.clone();
        let merged_at = match record.merged_at {
            Some(t) => t,
            None => 0,
        };
        let score = match record.score {
            Some(s) => s,
            None => 0,
        };
        let ghost handle = record.author@;
        let ghost base_map = self.sloths_per_period@;
        let periods = TimePeriod::all();

        // Pass one: compute the five bucket updates without touching the
        // state, so that an overflow leaves everything as it was.
        let mut pending: PairMap<UserPeriodData> = PairMap::new();
        let mut i: usize = 0;
        proof {
            assert(periods@.take(0) =~= Seq::<TimePeriod>::empty());
            assert(base_map.union_prefer_right(pending@) =~= base_map);
        }
        while i < periods.len()
            invariant
                old(self).wf(),
                *self == *old(self),
                base_map == self.sloths_per_period@,
                periods@ == all_periods_seq(),
                handle == record.author@,
                author@ == handle,
                0 <= i <= periods@.len(),
                pending.wf(),
                base_map.union_prefer_right(pending@) == folded_buckets(
                    base_map,
                    handle,
                    merged_at,
                    score,
                    periods@.take(i as int),
                ),
                fold_ok(base_map, handle, merged_at, score, periods@.take(i as int)),
                forall|k: (Seq<char>, Seq<char>)|
                    pending@.contains_key(k) ==> (#[trigger] pending@[k]).executed_prs > 0,
                forall|j: int|
                    0 <= j < i ==> pending@.contains_key(
                        (handle, spec_time_string(#[trigger] periods@[j], merged_at)),
                    ),
            decreases periods@.len() - i,
        {
            let p = periods[i];
            let ts_str = p.time_string(merged_at);
            let base = lookup_bucket(&pending, &self.sloths_per_period, &author, &ts_str);
            proof {
                assert(periods@.take(i + 1).drop_last() =~= periods@.take(i as int));
                assert(periods@.take(i + 1).last() == p);
            }
            match checked_bump(base, score) {
                None => {
                    proof {
                        assert(!fold_ok(base_map, handle, merged_at, score, periods@.take(i + 1)));
                        lemma_fold_ok_extends_contra(
                            base_map,
                            handle,
                            merged_at,
                            score,
                            periods@,
                            i + 1,
                        );
                        assert(!executed_ok(*old(self), record));
                    }
                    return Err((record, LedgerError::CounterOverflow));
                },
                Some(nd) => {
                    let ghost oldpending = pending@;
                    pending.insert(author.clone(), ts_str, nd);
                    proof {
                        assert(base_map.union_prefer_right(pending@) =~= base_map.union_prefer_right(
                            oldpending,
                        ).insert((handle, spec_time_string(p, merged_at)), nd));
                    }
                },
            }
            i = i + 1;
        }
        proof {
            assert(periods@.take(periods@.len() as int) =~= periods@);
        }
        let ghost folded_full = base_map.union_prefer_right(pending@);

        // Pass two: compute every streak update against the folded buckets,
        // still without touching the state.
        let default_sd = StreakUserData { amount: 0, latest_time_string: String::new() };
        let mut updates: Vec<Option<StreakUserData>> = Vec::new();
        let mut si: usize = 0;
        while si < self.streaks.len()
            invariant
                old(self).wf(),
                *self == *old(self),
                base_map == self.sloths_per_period@,
                periods@ == all_periods_seq(),
                handle == record.author@,
                author@ == handle,
                pending.wf(),
                folded_full == base_map.union_prefer_right(pending@),
                folded_full == folded_buckets(
                    base_map,
                    handle,
                    merged_at,
                    score,
                    all_periods_seq(),
                ),
                forall|k: (Seq<char>, Seq<char>)|
                    pending@.contains_key(k) ==> (#[trigger] pending@[k]).executed_prs > 0,
                forall|j: int|
                    0 <= j < periods@.len() ==> pending@.contains_key(
                        (handle, spec_time_string(#[trigger] periods@[j], merged_at)),
                    ),
                0 <= si <= self.streaks@.len(),
                updates@.len() == si,
                forall|j: int|
                    0 <= j < si && (#[trigger] self.streaks@[j]).is_active ==> updates@[j] is Some
                        && updates@[j]->0.amount as int == spec_streak_amount_after(
                        self.streaks@[j],
                        self.user_streaks@[j]@,
                        folded_full,
                        handle,
                        merged_at,
                    ) && updates@[j]->0.latest_time_string@ == spec_streak_latest_after(
                        self.streaks@[j],
                        self.user_streaks@[j]@,
                        folded_full,
                        handle,
                        merged_at,
                    ),
                forall|j: int|
                    0 <= j < si && !(#[trigger] self.streaks@[j]).is_active ==> updates@[j]
                        is None,
            decreases self.streaks@.len() - si,
        {
            let active = self.streaks[si].is_active;
            if !active {
                updates.push(None);
            } else {
                let period = self.streaks[si].time_period;
                let cur = period.time_string(merged_at);
                let prev_str = match period.previous_period(merged_at) {
                    Some(t) => period.time_string(t),
                    None => String::new(),
                };
                proof {
                    let p = period;
                    assert(pending@.contains_key((handle, spec_time_string(p, merged_at)))) by {
                        if p is Week {
                            assert(periods@[0] == TimePeriod::Week);
                        } else if p is Month {
                            assert(periods@[1] == TimePeriod::Month);
                        } else if p is Quarter {
                            assert(periods@[2] == TimePeriod::Quarter);
                        } else if p is Year {
                            assert(periods@[3] == TimePeriod::Year);
                        } else {
                            assert(periods@[4] == TimePeriod::AllTime);
                        }
                    }
                }
                let bucket = lookup_bucket(&pending, &self.sloths_per_period, &author, &cur);
                proof {
                    assert(folded_full.contains_key((handle, cur@)));
                    assert(bucket == folded_full[(handle, cur@)]);
                    assert(bucket == get_bucket(folded_full, handle, cur@));
                    assert(bucket.executed_prs > 0);
                }
                let achieved = self.streaks[si].is_streak_achieved(&bucket);
                let sd_ref = match self.user_streaks[si].get(&author) {
                    Some(d) => d,
                    None => &default_sd,
                };
                proof {
                    assert(cur@ == spec_time_string(period, merged_at));
                    assert(prev_str@ == spec_prev_bucket_string(period, merged_at));
                    assert(achieved == self.streaks@[si as int].spec_achieved(
                        get_bucket(folded_full, handle, cur@),
                    ));
                }
                match update_streak(sd_ref, &cur, &prev_str, achieved) {
                    None => {
                        proof {
                            assert(spec_streak_amount_after(
                                self.streaks@[si as int],
                                self.user_streaks@[si as int]@,
                                folded_full,
                                handle,
                                merged_at,
                            ) > u32::MAX);
                            assert(!streaks_ok(*old(self), folded_full, handle, merged_at));
                            assert(!executed_ok(*old(self), record));
                        }
                        return Err((record, LedgerError::CounterOverflow));
                    },
                    Some(nd) => {
                        proof {
                            assert(nd.amount as int == spec_streak_amount_after(
                                self.streaks@[si as int],
                                self.user_streaks@[si as int]@,
                                folded_full,
                                handle,
                                merged_at,
                            ));
                            assert(nd.latest_time_string@ == spec_streak_latest_after(
                                self.streaks@[si as int],
                                self.user_streaks@[si as int]@,
                                folded_full,
                                handle,
                                merged_at,
                            ));
                        }
                        updates.push(Some(nd));
                    },
                }
            }
            si = si + 1;
        }

        // Everything checked: commit the buckets, the streaks, and the
        // record itself.
        let mut j: usize = 0;
        let pending_len = pending.len();
        proof {
            assert(pending.entries@.take(0) =~= Seq::<((String, String), UserPeriodData)>::empty());
            assert(base_map.union_prefer_right(crate::kv::pair_map_of(pending.entries@.take(0)))
                =~= base_map);
        }
        while j < pending_len
            invariant
                pending.wf(),
                pending_len == pending.entries@.len(),
                0 <= j <= pending_len,
                self.sloths_per_period.wf(),
                self.sloths_per_period@ == base_map.union_prefer_right(
                    crate::kv::pair_map_of(pending.entries@.take(j as int)),
                ),
                self.prs == old(self).prs,
                self.executed_prs == old(self).executed_prs,
                self.user_streaks == old(self).user_streaks,
                self.streaks == old(self).streaks,
                self.allowed_orgs == old(self).allowed_orgs,
                self.paused_repos == old(self).paused_repos,
                self.excluded_prs == old(self).excluded_prs,
            decreases pending_len - j,
        {
            let a_k = pending.entry_at(j).0.0.clone();
            let b_k = pending.entry_at(j).0.1.clone();
            let v = pending.entry_at(j).1;
            proof {
                assert(pending.entries@.take(j + 1).drop_last() =~= pending.entries@.take(j as int));
            }
            self.sloths_per_period.insert(a_k, b_k, v);
            proof {
                let e = pending.entries@[j as int];
                assert(self.sloths_per_period@ =~= base_map.union_prefer_right(
                    crate::kv::pair_map_of(pending.entries@.take(j + 1)),
                ));
            }
            j = j + 1;
        }
        proof {
            assert(pending.entries@.take(pending_len as int) =~= pending.entries@);
            assert(self.sloths_per_period@ == folded_full);
            assert forall|k: (Seq<char>, Seq<char>)|
                self.sloths_per_period@.contains_key(k) implies (
            #[trigger] self.sloths_per_period@[k]).executed_prs > 0 by {
                if pending@.contains_key(k) {
                } else {
                    assert(base_map.contains_key(k));
                    assert(old(self).wf());
                }
            }
        }

        // Commit the streak updates, from the last streak down.
        let ghost updates_snapshot = updates@;
        let ghost pre_streak_progress = self.user_streaks@;
        while updates.len() > 0
            invariant
                old(self).wf(),
                handle == record.author@,
                author@ == handle,
                updates@.len() <= updates_snapshot.len(),
                updates@ =~= updates_snapshot.take(updates@.len() as int),
                updates_snapshot.len() == self.streaks@.len(),
                pre_streak_progress == old(self).user_streaks@,
                self.user_streaks@.len() == pre_streak_progress.len(),
                self.streaks@.len() == self.user_streaks@.len(),
                forall|m: int|
                    0 <= m < updates@.len() ==> self.user_streaks@[m] == pre_streak_progress[m],
                forall|m: int|
                    updates@.len() <= m < self.streaks@.len() && (
                    #[trigger] self.streaks@[m]).is_active ==> self.user_streaks@[m].wf()
                        && streak_map_updated(
                        pre_streak_progress[m]@,
                        self.user_streaks@[m]@,
                        handle,
                        spec_streak_amount_after(
                            self.streaks@[m],
                            pre_streak_progress[m]@,
                            folded_full,
                            handle,
                            merged_at,
                        ),
                        spec_streak_latest_after(
                            self.streaks@[m],
                            pre_streak_progress[m]@,
                            folded_full,
                            handle,
                            merged_at,
                        ),
                    ),
                forall|m: int|
                    updates@.len() <= m < self.streaks@.len() && !(
                    #[trigger] self.streaks@[m]).is_active ==> self.user_streaks@[m]
                        == pre_streak_progress[m],
                forall|j2: int|
                    0 <= j2 < updates_snapshot.len() && (#[trigger] self.streaks@[j2]).is_active
                        ==> updates_snapshot[j2] is Some && updates_snapshot[j2]->0.amount as int
                        == spec_streak_amount_after(
                        self.streaks@[j2],
                        pre_streak_progress[j2]@,
                        folded_full,
                        handle,
                        merged_at,
                    ) && updates_snapshot[j2]->0.latest_time_string@ == spec_streak_latest_after(
                        self.streaks@[j2],
                        pre_streak_progress[j2]@,
                        folded_full,
                        handle,
                        merged_at,
                    ),
                forall|j2: int|
                    0 <= j2 < updates_snapshot.len() && !(#[trigger] self.streaks@[j2]).is_active
                        ==> updates_snapshot[j2] is None,
                self.sloths_per_period.wf(),
                self.sloths_per_period@ == folded_full,
                forall|k: (Seq<char>, Seq<char>)|
                    self.sloths_per_period@.contains_key(k) ==> (
                    #[trigger] self.sloths_per_period@[k]).executed_prs > 0,
                self.prs == old(self).prs,
                self.executed_prs == old(self).executed_prs,
                self.streaks == old(self).streaks,
                self.allowed_orgs == old(self).allowed_orgs,
                self.paused_repos == old(self).paused_repos,
                self.excluded_prs == old(self).excluded_prs,
            decreases updates@.len(),
        {
            let ghost pre_pop = updates@;
            let slot_opt = updates.pop();
            let idx = updates.len();
            proof {
                assert(pre_pop =~= updates_snapshot.take(pre_pop.len() as int));
                assert(updates@ =~= updates_snapshot.take(idx as int));
                assert(slot_opt == Some(updates_snapshot[idx as int]));
            }
            match slot_opt {
                Some(Some(nd)) => {
                    let ghost old_maps = self.user_streaks@;
                    let mut m = self.user_streaks.remove(idx);
                    proof {
                        assert(m == pre_streak_progress[idx as int]);
                        assert(old(self).user_streaks@[idx as int].wf());
                    }
                    m.insert(author.clone(), nd);
                    self.user_streaks.insert(idx, m);
                    proof {
                        assert(self.user_streaks@ =~= old_maps.update(
                            idx as int,
                            self.user_streaks@[idx as int],
                        ));
                        assert(self.user_streaks@[idx as int]@ =~= old_maps[idx as int]@.insert(
                            handle,
                            nd,
                        ));
                        assert(self.user_streaks@[idx as int]@.remove(handle)
                            =~= pre_streak_progress[idx as int]@.remove(handle));
                    }
                },
                Some(None) => {
                },
                None => {
                },
            }
        }
        proof {
            assert(updates@.len() == 0);
        }
        let ghost rec_ghost = record;
        self.executed_prs.insert(id, record);
        proof {
            assert forall|i2: int| 0 <= i2 < self.user_streaks@.len() implies (
            #[trigger] self.user_streaks@[i2]).wf() by {
                if self.streaks@[i2].is_active {
                } else {
                    assert(self.user_streaks@[i2] == old(self).user_streaks@[i2]);
                }
            }
            assert(executed_transition(*old(self), *self, id@, rec_ghost));
        }
        Ok(())
    }

    /// Fold one executed record's score into every period bucket of its
    /// author, exactly as the executed transition does, without touching
    /// anything else. Used by the migration rebuild.
    #[verifier::loop_isolation(false)]
    pub fn count_score_to_periods(&mut self, record: &PRRecord, score: u64) -> (r: Result<
        (),
        LedgerError,
    >)
        requires
            old(self).wf(),
            record.merged_at is Some,
        ensures
            final(self).wf(),
            match r {
                Ok(()) => {
                    &&& fold_ok(
                        old(self).sloths_per_period@,
                        record.author@,
                        record.merged_at->0,
                        score,
                        all_periods_seq(),
                    )
                    &&& final(self).sloths_per_period@ == folded_buckets(
                        old(self).sloths_per_period@,
                        record.author@,
                        record.merged_at->0,
                        score,
                        all_periods_seq(),
                    )
                    &&& buckets_only_changed(*old(self), *final(self))
                },
                Err(e) => {
                    &&& e == LedgerError::CounterOverflow
                    &&& !fold_ok(
                        old(self).sloths_per_period@,
                        record.author@,
                        record.merged_at->0,
                        score,
                        all_periods_seq(),
                    )
                    &&& *final(self) == *old(self)
                },
            },
    {
        let author = record.author.clone();
        let merged_at = match record.merged_at {
            Some(t) => t,
            None => 0,
        };
        let ghost handle = record.author@;
        let ghost base_map = self.sloths_per_period@;
        let periods = TimePeriod::all();
        let mut pending: PairMap<UserPeriodData> = PairMap::new();
        let mut i: usize = 0;
        proof {
            assert(periods@.take(0) =~= Seq::<TimePeriod>::empty());
            assert(base_map.union_prefer_right(pending@) =~= base_map);
        }
        while i < periods.len()
            invariant
                *self == *old(self),
                0 <= i <= periods@.len(),
                pending.wf(),
                base_map.union_prefer_right(pending@) == folded_buckets(
                    base_map,
                    handle,
                    merged_at,
                    score,
                    periods@.take(i as int),
                ),
                fold_ok(base_map, handle, merged_at, score, periods@.take(i as int)),
                forall|k: (Seq<char>, Seq<char>)|
                    pending@.contains_key(k) ==> (#[trigger] pending@[k]).executed_prs > 0,
            decreases periods@.len() - i,
        {
            let p = periods[i];
            let ts_str = p.time_string(merged_at);
            let base = lookup_bucket(&pending, &self.sloths_per_period, &author, &ts_str);
            proof {
                assert(periods@.take(i + 1).drop_last() =~= periods@.take(i as int));
                assert(periods@.take(i + 1).last() == p);
            }
            match checked_bump(base, score) {
                None => {
                    proof {
                        assert(!fold_ok(base_map, handle, merged_at, score, periods@.take(i + 1)));
                        lemma_fold_ok_extends_contra(
                            base_map,
                            handle,
                            merged_at,
                            score,
                            periods@,
                            i + 1,
                        );
                    }
                    return Err(LedgerError::CounterOverflow);
                },
                Some(nd) => {
                    let ghost oldpending = pending@;
                    pending.insert(author.clone(), ts_str, nd);
                    proof {
                        assert(base_map.union_prefer_right(pending@) =~= base_map.union_prefer_right(
                            oldpending,
                        ).insert((handle, spec_time_string(p, merged_at)), nd));
                    }
                },
            }
            i = i + 1;
        }
        proof {
            assert(periods@.take(periods@.len() as int) =~= periods@);
        }
        let ghost folded_full = base_map.union_prefer_right(pending@);
        let mut j: usize = 0;
        let pending_len = pending.len();
        proof {
            assert(pending.entries@.take(0) =~= Seq::<((String, String), UserPeriodData)>::empty());
            assert(base_map.union_prefer_right(crate::kv::pair_map_of(pending.entries@.take(0)))
                =~= base_map);
        }
        while j < pending_len
            invariant
                pending.wf(),
                pending_len == pending.entries@.len(),
                0 <= j <= pending_len,
                self.sloths_per_period.wf(),
                self.sloths_per_period@ == base_map.union_prefer_right(
                    crate::kv::pair_map_of(pending.entries@.take(j as int)),
                ),
                self.prs == old(self).prs,
                self.executed_prs == old(self).executed_prs,
                self.user_streaks == old(self).user_streaks,
                self.streaks == old(self).streaks,
                self.allowed_orgs == old(self).allowed_orgs,
                self.paused_repos == old(self).paused_repos,
                self.excluded_prs == old(self).excluded_prs,
            decreases pending_len - j,
        {
            let a_k = pending.entry_at(j).0.0.clone();
            let b_k = pending.entry_at(j).0.1.clone();
            let v = pending.entry_at(j).1;
            proof {
                assert(pending.entries@.take(j + 1).drop_last() =~= pending.entries@.take(j as int));
            }
            self.sloths_per_period.insert(a_k, b_k, v);
            proof {
                assert(self.sloths_per_period@ =~= base_map.union_prefer_right(
                    crate::kv::pair_map_of(pending.entries@.take(j + 1)),
                ));
            }
            j = j + 1;
        }
        proof {
            assert(pending.entries@.take(pending_len as int) =~= pending.entries@);
            assert forall|k: (Seq<char>, Seq<char>)|
                self.sloths_per_period@.contains_key(k) implies (
            #[trigger] self.sloths_per_period@[k]).executed_prs > 0 by {
                if pending@.contains_key(k) {
                } else {
                    assert(base_map.contains_key(k));
                }
            }
        }
        Ok(())
    }

    /// Recompute one user's progress on every active streak from scratch:
    /// walk backward from the bucket of `now` while the criteria hold in
    /// each bucket, and record the run length. The latest-extension bucket
    /// is that of `now` when the run is alive, and empty otherwise.
    /// All-or-nothing on overflow.
    #[verifier::loop_isolation(false)]
    pub fn calculate_streak(&mut self, user: &String, now: u64) -> (r: Result<(), LedgerError>)
        requires
            old(self).wf(),
            now < u64::MAX,
        ensures
            final(self).wf(),
            match r {
                Ok(()) => {
                    &&& forall|si: int|
                        0 <= si < old(self).streaks@.len() && (
                        #[trigger] old(self).streaks@[si]).is_active ==> streak_map_updated(
                            old(self).user_streaks@[si]@,
                            final(self).user_streaks@[si]@,
                            user@,
                            spec_walk(
                                old(self).streaks@[si],
                                old(self).sloths_per_period@,
                                user@,
                                now,
                                now as nat,
                            ) as int,
                            spec_walk_latest(
                                old(self).streaks@[si],
                                old(self).sloths_per_period@,
                                user@,
                                now,
                            ),
                        )
                    &&& forall|si: int|
                        0 <= si < old(self).streaks@.len() && !(
                        #[trigger] old(self).streaks@[si]).is_active
                            ==> final(self).user_streaks@[si] == old(self).user_streaks@[si]
                    &&& final(self).user_streaks@.len() == old(self).user_streaks@.len()
                    &&& final(self).prs == old(self).prs
                    &&& final(self).executed_prs == old(self).executed_prs
                    &&& final(self).sloths_per_period == old(self).sloths_per_period
                    &&& final(self).streaks == old(self).streaks
                    &&& final(self).allowed_orgs == old(self).allowed_orgs
                    &&& final(self).paused_repos == old(self).paused_repos
                    &&& final(self).excluded_prs == old(self).excluded_prs
                },
                Err(e) => {
                    &&& e == LedgerError::CounterOverflow
                    &&& *final(self) == *old(self)
                    &&& exists|si: int|
                        0 <= si < old(self).streaks@.len() && (
                        #[trigger] old(self).streaks@[si]).is_active && spec_walk(
                            old(self).streaks@[si],
                            old(self).sloths_per_period@,
                            user@,
                            now,
                            now as nat,
                        ) > u32::MAX
                },
            },
    {
        let mut updates: Vec<Option<StreakUserData>> = Vec::new();
        let mut si: usize = 0;
        while si < self.streaks.len()
            invariant
                *self == *old(self),
                0 <= si <= self.streaks@.len(),
                updates@.len() == si,
                forall|j: int|
                    0 <= j < si && (#[trigger] self.streaks@[j]).is_active ==> updates@[j] is Some
                        && updates@[j]->0.amount as int == spec_walk(
                        self.streaks@[j],
                        self.sloths_per_period@,
                        user@,
                        now,
                        now as nat,
                    ) as int && updates@[j]->0.latest_time_string@ == spec_walk_latest(
                        self.streaks@[j],
                        self.sloths_per_period@,
                        user@,
                        now,
                    ),
                forall|j: int|
                    0 <= j < si && !(#[trigger] self.streaks@[j]).is_active ==> updates@[j]
                        is None,
            decreases self.streaks@.len() - si,
        {
            if !self.streaks[si].is_active {
                updates.push(None);
            } else {
                let w = walk_streak(&self.streaks[si], &self.sloths_per_period, user, now);
                if w > (u32::MAX as u64) {
                    return Err(LedgerError::CounterOverflow);
                }
                let cur = self.streaks[si].time_period.time_string(now);
                let latest = if w > 0 {
                    cur
                } else {
                    String::new()
                };
                updates.push(Some(StreakUserData { amount: w as u32, latest_time_string: latest }));
            }
            si = si + 1;
        }
        let ghost updates_snapshot = updates@;
        let ghost pre_streak_progress = self.user_streaks@;
        while updates.len() > 0
            invariant
                updates@.len() <= updates_snapshot.len(),
                updates@ =~= updates_snapshot.take(updates@.len() as int),
                updates_snapshot.len() == self.streaks@.len(),
                self.user_streaks@.len() == pre_streak_progress.len(),
                forall|m: int|
                    0 <= m < updates@.len() ==> self.user_streaks@[m] == pre_streak_progress[m],
                forall|m: int|
                    updates@.len() <= m < self.streaks@.len() && (
                    #[trigger] self.streaks@[m]).is_active ==> self.user_streaks@[m].wf()
                        && streak_map_updated(
                        pre_streak_progress[m]@,
                        self.user_streaks@[m]@,
                        user@,
                        spec_walk(
                            self.streaks@[m],
                            self.sloths_per_period@,
                            user@,
                            now,
                            now as nat,
                        ) as int,
                        spec_walk_latest(
                            self.streaks@[m],
                            self.sloths_per_period@,
                            user@,
                            now,
                        ),
                    ),
                forall|m: int|
                    updates@.len() <= m < self.streaks@.len() && !(
                    #[trigger] self.streaks@[m]).is_active ==> self.user_streaks@[m]
                        == pre_streak_progress[m],
                self.prs == old(self).prs,
                self.executed_prs == old(self).executed_prs,
                self.sloths_per_period == old(self).sloths_per_period,
                self.streaks == old(self).streaks,
                self.allowed_orgs == old(self).allowed_orgs,
                self.paused_repos == old(self).paused_repos,
                self.excluded_prs == old(self).excluded_prs,
            decreases updates@.len(),
        {
            let ghost pre_pop = updates@;
            let slot_opt = updates.pop();
            let idx = updates.len();
            proof {
                assert(pre_pop =~= updates_snapshot.take(pre_pop.len() as int));
                assert(updates@ =~= updates_snapshot.take(idx as int));
                assert(slot_opt == Some(updates_snapshot[idx as int]));
            }
            match slot_opt {
                Some(Some(nd)) => {
                    let ghost old_maps = self.user_streaks@;
                    let mut m = self.user_streaks.remove(idx);
                    proof {
                        assert(m == pre_streak_progress[idx as int]);
                        assert(old(self).user_streaks@[idx as int].wf());
                    }
                    m.insert(user.clone(), nd);
                    self.user_streaks.insert(idx, m);
                    proof {
                        assert(self.user_streaks@ =~= old_maps.update(
                            idx as int,
                            self.user_streaks@[idx as int],
                        ));
                        assert(self.user_streaks@[idx as int]@ =~= old_maps[idx as int]@.insert(
                            user@,
                            nd,
                        ));
                        assert(self.user_streaks@[idx as int]@.remove(user@)
                            =~= pre_streak_progress[idx as int]@.remove(user@));
                    }
                },
                Some(None) => {
                },
                None => {
                },
            }
        }
        proof {
            assert forall|i2: int| 0 <= i2 < self.user_streaks@.len() implies (
            #[trigger] self.user_streaks@[i2]).wf() by {
                if self.streaks@[i2].is_active {
                } else {
                    assert(self.user_streaks@[i2] == old(self).user_streaks@[i2]);
                }
            }
        }
        Ok(())
    }

    /// One page of the contributions that have no merge timestamp yet, in
    /// store order.
    #[verifier::loop_isolation(false)]
    pub fn unmerged_prs(&self, page: u64, limit: u64) -> (r: Vec<PRData>)
        requires
            self.wf(),
            page * limit + limit <= usize::MAX,
        ensures
            ({
                let all = spec_unmerged(self.prs.entries@);
                let start = page * limit;
                &&& r@.len() == (if start >= all.len() {
                    0int
                } else if start + limit <= all.len() {
                    limit as int
                } else {
                    all.len() - start
                })
                &&& forall|i: int|
                    0 <= i < r@.len() ==> pr_data_view(#[trigger] r@[i]) == all[start + i]
            }),
    {
        let ghost all = spec_unmerged(self.prs.entries@);
        let start = page * limit;
        let mut out: Vec<PRData> = Vec::new();
        let mut seen: usize = 0;
        let mut i: usize = 0;
        let n = self.prs.len();
        proof {
            assert(self.prs.entries@.take(0) =~= Seq::<(String, PRRecord)>::empty());
        }
        while i < n
            invariant
                0 <= i <= self.prs.entries@.len(),
                n == self.prs.entries@.len(),
                start == page * limit,
                seen == spec_unmerged(self.prs.entries@.take(i as int)).len(),
                seen <= i,
                out@.len() == (if start >= seen {
                    0int
                } else if start + limit <= seen {
                    limit as int
                } else {
                    seen - start
                }),
                forall|k: int|
                    0 <= k < out@.len() ==> pr_data_view(#[trigger] out@[k]) == spec_unmerged(
                        self.prs.entries@.take(i as int),
                    )[start + k],
                forall|k: int|
                    0 <= k < seen ==> spec_unmerged(self.prs.entries@.take(i as int))[k] == all[k],
            decreases n - i,
        {
            proof {
                assert(self.prs.entries@.take(i + 1).drop_last() =~= self.prs.entries@.take(
                    i as int,
                ));
                assert(self.prs.entries@.take(i + 1).last() == self.prs.entries@[i as int]);
                lemma_unmerged_prefix(self.prs.entries@, i + 1);
            }
            let rec = &self.prs.entry_at(i).1;
            if rec.merged_at.is_none() {
                if (seen as u64) >= start && (out.len() as u64) < limit {
                    out.push(
                        PRData {
                            organization: rec.organization.clone(),
                            repo: rec.repo.clone(),
                            number: rec.number,
                        },
                    );
                }
                seen = seen + 1;
            }
            i = i + 1;
        }
        proof {
            assert(self.prs.entries@.take(n as int) =~= self.prs.entries@);
        }
        out
    }

    /// Every unmerged contribution, fetched page by page until an empty
    /// page comes back.
    #[verifier::loop_isolation(false)]
    pub fn unmerged_prs_all(&self) -> (r: Vec<PRData>)
        requires
            self.wf(),
            self.prs.entries@.len() + 200 <= usize::MAX,
        ensures
            ({
                let all = spec_unmerged(self.prs.entries@);
                &&& r@.len() == all.len()
                &&& forall|i: int| 0 <= i < r@.len() ==> pr_data_view(#[trigger] r@[i]) == all[i]
            }),
    {
        let ghost all = spec_unmerged(self.prs.entries@);
        proof {
            lemma_unmerged_len(self.prs.entries@);
        }
        let mut res: Vec<PRData> = Vec::new();
        let mut page: u64 = 0;
        let mut more = true;
        while more
            invariant
                page * 100 <= all.len() + 100,
                res@.len() == (if all.len() <= page * 100 {
                    all.len() as int
                } else {
                    (page * 100) as int
                }),
                forall|i: int| 0 <= i < res@.len() ==> pr_data_view(#[trigger] res@[i]) == all[i],
                !more ==> res@.len() == all.len(),
            decreases all.len() + 100 - page * 100, (if more {
                1int
            } else {
                0int
            }),
        {
            let mut prs = self.unmerged_prs(page, 100);
            if prs.len() == 0 {
                more = false;
            } else {
                let ghost pre = res@;
                let ghost got = prs@;
                res.append(&mut prs);
                proof {
                    assert(forall|i: int| 0 <= i < pre.len() ==> res@[i] == #[trigger] pre[i]);
                    assert(forall|i: int|
                        0 <= i < got.len() ==> res@[pre.len() + i] == #[trigger] got[i]);
                }
                page = page + 1;
            }
        }
        res
    }

    /// Flag a contribution excluded/stale. The record (if any) moves to the
    /// exclusion set; the flag is never removed.
    pub fn sloth_stale(&mut self, pr_id: &String)
        requires
            old(self).wf(),
        ensures
            final(self).wf(),
            str_in_seq(final(self).excluded_prs@, pr_id@),
            forall|k: Seq<char>|
                str_in_seq(final(self).excluded_prs@, k) <==> (str_in_seq(
                    old(self).excluded_prs@,
                    k,
                ) || k == pr_id@),
            final(self).prs@ == old(self).prs@.remove(pr_id@),
            final(self).executed_prs == old(self).executed_prs,
            final(self).sloths_per_period == old(self).sloths_per_period,
            final(self).user_streaks == old(self).user_streaks,
            final(self).allowed_orgs == old(self).allowed_orgs,
            final(self).paused_repos == old(self).paused_repos,
            final(self).streaks == old(self).streaks,
    {
        let _removed = self.prs.remove(pr_id);
        proof {
            if _removed is None {
                assert(old(self).prs@.remove(pr_id@) =~= old(self).prs@);
            }
        }
        let ghost oldex = self.excluded_prs@;
        self.excluded_prs.push(pr_id.clone());
        proof {
            assert(forall|j: int| 0 <= j < oldex.len() ==> self.excluded_prs@[j] == #[trigger] oldex[j]);
            assert(self.excluded_prs@.last()@ == pr_id@);
            assert forall|k: Seq<char>|
                str_in_seq(self.excluded_prs@, k) <==> (str_in_seq(oldex, k) || k == pr_id@) by {
                if str_in_seq(self.excluded_prs@, k) {
                    let j = choose|j: int|
                        0 <= j < self.excluded_prs@.len() && (#[trigger] self.excluded_prs@[j])@
                            == k;
                    if j < oldex.len() {
                        assert(oldex[j]@ == k);
                    }
                }
                if str_in_seq(oldex, k) {
                    let j = choose|j: int| 0 <= j < oldex.len() && (#[trigger] oldex[j])@ == k;
                    assert(self.excluded_prs@[j]@ == k);
                }
                if k == pr_id@ {
                    assert(self.excluded_prs@[self.excluded_prs@.len() - 1]@ == k);
                }
            }
        }
    }
}

} // verus!
