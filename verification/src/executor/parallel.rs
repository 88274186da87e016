//! Parallel step helpers: the concurrency cap, timestamps for branch entries,
//! and the string join of branch results.
use std::time::SystemTime;
use vstd::prelude::*;
use vstd::string::*;

use crate::config::domain::{ActionKind, JoinErrorMode, Step, StepBody};
use crate::error::{AilError, ErrorKind};
use crate::executor::cancel::CancelToken;
use crate::executor::schema::{json_object_of_texts, json_object_text, json_text_parses, parse_json_document};
use crate::executor::turn::TurnEntry;
use crate::session::{hyphenated_uuid, is_lower_hex, new_uuid_v4};
use crate::text::{
    lemma_lex_irreflexive, lemma_lex_total, lemma_lex_transitive, lex_less, lex_lt, push_zero_padded,
    push_char, str_eq, to_chars, zero_padded, occurs_in, lemma_occurs_in_middle, lemma_occurs_in_extend,
};

verus! {

// ── Concurrency cap ──────────────────────────────────────────────────────────

/// Counting semaphore enforcing `defaults.max_concurrency`.
pub struct ConcurrencySemaphore {
    max: usize,
    current: usize,
}

impl ConcurrencySemaphore {
    /// The number of slots.
    pub closed spec fn max_slots(self) -> nat {
        self.max as nat
    }

    /// The number of slots in use.
    pub closed spec fn in_use(self) -> nat {
        self.current as nat
    }

    /// The slots in use never exceed the slots available (or are zero).
    pub closed spec fn wf(self) -> bool {
        self.current <= self.max
    }

    /// A semaphore with `max` slots, none in use.
    pub fn new(max: usize) -> (s: Self)
        ensures
            s.wf(),
            s.max_slots() == max,
            s.in_use() == 0,
    {
        ConcurrencySemaphore { max, current: 0 }
    }

    /// Acquire a slot, unless the cancel token has fired. Returns `true` if a
    /// slot was taken, `false` (and nothing changes) if cancelled.
    ///
    /// On a full semaphore this call waits until the token fires: with
    /// exclusive access no holder can release a slot, and the wait is not
    /// something a terminating function can do, so a free slot is required.
    /// `acquire_unless_cancelled` takes the token's answer and also covers a
    /// full semaphore once the token has fired.
    pub fn acquire(&mut self, cancel: &CancelToken) -> (acquired: bool)
        requires
            old(self).wf(),
            old(self).in_use() < old(self).max_slots(),
        ensures
            final(self).wf(),
            final(self).max_slots() == old(self).max_slots(),
            acquired ==> final(self).in_use() == old(self).in_use() + 1,
            !acquired ==> final(self).in_use() == old(self).in_use(),
    {
        let cancelled = cancel.is_cancelled();
        self.acquire_unless_cancelled(cancelled)
    }

    /// Acquire a slot given whether the cancel token had fired: a slot is
    /// taken exactly when it had not.
    pub fn acquire_unless_cancelled(&mut self, cancelled: bool) -> (acquired: bool)
        requires
            old(self).wf(),
            old(self).in_use() < old(self).max_slots() || cancelled,
        ensures
            final(self).wf(),
            final(self).max_slots() == old(self).max_slots(),
            acquired == !cancelled,
            acquired ==> final(self).in_use() == old(self).in_use() + 1,
            !acquired ==> final(self).in_use() == old(self).in_use(),
    {
        if cancelled {
            return false;
        }
        self.current = self.current + 1;
        true
    }

    /// Release a slot. Releasing with no slot in use changes nothing.
    pub fn release(&mut self)
        requires
            old(self).wf(),
        ensures
            final(self).wf(),
            final(self).max_slots() == old(self).max_slots(),
            final(self).in_use() == if old(self).in_use() > 0 {
                (old(self).in_use() - 1) as nat
            } else {
                0
            },
    {
        if self.current > 0 {
            self.current = self.current - 1;
        }
    }

    /// Whether a slot is free now.
    pub fn has_free_slot(&self) -> (b: bool)
        ensures
            b == (self.in_use() < self.max_slots()),
    {
        self.current < self.max
    }
}

/// Acquiring a slot and then releasing one leaves the semaphore as it was:
/// `acquired` is `s` after an `acquire` that took a slot, `released` is
/// `acquired` after a `release` (each as their contracts describe them).
pub proof fn lemma_acquire_release_restores(
    s: ConcurrencySemaphore,
    acquired: ConcurrencySemaphore,
    released: ConcurrencySemaphore,
)
    requires
        acquired.max_slots() == s.max_slots(),
        acquired.in_use() == s.in_use() + 1,
        released.max_slots() == acquired.max_slots(),
        released.in_use() == if acquired.in_use() > 0 {
            (acquired.in_use() - 1) as nat
        } else {
            0
        },
    ensures
        released.max_slots() == s.max_slots(),
        released.in_use() == s.in_use(),
{
}

// ── Timestamps ───────────────────────────────────────────────────────────────

/// The civil date of a count of days since 1970-01-01 (proleptic Gregorian),
/// as `(year, month, day)`, following the days-to-civil algorithm on eras
/// of 400 years.
pub open spec fn civil_from_days(days: int) -> (int, int, int) {
    let z = days + 719468;
    let era = z / 146097;
    let doe = z % 146097;
    let yoe = (doe - doe / 1460 + doe / 36524 - doe / 146096) / 365;
    let y = yoe + era * 400;
    let doy = doe - (365 * yoe + yoe / 4 - yoe / 100);
    let mp = (5 * doy + 2) / 153;
    let d = doy - (153 * mp + 2) / 5 + 1;
    let m = if mp < 10 { mp + 3 } else { mp - 9 };
    (if m <= 2 { y + 1 } else { y }, m, d)
}

/// `civil_from_secs` as plain values: `(y, m, d, hh, mm, ss)`, the year
/// truncated to 32 bits.
pub open spec fn civil_spec(secs: nat) -> (u32, u32, u32, u32, u32, u32) {
    let (y, m, d) = civil_from_days((secs / 86400) as int);
    (
        y as u32,
        m as u32,
        d as u32,
        ((secs / 3600) % 24) as u32,
        ((secs / 60) % 60) as u32,
        (secs % 60) as u32,
    )
}

/// The ISO 8601 UTC timestamp `YYYY-MM-DDTHH:MM:SS.mmmZ` of `secs` seconds and
/// `millis` milliseconds after the epoch.
pub open spec fn iso8601_spec(secs: nat, millis: nat) -> Seq<char> {
    let (y, m, d, hh, mm, ss) = civil_spec(secs);
    zero_padded(y as nat, 4) + seq!['-'] + zero_padded(m as nat, 2) + seq!['-'] + zero_padded(
        d as nat,
        2,
    ) + seq!['T'] + zero_padded(hh as nat, 2) + seq![':'] + zero_padded(mm as nat, 2) + seq![':']
        + zero_padded(ss as nat, 2) + seq!['.'] + zero_padded(millis, 3) + seq!['Z']
}

/// Minimal civil calendar conversion for ISO 8601 timestamps.
pub fn civil_from_secs(secs: u64) -> (r: (u32, u32, u32, u32, u32, u32))
    ensures
        r == civil_spec(secs as nat),
{
    let ss = (secs % 60) as u32;
    let mm = ((secs / 60) % 60) as u32;
    let hh = ((secs / 3600) % 24) as u32;
    let z: i64 = (secs / 86400) as i64 + 719468;
    let era: i64 = z / 146097;
    let doe: i64 = z % 146097;
    assert(0 <= doe < 146097);
    let yoe: i64 = (doe - doe / 1460 + doe / 36524 - doe / 146096) / 365;
    assert(0 <= yoe <= 400);
    let y: i64 = yoe + era * 400;
    let doy: i64 = doe - (365 * yoe + yoe / 4 - yoe / 100);
    let mp: i64 = (5 * doy + 2) / 153;
    let d: i64 = doy - (153 * mp + 2) / 5 + 1;
    let m: i64 = if mp < 10 { mp + 3 } else { mp - 9 };
    let y2: i64 = if m <= 2 { y + 1 } else { y };
    (
        #[verifier::truncate]
        (y2 as u32),
        #[verifier::truncate]
        (m as u32),
        #[verifier::truncate]
        (d as u32),
        hh,
        mm,
        ss,
    )
}

/// Render `secs` and `millis` after the epoch as an ISO 8601 UTC timestamp
/// to millisecond precision.
pub fn iso8601_from_parts(secs: u64, millis: u32) -> (s: String)
    ensures
        s@ == iso8601_spec(secs as nat, millis as nat),
{
    let (y, m, d, hh, mm, ss) = civil_from_secs(secs);
    let mut s = String::new();
    push_zero_padded(&mut s, y as u64, 4);
    s.append("-");
    push_zero_padded(&mut s, m as u64, 2);
    s.append("-");
    push_zero_padded(&mut s, d as u64, 2);
    s.append("T");
    push_zero_padded(&mut s, hh as u64, 2);
    s.append(":");
    push_zero_padded(&mut s, mm as u64, 2);
    s.append(":");
    push_zero_padded(&mut s, ss as u64, 2);
    s.append(".");
    push_zero_padded(&mut s, millis as u64, 3);
    s.append("Z");
    proof {
        reveal_strlit("-");
        reveal_strlit("T");
        reveal_strlit(":");
        reveal_strlit(".");
        reveal_strlit("Z");
        assert(s@ =~= iso8601_spec(secs as nat, millis as nat));
    }
    s
}

/// Calls `SystemTime::duration_since(UNIX_EPOCH)` (zero for times before the
/// epoch, as `unwrap_or_default` gives) and splits it into whole seconds and
/// `Duration::subsec_millis`, which std documents to be below 1000.
#[verifier::external_body]
fn epoch_parts(t: SystemTime) -> (r: (u64, u32))
    ensures
        r.1 < 1000,
{
    let dur = t.duration_since(SystemTime::UNIX_EPOCH).unwrap_or_default();
    (dur.as_secs(), dur.subsec_millis())
}

/// Render a `SystemTime` as an ISO 8601 UTC timestamp to millisecond precision.
pub fn iso8601(t: SystemTime) -> (s: String)
    ensures
        exists|secs: u64, millis: u32| millis < 1000 && s@ == iso8601_spec(secs as nat, millis as nat),
{
    let (secs, millis) = epoch_parts(t);
    iso8601_from_parts(secs, millis)
}

// ── Join steps ───────────────────────────────────────────────────────────────

/// True when the step is an `action: join` step.
pub fn is_join_step(step: &Step) -> (b: bool)
    ensures
        b == (step.body matches StepBody::Action(ActionKind::Join { .. })),
{
    match &step.body {
        StepBody::Action(ActionKind::Join { .. }) => true,
        _ => false,
    }
}

/// Extract the join's error mode. Returns `None` when the step is not a join.
pub fn join_error_mode(step: &Step) -> (r: Option<&JoinErrorMode>)
    ensures
        match step.body {
            StepBody::Action(ActionKind::Join { on_error_mode }) => r == Some(&on_error_mode),
            _ => r is None,
        },
{
    match &step.body {
        StepBody::Action(ActionKind::Join { on_error_mode }) => Some(on_error_mode),
        _ => None,
    }
}

/// A short id that groups the entries of one run of async branches: `cg-`
/// and the first eight hexadecimal digits of a fresh random UUID.
pub fn new_concurrent_group_id() -> (r: String)
    ensures
        r@.len() == 11,
        r@.take(3) == "cg-"@,
        forall|i: int| 3 <= i < 11 ==> is_lower_hex(#[trigger] r@[i]),
{
    let id = new_uuid_v4();
    let digits = to_chars(id.as_str());
    let mut r = String::from_str("cg-");
    proof {
        reveal_strlit("cg-");
    }
    let mut k: usize = 0;
    while k < 8
        invariant
            k <= 8,
            hyphenated_uuid(digits@),
            r@.len() == 3 + k,
            r@.take(3) == "cg-"@,
            forall|i: int| 3 <= i < 3 + k ==> is_lower_hex(#[trigger] r@[i]),
        decreases 8 - k,
    {
        let ghost prev = r@;
        assert(is_lower_hex(digits@[k as int]));
        push_char(&mut r, digits[k]);
        assert(r@.take(3) =~= prev.take(3));
        k += 1;
    }
    r
}

/// Calls `SystemTime::now`; the time is the machine's, so nothing is stated
/// of it.
#[verifier::external_body]
pub(crate) fn current_time() -> SystemTime {
    SystemTime::now()
}

/// Result of executing one async branch.
pub struct BranchResult {
    pub step_id: String,
    /// The branch's outcome: the completed entry or an error.
    pub outcome: Result<TurnEntry, AilError>,
    pub launched_at: String,
    pub completed_at: String,
    /// Entries the branch produced besides the outcome entry.
    pub extra_entries: Vec<TurnEntry>,
}

/// The last branch whose step id is `id` (later branches shadow earlier ones).
pub open spec fn branch_for(branches: Seq<BranchResult>, id: Seq<char>) -> Option<int>
    decreases branches.len(),
{
    if branches.len() == 0 {
        None
    } else if branches.last().step_id@ == id {
        Some(branches.len() - 1)
    } else {
        branch_for(branches.drop_last(), id)
    }
}

/// A found branch index lies within the branches.
pub proof fn lemma_branch_for_bounds(branches: Seq<BranchResult>, id: Seq<char>)
    ensures
        branch_for(branches, id) matches Some(i) ==> 0 <= i < branches.len(),
    decreases branches.len(),
{
    if branches.len() > 0 && branches.last().step_id@ != id {
        lemma_branch_for_bounds(branches.drop_last(), id);
    }
}

/// The response text of a successful branch entry (empty when absent).
pub open spec fn response_text(e: TurnEntry) -> Seq<char> {
    match e.response {
        Some(r) => r@,
        None => Seq::empty(),
    }
}

/// The block a dependency contributes to a string join.
pub open spec fn join_block(branches: Seq<BranchResult>, dep: Seq<char>) -> Seq<char> {
    match branch_for(branches, dep) {
        Some(i) => match branches[i].outcome {
            Ok(entry) => "["@ + dep + "]:\n"@ + response_text(entry) + "\n"@,
            Err(e) => "["@ + dep + "]:\n<error: "@ + e.detail_view() + ">\n"@,
        },
        None => "["@ + dep + "]:\n<missing>\n"@,
    }
}

/// The string join of the first `n` dependencies: their blocks, separated by
/// newlines.
pub open spec fn join_text(branches: Seq<BranchResult>, deps: Seq<Seq<char>>, n: int) -> Seq<char>
    decreases n,
{
    if n <= 0 {
        Seq::empty()
    } else if n == 1 {
        join_block(branches, deps[0])
    } else {
        join_text(branches, deps, n - 1) + "\n"@ + join_block(branches, deps[n - 1])
    }
}

/// Branch `i` is the last branch run for step `dep`.
pub open spec fn last_branch_of(branches: Seq<BranchResult>, dep: Seq<char>, i: int) -> bool {
    &&& 0 <= i < branches.len()
    &&& branches[i].step_id@ == dep
    &&& forall|j: int| i < j < branches.len() ==> (#[trigger] branches[j]).step_id@ != dep
}

/// A join reads, for a dependency, the last branch run for it, if any.
proof fn lemma_branch_for_last(branches: Seq<BranchResult>, dep: Seq<char>)
    ensures
        forall|i: int| last_branch_of(branches, dep, i) ==> branch_for(branches, dep) == Some(i),
        (forall|j: int| 0 <= j < branches.len() ==> (#[trigger] branches[j]).step_id@ != dep) ==> branch_for(
            branches,
            dep,
        ) is None,
    decreases branches.len(),
{
    if branches.len() > 0 {
        let t = branches.drop_last();
        lemma_branch_for_last(t, dep);
        assert forall|i: int| last_branch_of(branches, dep, i) implies branch_for(branches, dep) == Some(i) by {
            if i < branches.len() - 1 {
                assert(branches[branches.len() - 1].step_id@ != dep);
                assert forall|j: int| i < j < t.len() implies (#[trigger] t[j]).step_id@ != dep by {
                    assert(t[j] == branches[j]);
                }
                assert(t[i] == branches[i]);
                assert(last_branch_of(t, dep, i));
            }
        }
        if forall|j: int| 0 <= j < branches.len() ==> (#[trigger] branches[j]).step_id@ != dep {
            assert forall|j: int| 0 <= j < t.len() implies (#[trigger] t[j]).step_id@ != dep by {
                assert(t[j] == branches[j]);
            }
            assert(branches[branches.len() - 1].step_id@ != dep);
        }
    }
}

/// Every dependency's block stands in the string join.
proof fn lemma_join_block_occurs(branches: Seq<BranchResult>, deps: Seq<Seq<char>>, n: int, j: int)
    requires
        0 <= j < n <= deps.len(),
    ensures
        occurs_in(join_text(branches, deps, n), join_block(branches, deps[j])),
    decreases n,
{
    let b = join_block(branches, deps[n - 1]);
    if n == 1 {
        lemma_occurs_in_middle(Seq::empty(), b, Seq::empty());
        assert(Seq::<char>::empty() + b + Seq::<char>::empty() =~= b);
    } else if j == n - 1 {
        lemma_occurs_in_middle(join_text(branches, deps, n - 1) + "\n"@, b, Seq::empty());
        assert(join_text(branches, deps, n - 1) + "\n"@ + b + Seq::<char>::empty() =~= join_text(branches, deps, n));
    } else {
        lemma_join_block_occurs(branches, deps, n - 1, j);
        lemma_occurs_in_extend(
            Seq::empty(),
            join_text(branches, deps, n - 1),
            "\n"@ + b,
            join_block(branches, deps[j]),
        );
        assert(Seq::<char>::empty() + join_text(branches, deps, n - 1) + ("\n"@ + b) =~= join_text(branches, deps, n));
    }
}

/// A string join shows each dependency's outcome under its `[id]:` header:
/// the response of a branch that succeeded, `<error: detail>` with the error
/// of a branch that failed (as `wait_for_all` keeps them), and `<missing>`
/// for a dependency no branch ran for. The branch shown is the last one run
/// for the dependency.
pub proof fn lemma_join_shows_each_outcome(branches: Seq<BranchResult>, deps: Seq<Seq<char>>, n: int, j: int)
    requires
        0 <= j < n <= deps.len(),
    ensures
        forall|i: int| #[trigger] last_branch_of(branches, deps[j], i) ==> match branches[i].outcome {
            Ok(e) => occurs_in(join_text(branches, deps, n), "["@ + deps[j] + "]:\n"@ + response_text(e) + "\n"@),
            Err(er) => occurs_in(
                join_text(branches, deps, n),
                "["@ + deps[j] + "]:\n<error: "@ + er.detail_view() + ">\n"@,
            ),
        },
        (forall|i: int| 0 <= i < branches.len() ==> (#[trigger] branches[i]).step_id@ != deps[j]) ==> occurs_in(
            join_text(branches, deps, n),
            "["@ + deps[j] + "]:\n<missing>\n"@,
        ),
{
    lemma_join_block_occurs(branches, deps, n, j);
    lemma_branch_for_last(branches, deps[j]);
}

/// The first dependency (below `n`) whose branch failed, if any.
pub open spec fn first_failed(branches: Seq<BranchResult>, deps: Seq<Seq<char>>, n: int) -> Option<int>
    decreases n,
{
    if n <= 0 {
        None
    } else {
        match first_failed(branches, deps, n - 1) {
            Some(j) => Some(j),
            None => match branch_for(branches, deps[n - 1]) {
                Some(i) => if branches[i].outcome is Err {
                    Some(n - 1)
                } else {
                    None
                },
                None => None,
            },
        }
    }
}

/// Once a failed dependency is found, looking at more dependencies finds the
/// same one.
pub proof fn lemma_first_failed_stable(branches: Seq<BranchResult>, deps: Seq<Seq<char>>, n: int, m: int)
    requires
        n <= m,
        first_failed(branches, deps, n) is Some,
    ensures
        first_failed(branches, deps, m) == first_failed(branches, deps, n),
    decreases m - n,
{
    if n < m {
        lemma_first_failed_stable(branches, deps, n, m - 1);
    }
}

/// The branch last run for `dep` failed.
pub open spec fn dep_failed(branches: Seq<BranchResult>, dep: Seq<char>) -> bool {
    branch_for(branches, dep) matches Some(i) && branches[i].outcome is Err
}

/// Fail-fast reports the earliest failed dependency in declared order: the
/// one found has a failed branch and no dependency before it has, and none
/// is found exactly when no dependency has a failed branch.
pub proof fn lemma_first_failed_is_earliest(branches: Seq<BranchResult>, deps: Seq<Seq<char>>, n: int)
    requires
        0 <= n <= deps.len(),
    ensures
        first_failed(branches, deps, n) matches Some(j) ==> {
            &&& 0 <= j < n
            &&& dep_failed(branches, deps[j])
            &&& forall|j2: int| 0 <= j2 < j ==> !dep_failed(branches, #[trigger] deps[j2])
        },
        first_failed(branches, deps, n) is None <==> forall|j: int| 0 <= j < n ==> !dep_failed(branches, #[trigger] deps[j]),
    decreases n,
{
    if n > 0 {
        lemma_first_failed_is_earliest(branches, deps, n - 1);
        if first_failed(branches, deps, n - 1) is None {
            assert forall|j: int| 0 <= j < n - 1 implies !dep_failed(branches, #[trigger] deps[j]) by {}
        }
    }
}

/// The abort message for a failed dependency under fail-fast.
pub open spec fn fail_fast_message(dep: Seq<char>, detail: Seq<char>) -> Seq<char> {
    "Join dependency '"@ + dep + "' failed (fail_fast): "@ + detail
}

/// The index of the last branch whose step id is `id`.
fn find_branch(branches: &Vec<BranchResult>, id: &str) -> (r: Option<usize>)
    ensures
        match r {
            Some(i) => branch_for(branches@, id@) == Some(i as int),
            None => branch_for(branches@, id@) is None,
        },
{
    let mut i = branches.len();
    assert(branches@.subrange(0, i as int) =~= branches@);
    while i > 0
        invariant
            i <= branches.len(),
            branch_for(branches@, id@) == branch_for(branches@.subrange(0, i as int), id@),
        decreases i,
    {
        let ghost pre = branches@.subrange(0, i as int);
        assert(pre.last() == branches@[i - 1]);
        if str_eq(branches[i - 1].step_id.as_str(), id) {
            return Some(i - 1);
        }
        assert(pre.drop_last() =~= branches@.subrange(0, i - 1));
        i -= 1;
    }
    None
}

/// String join: concatenate branch responses with `[step_id]:` headers in
/// declaration order. Under fail-fast, the first failed dependency aborts
/// the join.
pub fn merge_string(deps_in_order: &Vec<&str>, branches: &Vec<BranchResult>, on_error_mode: &JoinErrorMode) -> (r: Result<String, AilError>)
    ensures
        ({
            let deps = deps_in_order@.map_values(|d: &str| d@);
            match r {
                Ok(s) => (*on_error_mode == JoinErrorMode::WaitForAll || first_failed(
                    branches@,
                    deps,
                    deps.len() as int,
                ) is None) && s@ == join_text(branches@, deps, deps.len() as int),
                Err(e) => {
                    &&& *on_error_mode == JoinErrorMode::FailFast
                    &&& first_failed(branches@, deps, deps.len() as int) matches Some(j)
                    &&& branch_for(branches@, deps[j]) matches Some(bi)
                    &&& branches@[bi].outcome matches Err(be)
                    &&& e.is_fresh(ErrorKind::PipelineAborted, fail_fast_message(deps[j], be.detail_view()))
                },
            }
        }),
{
    let ghost deps = deps_in_order@.map_values(|d: &str| d@);
    let mut out = String::new();
    let mut i: usize = 0;
    while i < deps_in_order.len()
        invariant
            i <= deps_in_order.len(),
            deps == deps_in_order@.map_values(|d: &str| d@),
            out@ == join_text(branches@, deps, i as int),
            *on_error_mode == JoinErrorMode::FailFast ==> first_failed(branches@, deps, i as int) is None,
        decreases deps_in_order.len() - i,
    {
        let dep = deps_in_order[i];
        assert(deps[i as int] == dep@);
        if i > 0 {
            out.append("\n");
        }
        match find_branch(branches, dep) {
            Some(bi) => {
                proof {
                    lemma_branch_for_bounds(branches@, dep@);
                }
                match &branches[bi].outcome {
                    Ok(entry) => {
                        out.append("[");
                        out.append(dep);
                        out.append("]:\n");
                        match &entry.response {
                            Some(resp) => out.append(resp.as_str()),
                            None => {},
                        }
                        out.append("\n");
                    },
                    Err(e) => {
                        if *on_error_mode == JoinErrorMode::FailFast {
                            let mut d = String::from_str("Join dependency '");
                            d.append(dep);
                            d.append("' failed (fail_fast): ");
                            d.append(e.detail());
                            proof {
                                assert(first_failed(branches@, deps, i + 1) == Some(i as int));
                                lemma_first_failed_stable(branches@, deps, i + 1, deps.len() as int);
                                assert(d@ =~= fail_fast_message(deps[i as int], e.detail_view()));
                            }
                            return Err(AilError::PipelineAborted { detail: d, context: None });
                        }
                        out.append("[");
                        out.append(dep);
                        out.append("]:\n<error: ");
                        out.append(e.detail());
                        out.append(">\n");
                    },
                }
            },
            None => {
                out.append("[");
                out.append(dep);
                out.append("]:\n<missing>\n");
            },
        }
        proof {
            assert(out@ =~= join_text(branches@, deps, i + 1));
        }
        i += 1;
    }
    proof {
        assert(deps.len() == i);
    }
    Ok(out)
}


// ── Join entries ─────────────────────────────────────────────────────────────

/// Each dependency has a branch, and that branch succeeded.
pub open spec fn all_succeeded(branches: Seq<BranchResult>, deps: Seq<Seq<char>>) -> bool {
    forall|j: int| 0 <= j < deps.len() ==> (#[trigger] branch_for(branches, deps[j]) matches Some(i)
        && branches[i].outcome is Ok)
}

/// The response texts of the dependencies' successful branches.
pub open spec fn dep_responses(branches: Seq<BranchResult>, deps: Seq<Seq<char>>) -> Seq<Seq<char>> {
    deps.map(|j: int, d: Seq<char>| response_text(branches[branch_for(branches, d)->0].outcome->Ok_0))
}

/// The position of the first text that is not JSON, if any.
pub open spec fn first_not_json(texts: Seq<Seq<char>>) -> Option<int>
    decreases texts.len(),
{
    if texts.len() == 0 {
        None
    } else {
        match first_not_json(texts.drop_last()) {
            Some(i) => Some(i),
            None => if json_text_parses(texts.last()) {
                None
            } else {
                Some(texts.len() - 1)
            },
        }
    }
}

/// Read each text as JSON and merge the documents into one JSON object keyed
/// by `keys`, as text; or the position of the first text that is not JSON,
/// with the parser's message.
pub fn merge_structured(keys: &Vec<&str>, texts: &Vec<String>) -> (r: Result<String, (usize, String)>)
    requires
        keys@.len() == texts@.len(),
    ensures
        match r {
            Ok(t) => first_not_json(crate::text::views(texts@)) is None && t@ == json_object_text(
                keys@.map_values(|k: &str| k@),
                crate::text::views(texts@),
            ),
            Err((i, _)) => i < texts@.len() && first_not_json(crate::text::views(texts@)) == Some(i as int),
        },
{
    let mut i: usize = 0;
    while i < texts.len()
        invariant
            i <= texts@.len(),
            keys@.len() == texts@.len(),
            first_not_json(crate::text::views(texts@).take(i as int)) is None,
            forall|k: int| 0 <= k < i ==> json_text_parses((#[trigger] texts@[k])@),
        decreases texts@.len() - i,
    {
        proof {
            assert(crate::text::views(texts@).take(i + 1).drop_last() =~= crate::text::views(texts@).take(i as int));
        }
        match parse_json_document(texts[i].as_str()) {
            Ok(_) => {},
            Err(m) => {
                proof {
                    lemma_first_not_json_prefix(crate::text::views(texts@), i as int + 1, i as int);
                }
                return Err((i, m));
            },
        }
        i += 1;
    }
    proof {
        assert(crate::text::views(texts@).take(texts@.len() as int) =~= crate::text::views(texts@));
    }
    Ok(json_object_of_texts(keys, texts))
}

/// A text that is not JSON within a prefix is the first such text overall.
proof fn lemma_first_not_json_prefix(t: Seq<Seq<char>>, n: int, k: int)
    requires
        0 <= k < n <= t.len(),
        first_not_json(t.take(n)) == Some(k),
    ensures
        first_not_json(t) == Some(k),
    decreases t.len() - n,
{
    if n < t.len() {
        assert(t.take(n + 1).drop_last() =~= t.take(n));
        assert(first_not_json(t.take(n + 1)) == Some(k));
        lemma_first_not_json_prefix(t, n + 1, k);
    } else {
        assert(t.take(n) =~= t);
    }
}

/// The prompt of a join entry: `join:[a,b,...]`.
pub open spec fn join_prompt(deps: Seq<Seq<char>>) -> Seq<char> {
    "join:["@ + comma_joined(deps) + "]"@
}

pub open spec fn comma_joined(items: Seq<Seq<char>>) -> Seq<char>
    decreases items.len(),
{
    if items.len() == 0 {
        Seq::empty()
    } else if items.len() == 1 {
        items[0]
    } else {
        comma_joined(items.drop_last()) + ","@ + items.last()
    }
}

/// The message when a dependency of a structured join did not answer JSON.
pub open spec fn not_json_message(dep: Seq<char>, m: Seq<char>) -> Seq<char> {
    "Join dependency '"@ + dep + "' did not return valid JSON despite declaring output_schema: "@ + m
}

/// `x` is one of the texts and none sorts before it.
pub open spec fn least_of(x: Seq<char>, texts: Seq<Seq<char>>) -> bool {
    &&& exists|k: int| 0 <= k < texts.len() && texts[k] == x
    &&& forall|k: int| 0 <= k < texts.len() ==> !lex_lt(#[trigger] texts[k], x)
}

/// `x` is one of the texts and none sorts after it.
pub open spec fn greatest_of(x: Seq<char>, texts: Seq<Seq<char>>) -> bool {
    &&& exists|k: int| 0 <= k < texts.len() && texts[k] == x
    &&& forall|k: int| 0 <= k < texts.len() ==> !lex_lt(x, #[trigger] texts[k])
}

pub open spec fn launch_times(branches: Seq<BranchResult>) -> Seq<Seq<char>> {
    branches.map_values(|b: BranchResult| b.launched_at@)
}

pub open spec fn completion_times(branches: Seq<BranchResult>) -> Seq<Seq<char>> {
    branches.map_values(|b: BranchResult| b.completed_at@)
}

/// The earliest (`latest == false`) or latest launch or completion time of
/// the branches; the empty string when there are none.
fn extreme_time(branches: &Vec<BranchResult>, latest: bool) -> (r: String)
    ensures
        branches@.len() == 0 ==> r@ == Seq::<char>::empty(),
        branches@.len() > 0 && !latest ==> least_of(r@, launch_times(branches@)),
        branches@.len() > 0 && latest ==> greatest_of(r@, completion_times(branches@)),
{
    if branches.len() == 0 {
        return String::new();
    }
    let ghost times = if latest { completion_times(branches@) } else { launch_times(branches@) };
    let mut best: usize = 0;
    let mut i: usize = 1;
    proof {
        lemma_lex_irreflexive(times[0]);
    }
    while i < branches.len()
        invariant
            1 <= i <= branches@.len(),
            best < i,
            times == (if latest { completion_times(branches@) } else { launch_times(branches@) }),
            times.len() == branches@.len(),
            forall|k: int| 0 <= k < i ==> if latest {
                !lex_lt(times[best as int], #[trigger] times[k])
            } else {
                !lex_lt(#[trigger] times[k], times[best as int])
            },
        decreases branches@.len() - i,
    {
        let better = if latest {
            lex_less(branches[best].completed_at.as_str(), branches[i].completed_at.as_str())
        } else {
            lex_less(branches[i].launched_at.as_str(), branches[best].launched_at.as_str())
        };
        if better {
            proof {
                assert forall|k: int| 0 <= k < i + 1 implies (if latest {
                    !lex_lt(times[i as int], #[trigger] times[k])
                } else {
                    !lex_lt(#[trigger] times[k], times[i as int])
                }) by {
                    if k < i {
                        if latest {
                            if lex_lt(times[i as int], times[k]) {
                                lemma_lex_transitive(times[best as int], times[i as int], times[k]);
                            }
                        } else {
                            if lex_lt(times[k], times[i as int]) {
                                lemma_lex_transitive(times[k], times[i as int], times[best as int]);
                            }
                        }
                    } else {
                        lemma_lex_irreflexive(times[i as int]);
                    }
                }
            }
            best = i;
        } else {
            proof {
                lemma_lex_total(times[best as int], times[i as int]);
                if latest {
                    assert(!lex_lt(times[best as int], times[i as int]));
                } else {
                    assert(!lex_lt(times[i as int], times[best as int]));
                }
            }
        }
        i += 1;
    }
    let r = if latest {
        branches[best].completed_at.clone()
    } else {
        branches[best].launched_at.clone()
    };
    proof {
        assert(times[best as int] == r@);
    }
    r
}

/// Merge the branch results of a join's dependencies into the join's entry.
/// When the join declares an `output_schema` and every dependency
/// succeeded, the responses are merged into one JSON object keyed by step id
/// (a response that is not JSON fails the join); otherwise they are joined
/// as text with `[step_id]:` headers. The entry spans from the earliest
/// branch launch to the latest branch completion.
pub fn merge_join_results(join_step: &Step, deps_in_order: &Vec<&str>, branches: &Vec<BranchResult>, on_error_mode: &JoinErrorMode) -> (r: Result<TurnEntry, AilError>)
    ensures
        ({
            let deps = deps_in_order@.map_values(|d: &str| d@);
            let structured = join_step.output_schema is Some && all_succeeded(branches@, deps);
            match r {
                Ok(e) => {
                    &&& e.step_id@ == join_step.id.0@
                    &&& e.prompt@ == join_prompt(deps)
                    &&& e.response is Some
                    &&& structured ==> first_not_json(dep_responses(branches@, deps)) is None
                    &&& structured ==> e.response->0@ == json_object_text(deps, dep_responses(branches@, deps))
                    &&& !structured ==> e.response->0@ == join_text(branches@, deps, deps.len() as int)
                    &&& !structured ==> (*on_error_mode == JoinErrorMode::WaitForAll || first_failed(branches@, deps, deps.len() as int) is None)
                    &&& branches@.len() == 0 ==> (e.launched_at matches Some(t) && t@ == Seq::<char>::empty())
                    &&& branches@.len() == 0 ==> (e.completed_at matches Some(t) && t@ == Seq::<char>::empty())
                    &&& branches@.len() > 0 ==> (e.launched_at matches Some(t) && least_of(t@, launch_times(branches@)))
                    &&& branches@.len() > 0 ==> (e.completed_at matches Some(t) && greatest_of(t@, completion_times(branches@)))
                },
                Err(e) => if structured {
                    &&& first_not_json(dep_responses(branches@, deps)) matches Some(j)
                    &&& 0 <= j < deps.len()
                    &&& exists|m: Seq<char>| e.is_fresh(ErrorKind::ConfigValidationFailed, #[trigger] not_json_message(deps[j], m))
                } else {
                    &&& *on_error_mode == JoinErrorMode::FailFast
                    &&& first_failed(branches@, deps, deps.len() as int) matches Some(j)
                    &&& branch_for(branches@, deps[j]) matches Some(bi)
                    &&& branches@[bi].outcome matches Err(be)
                    &&& e.is_fresh(ErrorKind::PipelineAborted, fail_fast_message(deps[j], be.detail_view()))
                },
            }
        }),
{
    let ghost deps = deps_in_order@.map_values(|d: &str| d@);
    // Look up every dependency's successful response.
    let mut responses: Vec<String> = Vec::new();
    let mut all_ok = true;
    let mut i: usize = 0;
    while i < deps_in_order.len()
        invariant
            i <= deps_in_order@.len(),
            deps == deps_in_order@.map_values(|d: &str| d@),
            all_ok ==> responses@.len() == i,
            all_ok ==> forall|j: int| 0 <= j < i ==> (#[trigger] branch_for(branches@, deps[j]) matches Some(bi)
                && branches@[bi].outcome is Ok),
            all_ok ==> forall|j: int| 0 <= j < i ==> (#[trigger] responses@[j])@ == dep_responses(branches@, deps)[j],
            !all_ok ==> !all_succeeded(branches@, deps),
        decreases deps_in_order@.len() - i,
    {
        let dep = deps_in_order[i];
        assert(deps[i as int] == dep@);
        match find_branch(branches, dep) {
            Some(bi) => {
                proof {
                    lemma_branch_for_bounds(branches@, dep@);
                }
                match &branches[bi].outcome {
                    Ok(entry) => {
                        let text = match &entry.response {
                            Some(t) => t.clone(),
                            None => String::new(),
                        };
                        if all_ok {
                            responses.push(text);
                        }
                    },
                    Err(_) => {
                        all_ok = false;
                    },
                }
            },
            None => {
                all_ok = false;
            },
        }
        i += 1;
    }
    let structured = join_step.output_schema.is_some() && all_ok;
    proof {
        if all_ok {
            assert(all_succeeded(branches@, deps));
            assert(crate::text::views(responses@) =~= dep_responses(branches@, deps));
        }
    }
    let response = if structured {
        match merge_structured(deps_in_order, &responses) {
            Ok(t) => t,
            Err((j, m)) => {
                let dep = deps_in_order[j];
                let mut d = String::from_str("Join dependency '");
                d.append(dep);
                d.append("' did not return valid JSON despite declaring output_schema: ");
                d.append(m.as_str());
                proof {
                    assert(deps[j as int] == dep@);
                    assert(d@ == not_json_message(deps[j as int], m@));
                }
                return Err(AilError::ConfigValidationFailed { detail: d, context: None });
            },
        }
    } else {
        match merge_string(deps_in_order, branches, on_error_mode) {
            Ok(t) => t,
            Err(e) => {
                return Err(e);
            },
        }
    };
    let mut prompt = String::from_str("join:[");
    let mut k: usize = 0;
    while k < deps_in_order.len()
        invariant
            k <= deps_in_order@.len(),
            deps == deps_in_order@.map_values(|d: &str| d@),
            prompt@ == "join:["@ + comma_joined(deps.take(k as int)),
        decreases deps_in_order@.len() - k,
    {
        if k > 0 {
            prompt.append(",");
        }
        prompt.append(deps_in_order[k]);
        proof {
            assert(deps.take(k + 1).drop_last() =~= deps.take(k as int));
            assert(prompt@ =~= "join:["@ + comma_joined(deps.take(k + 1)));
        }
        k += 1;
    }
    prompt.append("]");
    proof {
        assert(deps.take(deps.len() as int) =~= deps);
    }
    let mut entry = TurnEntry::with_response(join_step.id.0.clone(), prompt, Some(response));
    entry.launched_at = Some(extreme_time(branches, false));
    entry.completed_at = Some(extreme_time(branches, true));
    Ok(entry)
}

} // verus!
