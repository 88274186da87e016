//! Parameters of a query over the execution-log store.
use vstd::prelude::*;

use crate::runner::ToolEvent;

verus! {

/// Parameters for a log query.
pub struct LogQuery {
    /// Filter sessions where `run_id LIKE 'prefix%'`.
    pub session_prefix: Option<String>,
    /// Full-text search across step content.
    pub fts_query: Option<String>,
    /// Maximum number of sessions to return.
    pub limit: usize,
}

/// One recorded event of a step, as the log store holds it.
#[derive(Debug, Clone)]
pub struct StepRow {
    pub step_id: String,
    pub event_type: String,
    pub prompt: Option<String>,
    pub response: Option<String>,
    pub thinking: Option<String>,
    /// The step's cost in USD, written with four decimals.
    pub cost_usd: Option<String>,
    pub input_tokens: Option<i64>,
    pub output_tokens: Option<i64>,
    pub stdout: Option<String>,
    pub stderr: Option<String>,
    pub exit_code: Option<i32>,
    /// Unix epoch milliseconds.
    pub recorded_at: i64,
    /// Tool calls and results of the step, in order.
    pub tool_events: Vec<ToolEvent>,
}

/// The time of the last `step_started` row of step `id`, if any.
pub open spec fn started_at(rows: Seq<(String, String, i64)>, id: Seq<char>) -> Option<i64>
    decreases rows.len(),
{
    if rows.len() == 0 {
        None
    } else if rows.last().0@ == id && rows.last().1@ == "step_started"@ {
        Some(rows.last().2)
    } else {
        started_at(rows.drop_last(), id)
    }
}

/// The latency of a row: for a `step_completed` row, its time minus the
/// time its step last started, when it started at all.
pub open spec fn latency_of(rows: Seq<(String, String, i64)>, k: int) -> Option<int> {
    if rows[k].1@ == "step_completed"@ {
        match started_at(rows, rows[k].0@) {
            Some(s) => Some(rows[k].2 - s),
            None => None,
        }
    } else {
        None
    }
}

fn find_started(rows: &Vec<(String, String, i64)>, id: &str) -> (r: Option<i64>)
    ensures
        r == started_at(rows@, id@),
{
    let mut i = rows.len();
    proof {
        assert(rows@.take(i as int) =~= rows@);
    }
    while i > 0
        invariant
            i <= rows@.len(),
            started_at(rows@, id@) == started_at(rows@.take(i as int), id@),
        decreases i,
    {
        let ghost pre = rows@.take(i as int);
        assert(pre.drop_last() =~= rows@.take(i - 1));
        if crate::text::str_eq(rows[i - 1].0.as_str(), id) && crate::text::str_eq(rows[i - 1].1.as_str(), "step_started") {
            return Some(rows[i - 1].2);
        }
        i -= 1;
    }
    None
}

/// No two times of `rows` are further apart than an `i64` can say.
pub open spec fn times_comparable(rows: Seq<(String, String, i64)>) -> bool {
    forall|a: int, b: int|
        0 <= a < rows.len() && 0 <= b < rows.len() ==> i64::MIN <= #[trigger] rows[a].2 - #[trigger] rows[b].2
            <= i64::MAX
}

/// The latency of each row, given each row's step id, event type and time
/// (epoch milliseconds): a `step_completed` row is paired with the last
/// `step_started` row of its step.
pub fn step_latencies(rows: &Vec<(String, String, i64)>) -> (r: Vec<Option<i64>>)
    requires
        times_comparable(rows@),
    ensures
        r@.len() == rows@.len(),
        forall|k: int| 0 <= k < rows@.len() ==> match #[trigger] latency_of(rows@, k) {
            Some(l) => r@[k] == Some(l as i64),
            None => r@[k] is None,
        },
{
    let mut out: Vec<Option<i64>> = Vec::new();
    let mut k: usize = 0;
    while k < rows.len()
        invariant
            k <= rows@.len(),
            out@.len() == k,
            times_comparable(rows@),
            forall|j: int| 0 <= j < k ==> match #[trigger] latency_of(rows@, j) {
                Some(l) => out@[j] == Some(l as i64),
                None => out@[j] is None,
            },
        decreases rows@.len() - k,
    {
        let l = if crate::text::str_eq(rows[k].1.as_str(), "step_completed") {
            match find_started(rows, rows[k].0.as_str()) {
                Some(s) => {
                    proof {
                        lemma_started_in(rows@, rows@[k as int].0@);
                    }
                    Some(rows[k].2 - s)
                },
                None => None,
            }
        } else {
            None
        };
        out.push(l);
        k += 1;
    }
    out
}

proof fn lemma_started_in(rows: Seq<(String, String, i64)>, id: Seq<char>)
    ensures
        started_at(rows, id) matches Some(s) ==> exists|k: int| 0 <= k < rows.len() && rows[k].2 == s,
    decreases rows.len(),
{
    if rows.len() > 0 {
        lemma_started_in(rows.drop_last(), id);
        if !(rows.last().0@ == id && rows.last().1@ == "step_started"@) {
            if let Some(s) = started_at(rows.drop_last(), id) {
                let k = choose|k: int| 0 <= k < rows.drop_last().len() && rows.drop_last()[k].2 == s;
                assert(rows[k] == rows.drop_last()[k]);
            }
        }
    }
}

// ── Tool events onto rows ───────────────────────────────────────────────────

/// The events recorded for step `id`.
pub open spec fn event_of_step(id: Seq<char>) -> spec_fn((String, ToolEvent)) -> bool {
    |p: (String, ToolEvent)| p.0@ == id
}

/// The tool events of step `id`, in the order recorded.
pub open spec fn events_of(events: Seq<(String, ToolEvent)>, id: Seq<char>) -> Seq<ToolEvent> {
    events.filter(event_of_step(id)).map_values(|p: (String, ToolEvent)| p.1)
}

/// Position `k` holds the first occurrence of its step id.
pub open spec fn first_of_step(ids: Seq<Seq<char>>, k: int) -> bool {
    forall|j: int| 0 <= j < k ==> #[trigger] ids[j] != ids[k]
}

/// The events row `k` takes: those of its step when it is the step's first
/// row and the step has events, else none.
pub open spec fn row_events(ids: Seq<Seq<char>>, events: Seq<(String, ToolEvent)>, k: int, r: Option<Vec<ToolEvent>>) -> bool {
    let evs = events_of(events, ids[k]);
    if first_of_step(ids, k) && evs.len() > 0 {
        r matches Some(v) && v@ == evs
    } else {
        r is None
    }
}

/// What row `k` becomes: the first row of a step that has events carries
/// them, in order; every other row stays as it is.
pub open spec fn row_with_events(rows: Seq<StepRow>, events: Seq<(String, ToolEvent)>, k: int, r: StepRow) -> bool {
    let evs = events_of(events, rows[k].step_id@);
    if first_of_step(rows.map_values(|w: StepRow| w.step_id@), k) && evs.len() > 0 {
        &&& r.tool_events@ == evs
        &&& (StepRow { tool_events: rows[k].tool_events, ..r }) == rows[k]
    } else {
        r == rows[k]
    }
}

fn copy_tool_event(e: &ToolEvent) -> (r: ToolEvent)
    ensures
        r == *e,
{
    ToolEvent {
        event_type: e.event_type.clone(),
        tool_name: e.tool_name.clone(),
        content_json: e.content_json.clone(),
    }
}

/// The tool events of step `id`, in the order recorded.
pub fn events_for_step(events: &Vec<(String, ToolEvent)>, id: &str) -> (r: Vec<ToolEvent>)
    ensures
        r@ == events_of(events@, id@),
{
    let mut r: Vec<ToolEvent> = Vec::new();
    let mut i: usize = 0;
    proof {
        reveal(Seq::filter);
        assert(events@.take(0) =~= Seq::<(String, ToolEvent)>::empty());
        assert(events_of(events@.take(0), id@) =~= Seq::<ToolEvent>::empty());
    }
    while i < events.len()
        invariant
            i <= events@.len(),
            r@ == events_of(events@.take(i as int), id@),
        decreases events@.len() - i,
    {
        let ghost pre = events@.take(i as int);
        let ghost x = events@[i as int];
        proof {
            assert(events@.take(i + 1) =~= pre.push(x));
            pre.lemma_filter_push(x, event_of_step(id@));
        }
        if crate::text::str_eq(events[i].0.as_str(), id) {
            let e = copy_tool_event(&events[i].1);
            proof {
                let f = |p: (String, ToolEvent)| p.1;
                assert(pre.filter(event_of_step(id@)).push(x).map_values(f) =~= pre.filter(event_of_step(id@)).map_values(f).push(x.1));
            }
            r.push(e);
        }
        i += 1;
    }
    proof {
        assert(events@.take(events@.len() as int) =~= events@);
    }
    r
}

/// For each row, given by its step id, the tool events it takes: a step's
/// events, in the order recorded, go to the first row of that step.
pub fn tool_events_per_row(ids: &Vec<String>, events: &Vec<(String, ToolEvent)>) -> (r: Vec<Option<Vec<ToolEvent>>>)
    ensures
        r@.len() == ids@.len(),
        forall|k: int| 0 <= k < ids@.len() ==> row_events(crate::text::views(ids@), events@, k, #[trigger] r@[k]),
{
    let ghost v = crate::text::views(ids@);
    let mut out: Vec<Option<Vec<ToolEvent>>> = Vec::new();
    let mut k: usize = 0;
    while k < ids.len()
        invariant
            k <= ids@.len(),
            v == crate::text::views(ids@),
            out@.len() == k,
            forall|q: int| 0 <= q < k ==> row_events(v, events@, q, #[trigger] out@[q]),
        decreases ids@.len() - k,
    {
        let mut first = true;
        let mut j: usize = 0;
        while j < k
            invariant
                j <= k,
                k < ids@.len(),
                v == crate::text::views(ids@),
                first == (forall|q: int| 0 <= q < j ==> #[trigger] v[q] != v[k as int]),
            decreases k - j,
        {
            assert(v[j as int] == ids@[j as int]@ && v[k as int] == ids@[k as int]@);
            if crate::text::str_eq(ids[j].as_str(), ids[k].as_str()) {
                first = false;
            }
            j += 1;
        }
        let mut taken: Option<Vec<ToolEvent>> = None;
        if first {
            let evs = events_for_step(events, ids[k].as_str());
            if evs.len() > 0 {
                taken = Some(evs);
            }
        }
        out.push(taken);
        k += 1;
    }
    out
}

/// Put each step's tool events on the first row of that step, in the order
/// recorded; other rows, and rows of steps without events, stay as they are.
pub fn attach_tool_events(rows: Vec<StepRow>, events: &Vec<(String, ToolEvent)>) -> (r: Vec<StepRow>)
    ensures
        r@.len() == rows@.len(),
        forall|k: int| 0 <= k < rows@.len() ==> row_with_events(rows@, events@, k, #[trigger] r@[k]),
{
    let ghost rs = rows@;
    let mut ids: Vec<String> = Vec::new();
    let mut i: usize = 0;
    while i < rows.len()
        invariant
            i <= rows@.len(),
            rs == rows@,
            ids@.len() == i,
            forall|j: int| 0 <= j < i ==> (#[trigger] ids@[j])@ == rs[j].step_id@,
        decreases rows@.len() - i,
    {
        ids.push(rows[i].step_id.clone());
        i += 1;
    }
    let ghost idv = rs.map_values(|w: StepRow| w.step_id@);
    assert(crate::text::views(ids@) =~= idv);
    let taken = tool_events_per_row(&ids, events);
    let mut out: Vec<StepRow> = Vec::new();
    for row in it: rows
        invariant
            it.seq() == rs,
            out@.len() == it.index(),
            taken@.len() == rs.len(),
            idv == rs.map_values(|w: StepRow| w.step_id@),
            forall|q: int| 0 <= q < rs.len() ==> row_events(idv, events@, q, #[trigger] taken@[q]),
            forall|k: int| 0 <= k < it.index() ==> row_with_events(rs, events@, k, #[trigger] out@[k]),
    {
        let k = out.len();
        assert(row == rs[k as int]);
        let mut row = row;
        assert(idv[k as int] == rs[k as int].step_id@);
        match &taken[k] {
            Some(evs) => {
                let mut copy: Vec<ToolEvent> = Vec::new();
                let mut e: usize = 0;
                while e < evs.len()
                    invariant
                        e <= evs@.len(),
                        copy@ == evs@.take(e as int),
                    decreases evs@.len() - e,
                {
                    assert(evs@.take(e + 1) =~= evs@.take(e as int).push(evs@[e as int]));
                    copy.push(copy_tool_event(&evs[e]));
                    e += 1;
                }
                assert(evs@.take(evs@.len() as int) =~= evs@);
                row.tool_events = copy;
            },
            None => {},
        }
        out.push(row);
    }
    out
}

} // verus!
