//! The `ail-log/1` rendering of a run's recorded step events: one turn
//! block per step, in the order the steps first appear.
use vstd::prelude::*;
use vstd::string::*;

use crate::logs::StepRow;
use crate::runner::ToolEvent;
use crate::text::{
    decimal, lemma_occurs_in_extend, lemma_occurs_in_middle, occurs_in, push_decimal, push_signed_decimal_i64,
    signed_decimal,
};

verus! {

// ── Specification ───────────────────────────────────────────────────────────

/// The rows of step `id`, in order.
pub open spec fn rows_of(rows: Seq<StepRow>, id: Seq<char>) -> Seq<StepRow> {
    rows.filter(|r: StepRow| r.step_id@ == id)
}

/// The step ids, each once, in the order of first appearance.
pub open spec fn first_seen_ids(rows: Seq<StepRow>) -> Seq<Seq<char>>
    decreases rows.len(),
{
    if rows.len() == 0 {
        Seq::empty()
    } else {
        let earlier = first_seen_ids(rows.drop_last());
        if earlier.contains(rows.last().step_id@) {
            earlier
        } else {
            earlier.push(rows.last().step_id@)
        }
    }
}

/// The last non-empty text among the rows' values, or the empty text.
pub open spec fn last_nonempty(vals: Seq<Option<String>>) -> Seq<char>
    decreases vals.len(),
{
    if vals.len() == 0 {
        Seq::empty()
    } else if vals.last() matches Some(t) && t@.len() > 0 {
        vals.last()->0@
    } else {
        last_nonempty(vals.drop_last())
    }
}

/// The last present value among the rows' values.
pub open spec fn last_some<T>(vals: Seq<Option<T>>) -> Option<T>
    decreases vals.len(),
{
    if vals.len() == 0 {
        None
    } else if vals.last() is Some {
        vals.last()
    } else {
        last_some(vals.drop_last())
    }
}

pub open spec fn texts(vals: Seq<Option<String>>) -> Option<Seq<char>> {
    match last_some(vals) {
        Some(s) => Some(s@),
        None => None,
    }
}

/// Some row failed the step.
pub open spec fn any_failed(rows: Seq<StepRow>) -> bool {
    exists|k: int| 0 <= k < rows.len() && (#[trigger] rows[k]).event_type@ == "step_failed"@
}

/// The detail of the last failure: its response, or `Step failed`.
pub open spec fn failure_detail(rows: Seq<StepRow>) -> Seq<char>
    decreases rows.len(),
{
    if rows.len() == 0 {
        Seq::empty()
    } else if rows.last().event_type@ == "step_failed"@ {
        match rows.last().response {
            Some(r) => r@,
            None => "Step failed"@,
        }
    } else {
        failure_detail(rows.drop_last())
    }
}

/// The tool events of the last row that has any.
pub open spec fn last_tool_events(rows: Seq<StepRow>) -> Seq<ToolEvent>
    decreases rows.len(),
{
    if rows.len() == 0 {
        Seq::empty()
    } else if rows.last().tool_events@.len() > 0 {
        rows.last().tool_events@
    } else {
        last_tool_events(rows.drop_last())
    }
}

pub open spec fn thinking_values(rows: Seq<StepRow>) -> Seq<Option<String>> {
    rows.map_values(|r: StepRow| r.thinking)
}

pub open spec fn response_values(rows: Seq<StepRow>) -> Seq<Option<String>> {
    rows.map_values(|r: StepRow| r.response)
}

pub open spec fn cost_values(rows: Seq<StepRow>) -> Seq<Option<String>> {
    rows.map_values(|r: StepRow| r.cost_usd)
}

pub open spec fn stdout_values(rows: Seq<StepRow>) -> Seq<Option<String>> {
    rows.map_values(|r: StepRow| r.stdout)
}

pub open spec fn stderr_values(rows: Seq<StepRow>) -> Seq<Option<String>> {
    rows.map_values(|r: StepRow| r.stderr)
}

pub open spec fn input_values(rows: Seq<StepRow>) -> Seq<Option<i64>> {
    rows.map_values(|r: StepRow| r.input_tokens)
}

pub open spec fn output_values(rows: Seq<StepRow>) -> Seq<Option<i64>> {
    rows.map_values(|r: StepRow| r.output_tokens)
}

/// A fenced block `:::<head>` around `body`, when `body` is not empty.
pub open spec fn block(head: Seq<char>, body: Seq<char>) -> Seq<char> {
    if body.len() > 0 {
        "\n:::"@ + head + "\n"@ + body + "\n:::\n"@
    } else {
        Seq::empty()
    }
}

pub open spec fn tool_event_text(te: ToolEvent) -> Seq<char> {
    if te.event_type@ == "tool_call"@ {
        "\n:::tool-call name=\""@ + te.tool_name@ + "\"\n"@ + te.content_json@ + "\n:::\n"@
    } else if te.event_type@ == "tool_result"@ {
        "\n:::tool-result name=\""@ + te.tool_name@ + "\"\n"@ + te.content_json@ + "\n:::\n"@
    } else {
        Seq::empty()
    }
}

pub open spec fn tool_events_text(tes: Seq<ToolEvent>) -> Seq<char>
    decreases tes.len(),
{
    if tes.len() == 0 {
        Seq::empty()
    } else {
        tool_events_text(tes.drop_last()) + tool_event_text(tes.last())
    }
}

/// The cost line of a step.
pub open spec fn cost_line(cost: Option<Seq<char>>, input: Option<i64>, output: Option<i64>) -> Seq<char> {
    match (cost, input, output) {
        (Some(c), Some(i), Some(o)) => "_Cost: $"@ + c + " | "@ + signed_decimal(i as int) + "in / "@
            + signed_decimal(o as int) + "out tokens_"@,
        (Some(c), _, _) => "_Cost: $"@ + c + "_"@,
        _ => "_No cost (context step)_"@,
    }
}

/// The closing part of a turn: the failure callout, or the cost line when
/// anything of the cost was recorded.
pub open spec fn tail_part(failed: bool, detail: Seq<char>, cost: Option<Seq<char>>, input: Option<i64>, output: Option<i64>) -> Seq<char> {
    if failed {
        "\n> [!WARNING]\n"@ + "> **Step failed:** "@ + detail + "\n"@
    } else if cost is Some || input is Some || output is Some {
        "\n---\n"@ + cost_line(cost, input, output) + "\n"@
    } else {
        Seq::empty()
    }
}

pub open spec fn opt_block(head: Seq<char>, body: Option<Seq<char>>) -> Seq<char> {
    match body {
        Some(b) => block(head, b),
        None => Seq::empty(),
    }
}

/// The response of a turn, unless the step failed.
pub open spec fn response_part(response: Seq<char>, failed: bool) -> Seq<char> {
    if response.len() > 0 && !failed {
        "\n"@ + response + "\n"@
    } else {
        Seq::empty()
    }
}

pub open spec fn turn_head(turn: nat, id: Seq<char>) -> Seq<char> {
    "\n## Turn "@ + decimal(turn) + " — `"@ + id + "`\n"@
}

/// The turn block of step `id`, the `turn`-th step, from its rows.
pub open spec fn turn_text(turn: nat, id: Seq<char>, rows: Seq<StepRow>) -> Seq<char> {
    turn_head(turn, id)
        + block("thinking"@, last_nonempty(thinking_values(rows)))
        + tool_events_text(last_tool_events(rows))
        + response_part(last_nonempty(response_values(rows)), any_failed(rows))
        + opt_block("stdio stream=\"stdout\""@, texts(stdout_values(rows)))
        + opt_block("stdio stream=\"stderr\""@, texts(stderr_values(rows)))
        + tail_part(
            any_failed(rows),
            failure_detail(rows),
            texts(cost_values(rows)),
            last_some(input_values(rows)),
            last_some(output_values(rows)),
        )
}

/// The turn blocks of the first `n` steps in order of first appearance.
pub open spec fn turns_text(rows: Seq<StepRow>, ids: Seq<Seq<char>>, n: int) -> Seq<char>
    decreases n,
{
    if n <= 0 {
        Seq::empty()
    } else {
        turns_text(rows, ids, n - 1) + turn_text(n as nat, ids[n - 1], rows_of(rows, ids[n - 1]))
    }
}

/// The `ail-log/1` text of a run's rows.
pub open spec fn ail_log(rows: Seq<StepRow>) -> Seq<char> {
    let ids = first_seen_ids(rows);
    "ail-log/1\n"@ + turns_text(rows, ids, ids.len() as int)
}

// ── Implementation ──────────────────────────────────────────────────────────

fn push_block(out: &mut String, head: &str, body: &str)
    ensures
        final(out)@ == old(out)@ + block(head@, body@),
{
    if body.unicode_len() > 0 {
        out.append("\n:::");
        out.append(head);
        out.append("\n");
        out.append(body);
        out.append("\n:::\n");
    }
    assert(final(out)@ =~= old(out)@ + block(head@, body@));
}

fn push_tool_events(out: &mut String, tes: &Vec<ToolEvent>)
    ensures
        final(out)@ == old(out)@ + tool_events_text(tes@),
{
    let ghost start = out@;
    let mut k: usize = 0;
    while k < tes.len()
        invariant
            k <= tes@.len(),
            out@ == start + tool_events_text(tes@.take(k as int)),
        decreases tes@.len() - k,
    {
        let te = &tes[k];
        let ghost before = out@;
        if crate::text::str_eq(te.event_type.as_str(), "tool_call") {
            out.append("\n:::tool-call name=\"");
            out.append(te.tool_name.as_str());
            out.append("\"\n");
            out.append(te.content_json.as_str());
            out.append("\n:::\n");
        } else if crate::text::str_eq(te.event_type.as_str(), "tool_result") {
            out.append("\n:::tool-result name=\"");
            out.append(te.tool_name.as_str());
            out.append("\"\n");
            out.append(te.content_json.as_str());
            out.append("\n:::\n");
        }
        proof {
            assert(out@ =~= before + tool_event_text(*te));
            assert(tes@.take(k + 1).drop_last() =~= tes@.take(k as int));
            assert(out@ =~= start + tool_events_text(tes@.take(k + 1)));
        }
        k += 1;
    }
    assert(tes@.take(tes@.len() as int) =~= tes@);
}

fn push_cost_line(out: &mut String, cost: &Option<String>, input: Option<i64>, output: Option<i64>)
    ensures
        final(out)@ == old(out)@ + cost_line(crate::error::opt_view(*cost), input, output),
{
    match cost {
        Some(c) => {
            out.append("_Cost: $");
            out.append(c.as_str());
            match (input, output) {
                (Some(i), Some(o)) => {
                    out.append(" | ");
                    push_signed_decimal_i64(out, i);
                    out.append("in / ");
                    push_signed_decimal_i64(out, o);
                    out.append("out tokens_");
                },
                _ => {
                    out.append("_");
                },
            }
        },
        None => {
            out.append("_No cost (context step)_");
        },
    }
    assert(final(out)@ =~= old(out)@ + cost_line(crate::error::opt_view(*cost), input, output));
}

/// What a turn block is built from, gathered over a step's rows.
struct TurnFacts {
    thinking: String,
    response: String,
    cost: Option<String>,
    input: Option<i64>,
    output: Option<i64>,
    stdout: Option<String>,
    stderr: Option<String>,
    failed: bool,
    detail: String,
    /// The row (of all rows) whose tool events the turn shows.
    tools: Option<usize>,
}

/// `f` holds what the step rows `rows` (among `all`) give.
spec fn facts_of(f: TurnFacts, rows: Seq<StepRow>, all: Seq<StepRow>) -> bool {
    &&& f.thinking@ == last_nonempty(thinking_values(rows))
    &&& f.response@ == last_nonempty(response_values(rows))
    &&& crate::error::opt_view(f.cost) == texts(cost_values(rows))
    &&& f.input == last_some(input_values(rows))
    &&& f.output == last_some(output_values(rows))
    &&& crate::error::opt_view(f.stdout) == texts(stdout_values(rows))
    &&& crate::error::opt_view(f.stderr) == texts(stderr_values(rows))
    &&& f.failed == any_failed(rows)
    &&& f.detail@ == failure_detail(rows)
    &&& match f.tools {
        Some(j) => 0 <= j < all.len() && all[j as int].tool_events@ == last_tool_events(rows),
        None => last_tool_events(rows) == Seq::<ToolEvent>::empty(),
    }
}

/// An ail log starts with its format line, `ail-log/1`.
pub proof fn lemma_ail_log_header(rows: Seq<StepRow>)
    ensures
        ail_log(rows).len() >= 10,
        ail_log(rows).take(10) == "ail-log/1\n"@,
{
    reveal_strlit("ail-log/1\n");
    let ids = first_seen_ids(rows);
    let rest = turns_text(rows, ids, ids.len() as int);
    assert(("ail-log/1\n"@ + rest).take(10) =~= "ail-log/1\n"@);
}

/// The turns of an ail log: every step that has rows gets exactly one turn,
/// and only such steps do.
pub proof fn lemma_one_turn_per_step(rows: Seq<StepRow>)
    ensures
        first_seen_ids(rows).no_duplicates(),
        forall|i: int| 0 <= i < rows.len() ==> first_seen_ids(rows).contains(#[trigger] rows[i].step_id@),
        forall|id: Seq<char>|
            #[trigger] first_seen_ids(rows).contains(id) ==> exists|i: int| 0 <= i < rows.len() && rows[i].step_id@ == id,
    decreases rows.len(),
{
    if rows.len() > 0 {
        let pre = rows.drop_last();
        lemma_one_turn_per_step(pre);
        let earlier = first_seen_ids(pre);
        let x = rows.last().step_id@;
        assert forall|i: int| 0 <= i < rows.len() implies first_seen_ids(rows).contains(#[trigger] rows[i].step_id@) by {
            if i < rows.len() - 1 {
                assert(pre[i] == rows[i]);
                assert(earlier.contains(pre[i].step_id@));
                if !earlier.contains(x) {
                    assert(earlier.push(x)[earlier.index_of(pre[i].step_id@)] == pre[i].step_id@);
                }
            } else {
                if !earlier.contains(x) {
                    assert(earlier.push(x)[earlier.len() as int] == x);
                }
            }
        }
        assert forall|id: Seq<char>| #[trigger] first_seen_ids(rows).contains(id) implies exists|i: int|
            0 <= i < rows.len() && rows[i].step_id@ == id by {
            if earlier.contains(id) {
                let i = choose|i: int| 0 <= i < pre.len() && pre[i].step_id@ == id;
                assert(rows[i] == pre[i]);
            } else {
                let j = choose|j: int| 0 <= j < first_seen_ids(rows).len() && first_seen_ids(rows)[j] == id;
                assert(!earlier.contains(x) && j == earlier.len());
                assert(rows[rows.len() - 1].step_id@ == id);
            }
        }
        if !earlier.contains(x) {
            assert forall|a: int, b: int| 0 <= a < b < earlier.push(x).len() implies earlier.push(x)[a]
                != earlier.push(x)[b] by {
                if b == earlier.len() {
                    assert(earlier.push(x)[a] == earlier[a]);
                    if earlier[a] == x {
                        assert(earlier.contains(x));
                    }
                }
            }
        }
    }
}

/// The last present value is the one after which no value is present.
proof fn lemma_last_some_at<T>(vals: Seq<Option<T>>, k: int)
    requires
        0 <= k < vals.len(),
        vals[k] is Some,
        forall|j: int| k < j < vals.len() ==> #[trigger] vals[j] is None,
    ensures
        last_some(vals) == vals[k],
    decreases vals.len(),
{
    if k < vals.len() - 1 {
        let pre = vals.drop_last();
        assert forall|j: int| k < j < pre.len() implies #[trigger] pre[j] is None by {
            assert(pre[j] == vals[j]);
        }
        lemma_last_some_at(pre, k);
    }
}

/// The command output streams of a step show in its turn: when the last
/// row of the step that records a stdout (stderr) text has it non-empty,
/// the turn holds a `:::stdio stream="stdout"` (`"stderr"`) block around
/// that text.
pub proof fn lemma_turn_shows_streams(turn: nat, id: Seq<char>, rows: Seq<StepRow>, k: int)
    requires
        0 <= k < rows.len(),
    ensures
        (rows[k].stdout is Some && rows[k].stdout->0@.len() > 0
            && forall|j: int| k < j < rows.len() ==> #[trigger] rows[j].stdout is None)
            ==> occurs_in(
            turn_text(turn, id, rows),
            "\n:::stdio stream=\"stdout\"\n"@ + rows[k].stdout->0@ + "\n:::\n"@,
        ),
        (rows[k].stderr is Some && rows[k].stderr->0@.len() > 0
            && forall|j: int| k < j < rows.len() ==> #[trigger] rows[j].stderr is None)
            ==> occurs_in(
            turn_text(turn, id, rows),
            "\n:::stdio stream=\"stderr\"\n"@ + rows[k].stderr->0@ + "\n:::\n"@,
        ),
{
    reveal_strlit("\n:::");
    reveal_strlit("\n");
    reveal_strlit("\n:::\n");
    reveal_strlit("stdio stream=\"stdout\"");
    reveal_strlit("stdio stream=\"stderr\"");
    reveal_strlit("\n:::stdio stream=\"stdout\"\n");
    reveal_strlit("\n:::stdio stream=\"stderr\"\n");
    let head = turn_head(turn, id) + block("thinking"@, last_nonempty(thinking_values(rows)))
        + tool_events_text(last_tool_events(rows))
        + response_part(last_nonempty(response_values(rows)), any_failed(rows));
    let out_part = opt_block("stdio stream=\"stdout\""@, texts(stdout_values(rows)));
    let err_part = opt_block("stdio stream=\"stderr\""@, texts(stderr_values(rows)));
    let tail = tail_part(
        any_failed(rows),
        failure_detail(rows),
        texts(cost_values(rows)),
        last_some(input_values(rows)),
        last_some(output_values(rows)),
    );
    assert(turn_text(turn, id, rows) == head + out_part + err_part + tail);
    if rows[k].stdout is Some && rows[k].stdout->0@.len() > 0 && forall|j: int|
        k < j < rows.len() ==> #[trigger] rows[j].stdout is None {
        let vals = stdout_values(rows);
        assert forall|j: int| k < j < vals.len() implies #[trigger] vals[j] is None by {
            assert(vals[j] == rows[j].stdout);
        }
        lemma_last_some_at(vals, k);
        let s = rows[k].stdout->0@;
        assert(out_part =~= "\n:::stdio stream=\"stdout\"\n"@ + s + "\n:::\n"@);
        lemma_occurs_in_middle(head, out_part, err_part + tail);
        assert(head + out_part + (err_part + tail) =~= turn_text(turn, id, rows));
    }
    if rows[k].stderr is Some && rows[k].stderr->0@.len() > 0 && forall|j: int|
        k < j < rows.len() ==> #[trigger] rows[j].stderr is None {
        let vals = stderr_values(rows);
        assert forall|j: int| k < j < vals.len() implies #[trigger] vals[j] is None by {
            assert(vals[j] == rows[j].stderr);
        }
        lemma_last_some_at(vals, k);
        let s = rows[k].stderr->0@;
        assert(err_part =~= "\n:::stdio stream=\"stderr\"\n"@ + s + "\n:::\n"@);
        lemma_occurs_in_middle(head + out_part, err_part, tail);
    }
}

/// The last non-empty value is the one after which every value is absent
/// or empty.
proof fn lemma_last_nonempty_at(vals: Seq<Option<String>>, k: int)
    requires
        0 <= k < vals.len(),
        vals[k] is Some && vals[k]->0@.len() > 0,
        forall|j: int| k < j < vals.len() ==> (#[trigger] vals[j] is None || vals[j]->0@.len() == 0),
    ensures
        last_nonempty(vals) == vals[k]->0@,
    decreases vals.len(),
{
    if k < vals.len() - 1 {
        let pre = vals.drop_last();
        assert forall|j: int| k < j < pre.len() implies (#[trigger] pre[j] is None || pre[j]->0@.len() == 0) by {
            assert(pre[j] == vals[j]);
        }
        lemma_last_nonempty_at(pre, k);
    }
}

/// The detail of the last failure is that row's response, or `Step failed`
/// when it has none.
proof fn lemma_failure_detail_at(rows: Seq<StepRow>, k: int)
    requires
        0 <= k < rows.len(),
        rows[k].event_type@ == "step_failed"@,
        forall|j: int| k < j < rows.len() ==> (#[trigger] rows[j]).event_type@ != "step_failed"@,
    ensures
        failure_detail(rows) == (match rows[k].response {
            Some(r) => r@,
            None => "Step failed"@,
        }),
    decreases rows.len(),
{
    if k < rows.len() - 1 {
        let pre = rows.drop_last();
        assert forall|j: int| k < j < pre.len() implies (#[trigger] pre[j]).event_type@ != "step_failed"@ by {
            assert(pre[j] == rows[j]);
        }
        lemma_failure_detail_at(pre, k);
    }
}

/// A turn shows what its step thought, answered and why it failed: the last
/// non-empty thinking text in a `:::thinking` block; the last non-empty
/// response on its own lines when no row failed the step; and when a row
/// failed it, a warning callout with the last failing row's response (or
/// `Step failed` when it has none).
pub proof fn lemma_turn_shows_thinking_response_failure(turn: nat, id: Seq<char>, rows: Seq<StepRow>, k: int)
    requires
        0 <= k < rows.len(),
    ensures
        (rows[k].thinking is Some && rows[k].thinking->0@.len() > 0 && forall|j: int|
            k < j < rows.len() ==> (#[trigger] rows[j].thinking is None || rows[j].thinking->0@.len() == 0))
            ==> occurs_in(turn_text(turn, id, rows), "\n:::thinking\n"@ + rows[k].thinking->0@ + "\n:::\n"@),
        (rows[k].response is Some && rows[k].response->0@.len() > 0
            && (forall|j: int| k < j < rows.len() ==> (#[trigger] rows[j].response is None || rows[j].response->0@.len() == 0))
            && (forall|j: int| 0 <= j < rows.len() ==> (#[trigger] rows[j]).event_type@ != "step_failed"@))
            ==> occurs_in(turn_text(turn, id, rows), "\n"@ + rows[k].response->0@ + "\n"@),
        (rows[k].event_type@ == "step_failed"@ && forall|j: int|
            k < j < rows.len() ==> (#[trigger] rows[j]).event_type@ != "step_failed"@) ==> occurs_in(
            turn_text(turn, id, rows),
            "\n> [!WARNING]\n> **Step failed:** "@ + (match rows[k].response {
                Some(r) => r@,
                None => "Step failed"@,
            }) + "\n"@,
        ),
{
    reveal_strlit("\n:::");
    reveal_strlit("\n");
    reveal_strlit("\n:::\n");
    reveal_strlit("thinking");
    reveal_strlit("\n:::thinking\n");
    reveal_strlit("\n> [!WARNING]\n");
    reveal_strlit("> **Step failed:** ");
    reveal_strlit("\n> [!WARNING]\n> **Step failed:** ");
    let th = block("thinking"@, last_nonempty(thinking_values(rows)));
    let tools = tool_events_text(last_tool_events(rows));
    let resp = response_part(last_nonempty(response_values(rows)), any_failed(rows));
    let streams = opt_block("stdio stream=\"stdout\""@, texts(stdout_values(rows)))
        + opt_block("stdio stream=\"stderr\""@, texts(stderr_values(rows)));
    let tail = tail_part(
        any_failed(rows),
        failure_detail(rows),
        texts(cost_values(rows)),
        last_some(input_values(rows)),
        last_some(output_values(rows)),
    );
    let head = turn_head(turn, id);
    let whole = turn_text(turn, id, rows);
    assert(whole =~= head + th + (tools + resp + streams + tail));
    assert(whole =~= head + th + tools + resp + streams + tail);
    if rows[k].thinking is Some && rows[k].thinking->0@.len() > 0 && forall|j: int|
        k < j < rows.len() ==> (#[trigger] rows[j].thinking is None || rows[j].thinking->0@.len() == 0) {
        let vals = thinking_values(rows);
        assert forall|j: int| k < j < vals.len() implies (#[trigger] vals[j] is None || vals[j]->0@.len() == 0) by {
            assert(vals[j] == rows[j].thinking);
        }
        assert(vals[k] == rows[k].thinking);
        lemma_last_nonempty_at(vals, k);
        assert(th =~= "\n:::thinking\n"@ + rows[k].thinking->0@ + "\n:::\n"@);
        lemma_occurs_in_middle(head, th, tools + resp + streams + tail);
    }
    if rows[k].response is Some && rows[k].response->0@.len() > 0
        && (forall|j: int| k < j < rows.len() ==> (#[trigger] rows[j].response is None || rows[j].response->0@.len() == 0))
        && (forall|j: int| 0 <= j < rows.len() ==> (#[trigger] rows[j]).event_type@ != "step_failed"@) {
        let vals = response_values(rows);
        assert forall|j: int| k < j < vals.len() implies (#[trigger] vals[j] is None || vals[j]->0@.len() == 0) by {
            assert(vals[j] == rows[j].response);
        }
        assert(vals[k] == rows[k].response);
        lemma_last_nonempty_at(vals, k);
        assert(!any_failed(rows));
        assert(resp =~= "\n"@ + rows[k].response->0@ + "\n"@);
        lemma_occurs_in_middle(head + th + tools, resp, streams + tail);
        assert(head + th + tools + resp + (streams + tail) =~= whole);
    }
    if rows[k].event_type@ == "step_failed"@ && forall|j: int|
        k < j < rows.len() ==> (#[trigger] rows[j]).event_type@ != "step_failed"@ {
        lemma_failure_detail_at(rows, k);
        assert(any_failed(rows));
        let d = match rows[k].response {
            Some(r) => r@,
            None => "Step failed"@,
        };
        assert(tail =~= "\n> [!WARNING]\n> **Step failed:** "@ + d + "\n"@);
        lemma_occurs_in_middle(head + th + tools + resp + streams, tail, Seq::empty());
        assert(head + th + tools + resp + streams + tail + Seq::empty() =~= whole);
    }
}

/// What a turn holds, the log holds.
proof fn lemma_log_holds_turn(steps: Seq<StepRow>, id: Seq<char>, p: Seq<char>)
    requires
        first_seen_ids(steps).contains(id),
        occurs_in(
            turn_text((first_seen_ids(steps).index_of(id) + 1) as nat, id, rows_of(steps, id)),
            p,
        ),
    ensures
        occurs_in(ail_log(steps), p),
{
    let ids = first_seen_ids(steps);
    let i = ids.index_of(id);
    lemma_turns_hold_turn(steps, ids, ids.len() as int, i, p);
    lemma_occurs_in_extend("ail-log/1\n"@, turns_text(steps, ids, ids.len() as int), Seq::empty(), p);
    assert("ail-log/1\n"@ + turns_text(steps, ids, ids.len() as int) + Seq::empty() =~= ail_log(steps));
}

proof fn lemma_turns_hold_turn(rows: Seq<StepRow>, ids: Seq<Seq<char>>, n: int, i: int, p: Seq<char>)
    requires
        0 <= i < n,
        occurs_in(turn_text((i + 1) as nat, ids[i], rows_of(rows, ids[i])), p),
    ensures
        occurs_in(turns_text(rows, ids, n), p),
    decreases n,
{
    let last = turn_text(n as nat, ids[n - 1], rows_of(rows, ids[n - 1]));
    if i == n - 1 {
        lemma_occurs_in_extend(turns_text(rows, ids, n - 1), last, Seq::empty(), p);
        assert(turns_text(rows, ids, n - 1) + last + Seq::empty() =~= turns_text(rows, ids, n));
    } else {
        lemma_turns_hold_turn(rows, ids, n - 1, i, p);
        lemma_occurs_in_extend(Seq::empty(), turns_text(rows, ids, n - 1), last, p);
        assert(Seq::empty() + turns_text(rows, ids, n - 1) + last =~= turns_text(rows, ids, n));
    }
}

/// Row `m` of a run is row `k` of its step's rows, and the step's rows
/// after it are rows of the run after `m`.
proof fn lemma_row_in_step(steps: Seq<StepRow>, m: int) -> (k: int)
    requires
        0 <= m < steps.len(),
    ensures
        0 <= k < rows_of(steps, steps[m].step_id@).len(),
        rows_of(steps, steps[m].step_id@)[k] == steps[m],
        forall|j: int|
            k < j < rows_of(steps, steps[m].step_id@).len() ==> exists|i: int|
                m < i < steps.len() && steps[i] == #[trigger] rows_of(steps, steps[m].step_id@)[j]
                    && steps[i].step_id@ == steps[m].step_id@,
    decreases steps.len(),
{
    let pred = |r: StepRow| r.step_id@ == steps[m].step_id@;
    let pre = steps.drop_last();
    let last = steps.last();
    assert(steps =~= pre.push(last));
    assert(rows_of(steps, steps[m].step_id@) == steps.filter(pred));
    pre.lemma_filter_push(last, pred);
    if m == steps.len() - 1 {
        rows_of(steps, steps[m].step_id@).len() - 1
    } else {
        assert(pre[m] == steps[m]);
        let k = lemma_row_in_step(pre, m);
        assert(rows_of(pre, pre[m].step_id@) == pre.filter(pred));
        let g = rows_of(steps, steps[m].step_id@);
        let gp = pre.filter(pred);
        assert forall|j: int| k < j < g.len() implies exists|i: int|
            m < i < steps.len() && steps[i] == #[trigger] g[j] && steps[i].step_id@ == steps[m].step_id@ by {
            if j < gp.len() {
                assert(g[j] == gp[j]);
                let i = choose|i: int| m < i < pre.len() && pre[i] == #[trigger] gp[j] && pre[i].step_id@ == pre[m].step_id@;
                assert(steps[i] == pre[i]);
            } else {
                assert(g[j] == last);
                assert(steps[steps.len() - 1] == last);
            }
        }
        k
    }
}

/// Every command output stream a run recorded shows in its log: when row
/// `m` records a non-empty stdout (stderr) text and no later row of the same
/// step records one, the log holds a `:::stdio stream="stdout"`
/// (`"stderr"`) block around that text.
pub proof fn lemma_ail_log_shows_streams(steps: Seq<StepRow>, m: int)
    requires
        0 <= m < steps.len(),
    ensures
        (steps[m].stdout is Some && steps[m].stdout->0@.len() > 0 && forall|j: int|
            m < j < steps.len() && #[trigger] steps[j].step_id@ == steps[m].step_id@ ==> steps[j].stdout is None)
            ==> occurs_in(ail_log(steps), "\n:::stdio stream=\"stdout\"\n"@ + steps[m].stdout->0@ + "\n:::\n"@),
        (steps[m].stderr is Some && steps[m].stderr->0@.len() > 0 && forall|j: int|
            m < j < steps.len() && #[trigger] steps[j].step_id@ == steps[m].step_id@ ==> steps[j].stderr is None)
            ==> occurs_in(ail_log(steps), "\n:::stdio stream=\"stderr\"\n"@ + steps[m].stderr->0@ + "\n:::\n"@),
{
    let id = steps[m].step_id@;
    let k = lemma_row_in_step(steps, m);
    let g = rows_of(steps, id);
    lemma_one_turn_per_step(steps);
    assert(first_seen_ids(steps).contains(steps[m].step_id@));
    let i = first_seen_ids(steps).index_of(id);
    lemma_turn_shows_streams((i + 1) as nat, id, g, k);
    let turn = turn_text((i + 1) as nat, id, g);
    let out_needle = "\n:::stdio stream=\"stdout\"\n"@ + steps[m].stdout->0@ + "\n:::\n"@;
    let err_needle = "\n:::stdio stream=\"stderr\"\n"@ + steps[m].stderr->0@ + "\n:::\n"@;
    if steps[m].stdout is Some && steps[m].stdout->0@.len() > 0 && forall|j: int|
        m < j < steps.len() && #[trigger] steps[j].step_id@ == steps[m].step_id@ ==> steps[j].stdout is None {
        assert forall|j: int| k < j < g.len() implies #[trigger] g[j].stdout is None by {
            let i2 = choose|i2: int| m < i2 < steps.len() && steps[i2] == #[trigger] g[j] && steps[i2].step_id@ == id;
        }
        lemma_log_holds_turn(steps, id, out_needle);
    }
    if steps[m].stderr is Some && steps[m].stderr->0@.len() > 0 && forall|j: int|
        m < j < steps.len() && #[trigger] steps[j].step_id@ == steps[m].step_id@ ==> steps[j].stderr is None {
        assert forall|j: int| k < j < g.len() implies #[trigger] g[j].stderr is None by {
            let i2 = choose|i2: int| m < i2 < steps.len() && steps[i2] == #[trigger] g[j] && steps[i2].step_id@ == id;
        }
        lemma_log_holds_turn(steps, id, err_needle);
    }
}

proof fn lemma_map_push<A, B>(s: Seq<A>, x: A, f: spec_fn(A) -> B)
    ensures
        s.push(x).map_values(f) == s.map_values(f).push(f(x)),
{
    assert(s.push(x).map_values(f) =~= s.map_values(f).push(f(x)));
}

/// Take one more row of the step into account.
#[verifier::rlimit(40)]
fn absorb(f: &mut TurnFacts, all: &Vec<StepRow>, k: usize, Ghost(pre): Ghost<Seq<StepRow>>)
    requires
        k < all@.len(),
        facts_of(*old(f), pre, all@),
    ensures
        facts_of(*final(f), pre.push(all@[k as int]), all@),
{
    let row = &all[k];
    let ghost now = pre.push(*row);
    proof {
        assert(now.drop_last() =~= pre);
        lemma_map_push(pre, *row, |r: StepRow| r.thinking);
        lemma_map_push(pre, *row, |r: StepRow| r.response);
        lemma_map_push(pre, *row, |r: StepRow| r.cost_usd);
        lemma_map_push(pre, *row, |r: StepRow| r.input_tokens);
        lemma_map_push(pre, *row, |r: StepRow| r.output_tokens);
        lemma_map_push(pre, *row, |r: StepRow| r.stdout);
        lemma_map_push(pre, *row, |r: StepRow| r.stderr);
        assert(thinking_values(now).drop_last() =~= thinking_values(pre));
        assert(response_values(now).drop_last() =~= response_values(pre));
        assert(cost_values(now).drop_last() =~= cost_values(pre));
        assert(input_values(now).drop_last() =~= input_values(pre));
        assert(output_values(now).drop_last() =~= output_values(pre));
        assert(stdout_values(now).drop_last() =~= stdout_values(pre));
        assert(stderr_values(now).drop_last() =~= stderr_values(pre));
    }
    if let Some(t) = &row.thinking {
        if t.unicode_len() > 0 {
            f.thinking = t.clone();
        }
    }
    if let Some(r) = &row.response {
        if r.unicode_len() > 0 {
            f.response = r.clone();
        }
    }
    if row.cost_usd.is_some() {
        f.cost = crate::text::clone_opt(&row.cost_usd);
    }
    if row.input_tokens.is_some() {
        f.input = row.input_tokens;
    }
    if row.output_tokens.is_some() {
        f.output = row.output_tokens;
    }
    if row.stdout.is_some() {
        f.stdout = crate::text::clone_opt(&row.stdout);
    }
    if row.stderr.is_some() {
        f.stderr = crate::text::clone_opt(&row.stderr);
    }
    if crate::text::str_eq(row.event_type.as_str(), "step_failed") {
        f.failed = true;
        f.detail = match &row.response {
            Some(r) => r.clone(),
            None => String::from_str("Step failed"),
        };
    }
    if row.tool_events.len() > 0 {
        f.tools = Some(k);
    }
    proof {
        if row.event_type@ == "step_failed"@ {
            assert(now[now.len() - 1] == *row);
        } else {
            if any_failed(now) {
                let j = choose|j: int| 0 <= j < now.len() && (#[trigger] now[j]).event_type@ == "step_failed"@;
                assert(j < pre.len());
                assert(pre[j] == now[j]);
            }
            if any_failed(pre) {
                let j = choose|j: int| 0 <= j < pre.len() && (#[trigger] pre[j]).event_type@ == "step_failed"@;
                assert(now[j] == pre[j]);
            }
        }
    }
}

/// Gather what the rows of step `id` give.
fn gather_turn(rows: &Vec<StepRow>, id: &str) -> (f: TurnFacts)
    ensures
        facts_of(f, rows_of(rows@, id@), rows@),
{
    let ghost pred = |r: StepRow| r.step_id@ == id@;
    let mut f = TurnFacts {
        thinking: String::new(),
        response: String::new(),
        cost: None,
        input: None,
        output: None,
        stdout: None,
        stderr: None,
        failed: false,
        detail: String::new(),
        tools: None,
    };
    proof {
        assert(rows@.take(0).filter(pred) =~= Seq::<StepRow>::empty());
    }
    let mut k: usize = 0;
    while k < rows.len()
        invariant
            k <= rows@.len(),
            pred == (|r: StepRow| r.step_id@ == id@),
            facts_of(f, rows@.take(k as int).filter(pred), rows@),
        decreases rows@.len() - k,
    {
        proof {
            assert(rows@.take(k + 1) =~= rows@.take(k as int).push(rows@[k as int]));
            rows@.take(k as int).lemma_filter_push(rows@[k as int], pred);
        }
        if crate::text::str_eq(rows[k].step_id.as_str(), id) {
            absorb(&mut f, rows, k, Ghost(rows@.take(k as int).filter(pred)));
        }
        k += 1;
    }
    proof {
        assert(rows@.take(rows@.len() as int) =~= rows@);
    }
    f
}

fn response_string(response: &str, failed: bool) -> (r: String)
    ensures
        r@ == response_part(response@, failed),
{
    let mut r = String::new();
    if response.unicode_len() > 0 && !failed {
        r.append("\n");
        r.append(response);
        r.append("\n");
    }
    assert(r@ =~= response_part(response@, failed));
    r
}

fn opt_block_string(head: &str, body: &Option<String>) -> (r: String)
    ensures
        r@ == opt_block(head@, crate::error::opt_view(*body)),
{
    let mut r = String::new();
    match body {
        Some(b) => push_block(&mut r, head, b.as_str()),
        None => {},
    }
    assert(r@ =~= opt_block(head@, crate::error::opt_view(*body)));
    r
}

fn tail_string(failed: bool, detail: &str, cost: &Option<String>, input: Option<i64>, output: Option<i64>) -> (r: String)
    ensures
        r@ == tail_part(failed, detail@, crate::error::opt_view(*cost), input, output),
{
    let mut r = String::new();
    if failed {
        r.append("\n> [!WARNING]\n");
        r.append("> **Step failed:** ");
        r.append(detail);
        r.append("\n");
    } else if cost.is_some() || input.is_some() || output.is_some() {
        r.append("\n---\n");
        push_cost_line(&mut r, cost, input, output);
        r.append("\n");
    }
    assert(r@ =~= tail_part(failed, detail@, crate::error::opt_view(*cost), input, output));
    r
}

fn block_string(head: &str, body: &str) -> (r: String)
    ensures
        r@ == block(head@, body@),
{
    let mut r = String::new();
    push_block(&mut r, head, body);
    assert(r@ =~= block(head@, body@));
    r
}

fn tool_events_string(tes: &Vec<ToolEvent>) -> (r: String)
    ensures
        r@ == tool_events_text(tes@),
{
    let mut r = String::new();
    push_tool_events(&mut r, tes);
    assert(r@ =~= tool_events_text(tes@));
    r
}

/// Append the turn block of step `id` (the `turn`-th step) built from its
/// rows among `rows`.
fn format_step(out: &mut String, turn: u64, id: &str, rows: &Vec<StepRow>)
    ensures
        final(out)@ == old(out)@ + turn_text(turn as nat, id@, rows_of(rows@, id@)),
{
    let f = gather_turn(rows, id);
    let ghost group = rows_of(rows@, id@);
    let mut t = String::from_str("\n## Turn ");
    push_decimal(&mut t, turn);
    t.append(" — `");
    t.append(id);
    t.append("`\n");
    assert(t@ == turn_head(turn as nat, id@));
    t.append(block_string("thinking", f.thinking.as_str()).as_str());
    let tools = match f.tools {
        Some(j) => tool_events_string(&rows[j].tool_events),
        None => {
            let empty: Vec<ToolEvent> = Vec::new();
            assert(empty@ =~= Seq::<ToolEvent>::empty());
            tool_events_string(&empty)
        },
    };
    t.append(tools.as_str());
    t.append(response_string(f.response.as_str(), f.failed).as_str());
    t.append(opt_block_string("stdio stream=\"stdout\"", &f.stdout).as_str());
    t.append(opt_block_string("stdio stream=\"stderr\"", &f.stderr).as_str());
    t.append(tail_string(f.failed, f.detail.as_str(), &f.cost, f.input, f.output).as_str());
    assert(t@ == turn_text(turn as nat, id@, group));
    out.append(t.as_str());
}

/// The step ids in order of first appearance.
fn first_seen(rows: &Vec<StepRow>) -> (ids: Vec<String>)
    ensures
        crate::text::views(ids@) == first_seen_ids(rows@),
{
    let mut ids: Vec<String> = Vec::new();
    let mut k: usize = 0;
    while k < rows.len()
        invariant
            k <= rows@.len(),
            crate::text::views(ids@) == first_seen_ids(rows@.take(k as int)),
        decreases rows@.len() - k,
    {
        proof {
            assert(rows@.take(k + 1).drop_last() =~= rows@.take(k as int));
        }
        if !crate::text::contains_string(&ids, rows[k].step_id.as_str()) {
            ids.push(rows[k].step_id.clone());
            proof {
                assert(crate::text::views(ids@) =~= crate::text::views(ids@.drop_last()).push(rows@[k as int].step_id@));
            }
        }
        k += 1;
    }
    assert(rows@.take(rows@.len() as int) =~= rows@);
    ids
}

/// Render a run's rows as `ail-log/1` markdown: the header line, then for
/// each step, in order of first appearance, a turn block with its thinking,
/// tool calls and results, response, command output, and a cost line or a
/// failure callout.
pub fn format_run_as_ail_log(steps: &Vec<StepRow>) -> (r: String)
    ensures
        r@ == ail_log(steps@),
{
    let mut output = String::from_str("ail-log/1\n");
    let ids = first_seen(steps);
    let ghost idv = crate::text::views(ids@);
    let ghost header = output@;
    let mut k: usize = 0;
    while k < ids.len()
        invariant
            k <= ids@.len(),
            idv == crate::text::views(ids@),
            idv == first_seen_ids(steps@),
            output@ == header + turns_text(steps@, idv, k as int),
        decreases ids@.len() - k,
    {
        let ghost before = output@;
        format_step(&mut output, (k + 1) as u64, ids[k].as_str(), steps);
        proof {
            assert(idv[k as int] == ids@[k as int]@);
            assert(output@ =~= header + turns_text(steps@, idv, k + 1));
        }
        k += 1;
    }
    output
}

} // verus!
