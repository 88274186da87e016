//! Validation of pipeline-file shapes into the domain model: step bodies,
//! conditions, error policies, chains and the step list.
use vstd::prelude::*;
use vstd::string::*;

pub mod cycles;
pub mod pipeline;
pub mod step_body;
pub mod regex_literal;

use crate::config::condition::{condition_parse, parse_condition_expression, ConditionParse};
use crate::config::domain::{
    ActionKind, Condition, ContextSource, HitlHeadlessBehavior, OnError, Step, StepBody, StepId,
    SystemPromptEntry, ToolPolicy,
};
use crate::config::dto::{
    AppendSystemPromptEntryDto, AppendSystemPromptStructuredDto, ChainStepDto, DoWhileDto,
    OnResultDto, StepDto, ToolsDto,
};
use crate::config::on_result::{
    branch_agrees, branches_valid_from, decimal_string, parse_on_result,
};
use crate::error::{opt_view, AilError, ErrorKind};
use crate::executor::schema::schema_compile_failure;
use crate::text::{decimal, str_eq, trim, trim_str};

verus! {

// ── Specification: validity ──────────────────────────────────────────────────

/// The number of primary fields a step declares (`prompt` counts only
/// without `pipeline`, where it is the child's invocation prompt).
pub open spec fn primary_count(d: StepDto) -> nat {
    (if d.prompt is Some && d.pipeline is None { 1nat } else { 0nat })
        + (if d.skill is Some { 1nat } else { 0nat }) + (if d.pipeline is Some { 1nat } else { 0nat })
        + (if d.action is Some { 1nat } else { 0nat }) + (if d.context is Some { 1nat } else { 0nat })
        + (if d.do_while is Some { 1nat } else { 0nat })
}

/// The headless behavior a `modify_output` step declares, if valid.
pub open spec fn headless_of(d: StepDto) -> Option<HitlHeadlessBehavior> {
    match d.on_headless {
        None => Some(HitlHeadlessBehavior::Skip),
        Some(h) => if h@ == "skip"@ {
            Some(HitlHeadlessBehavior::Skip)
        } else if h@ == "abort"@ {
            Some(HitlHeadlessBehavior::Abort)
        } else if h@ == "use_default"@ && d.default_value is Some {
            Some(HitlHeadlessBehavior::UseDefault)
        } else {
            None
        },
    }
}

/// A step body is valid (nested `do_while` steps included).
pub open spec fn body_valid(d: StepDto) -> bool
    decreases d, 0int,
{
    &&& d.for_each is None
    &&& d.input_schema is None
    &&& primary_count(d) == 1
    &&& if d.pipeline is Some || d.prompt is Some {
        true
    } else if d.skill is Some {
        trim(d.skill->0@).len() > 0
    } else if d.action is Some {
        d.action->0@ == "pause_for_human"@ || (d.action->0@ == "modify_output"@ && headless_of(d) is Some)
    } else if d.context is Some {
        d.context->0.shell is Some
    } else if d.do_while is Some {
        do_while_valid(d.do_while->0)
    } else {
        false
    }
}

/// A `do_while` block is valid.
pub open spec fn do_while_valid(dw: DoWhileDto) -> bool
    decreases dw, 0int,
{
    &&& dw.max_iterations matches Some(n) && n >= 1
    &&& dw.exit_when matches Some(w) && condition_parse(w@) is Parsed
    &&& dw.steps matches Some(v) && v.len() > 0 && steps_valid_from(v@, 0) && ids_distinct(v@)
}

/// The steps from index `i` on are each valid at top level.
pub open spec fn steps_valid_from(s: Seq<StepDto>, i: int) -> bool
    decreases s, s.len() - i,
{
    if i < 0 || i >= s.len() {
        true
    } else {
        step_valid(s[i]) && steps_valid_from(s, i + 1)
    }
}

/// No hook operation field is set.
pub open spec fn no_hooks(d: StepDto) -> bool {
    d.run_before is None && d.run_after is None && d.override_step is None && d.disable is None
}

/// The condition field is valid.
pub open spec fn condition_valid(c: Option<String>) -> bool {
    match c {
        None => true,
        Some(s) => s@ == "always"@ || s@ == "never"@ || condition_parse(s@) is Parsed,
    }
}

/// The on_result field is valid for a step without input schema.
pub open spec fn on_result_valid(id: Seq<char>, o: Option<OnResultDto>) -> bool {
    match o {
        None => true,
        Some(OnResultDto::Branches(bs)) => branches_valid_from(id, bs@, 0),
        Some(OnResultDto::FieldEquals(_)) => false,
    }
}

/// The number of keys a structured system-prompt entry sets.
pub open spec fn key_count(s: AppendSystemPromptStructuredDto) -> nat {
    (if s.text is Some { 1nat } else { 0nat }) + (if s.file is Some { 1nat } else { 0nat })
        + (if s.shell is Some { 1nat } else { 0nat })
}

/// An `append_system_prompt` entry is valid.
pub open spec fn entry_valid(e: AppendSystemPromptEntryDto) -> bool {
    match e {
        AppendSystemPromptEntryDto::Text(_) => true,
        AppendSystemPromptEntryDto::Structured(s) => key_count(s) == 1,
    }
}

/// Every entry of `s` is valid.
pub open spec fn entries_valid(s: Seq<AppendSystemPromptEntryDto>) -> bool {
    forall|k: int| 0 <= k < s.len() ==> entry_valid(#[trigger] s[k])
}

/// All `append_system_prompt` entries are valid.
pub open spec fn append_valid(o: Option<Vec<AppendSystemPromptEntryDto>>) -> bool {
    match o {
        None => true,
        Some(v) => entries_valid(v@),
    }
}

/// The error policy a step declares: `None` when invalid.
pub open spec fn on_error_of(d: StepDto) -> Option<Option<OnError>> {
    on_error_spec(d.on_error, d.max_retries)
}

/// The error policy of an `on_error:`/`max_retries:` pair: `None` when invalid.
pub open spec fn on_error_spec(on_error: Option<String>, max_retries: Option<u32>) -> Option<Option<OnError>> {
    match on_error {
        None => if max_retries is Some { None } else { Some(None) },
        Some(s) => if s@ == "continue"@ {
            if max_retries is Some { None } else { Some(Some(OnError::Continue)) }
        } else if s@ == "retry"@ {
            match max_retries {
                None => None,
                Some(n) => if n == 0 { None } else { Some(Some(OnError::Retry { max_retries: n })) },
            }
        } else if s@ == "abort_pipeline"@ {
            if max_retries is Some { None } else { Some(Some(OnError::AbortPipeline)) }
        } else {
            None
        },
    }
}

/// The id given to entry `k` of a `before:`/`then:` chain of `parent`.
pub open spec fn chain_id(parent: Seq<char>, kind: Seq<char>, k: int) -> Seq<char> {
    parent + "::"@ + kind + "::"@ + decimal(k as nat)
}

/// A chain list is valid.
pub open spec fn chain_valid(parent: Seq<char>, kind: Seq<char>, o: Option<Vec<ChainStepDto>>) -> bool
    decreases o, 0int,
{
    match o {
        None => true,
        Some(v) => chain_entries_valid_from(parent, kind, v@, 0),
    }
}

/// Chain entries from index `k` on are valid.
pub open spec fn chain_entries_valid_from(parent: Seq<char>, kind: Seq<char>, v: Seq<ChainStepDto>, k: int) -> bool
    decreases v, v.len() - k,
{
    if k < 0 || k >= v.len() {
        true
    } else {
        chain_entry_valid(chain_id(parent, kind, k), v[k]) && chain_entries_valid_from(
            parent,
            kind,
            v,
            k + 1,
        )
    }
}

/// A chain entry is valid, its id being `id`.
pub open spec fn chain_entry_valid(id: Seq<char>, e: ChainStepDto) -> bool
    decreases e, 0int,
{
    match e {
        ChainStepDto::Short(_) => true,
        ChainStepDto::Full(b) => {
            &&& body_valid(*b)
            &&& on_result_valid(id, b.on_result)
            &&& append_valid(b.append_system_prompt)
            &&& chain_valid(id, "before"@, b.before)
            &&& chain_valid(id, "then"@, b.then_steps)
        },
    }
}

/// A top-level step is valid (its id aside from uniqueness).
pub open spec fn step_valid(d: StepDto) -> bool
    decreases d, 1int,
{
    &&& no_hooks(d)
    &&& d.id is Some
    &&& body_valid(d)
    &&& on_result_valid(d.id->0@, d.on_result)
    &&& condition_valid(d.condition)
    &&& append_valid(d.append_system_prompt)
    &&& on_error_of(d) is Some
    &&& chain_valid(d.id->0@, "before"@, d.before)
    &&& chain_valid(d.id->0@, "then"@, d.then_steps)
}

/// No two steps declare the same id.
pub open spec fn ids_distinct(s: Seq<StepDto>) -> bool {
    forall|i: int, j: int|
        0 <= i < j < s.len() && s[i].id is Some && s[j].id is Some ==> #[trigger] s[i].id->0@
            != #[trigger] s[j].id->0@
}

/// A list of steps is valid: each step valid, ids unique.
pub open spec fn steps_valid(s: Seq<StepDto>) -> bool {
    steps_valid_from(s, 0) && ids_distinct(s)
}


// ── Specification: output schemas that do not compile ───────────────────────

/// Some step from index `i` on declares an output schema that does not
/// compile as a JSON Schema (nested `do_while` steps and chain bodies
/// included).
pub open spec fn schema_in_steps_from(s: Seq<StepDto>, i: int) -> bool
    decreases s, s.len() - i,
{
    if i < 0 || i >= s.len() {
        false
    } else {
        schema_in_step(s[i]) || schema_in_steps_from(s, i + 1)
    }
}

/// The top-level step `d`, or a step below it, declares an output schema that
/// does not compile as a JSON Schema.
pub open spec fn schema_in_step(d: StepDto) -> bool
    decreases d, 2int,
{
    (d.output_schema matches Some(t) && schema_compile_failure(t@) is Some) || schema_below(d)
}

/// A step below `d` (in its `do_while` block or its chains) declares an output
/// schema that does not compile.
pub open spec fn schema_below(d: StepDto) -> bool
    decreases d, 1int,
{
    schema_in_body(d) || schema_in_chain(d.before) || schema_in_chain(d.then_steps)
}

/// A step of the `do_while` block of `d` (at any depth) declares an output
/// schema that does not compile.
pub open spec fn schema_in_body(d: StepDto) -> bool
    decreases d, 0int,
{
    match d.do_while {
        Some(dw) => match dw.steps {
            Some(v) => schema_in_steps_from(v@, 0),
            None => false,
        },
        None => false,
    }
}

/// Some entry of a chain holds such a step below it.
pub open spec fn schema_in_chain(o: Option<Vec<ChainStepDto>>) -> bool
    decreases o, 0int,
{
    match o {
        None => false,
        Some(v) => schema_in_chain_from(v@, 0),
    }
}

/// Some chain entry from index `k` on holds such a step below it.
pub open spec fn schema_in_chain_from(v: Seq<ChainStepDto>, k: int) -> bool
    decreases v, v.len() - k,
{
    if k < 0 || k >= v.len() {
        false
    } else {
        schema_in_entry(v[k]) || schema_in_chain_from(v, k + 1)
    }
}

/// The chain entry holds such a step below it.
pub open spec fn schema_in_entry(e: ChainStepDto) -> bool
    decreases e, 0int,
{
    match e {
        ChainStepDto::Short(_) => false,
        ChainStepDto::Full(b) => schema_below(*b),
    }
}

// ── Specification: agreement of results with the file ───────────────────────

/// The parsed condition corresponds to the file's condition.
pub open spec fn condition_agrees(c: Option<String>, r: Option<Condition>) -> bool {
    match c {
        None => r is None,
        Some(s) => if s@ == "always"@ {
            r is None
        } else if s@ == "never"@ {
            r matches Some(Condition::Never)
        } else {
            match condition_parse(s@) {
                ConditionParse::Parsed { lhs, op, rhs } => r matches Some(Condition::Expression(e))
                    && e.lhs@ == lhs && e.op == op && e.rhs@ == rhs,
                _ => false,
            }
        },
    }
}

/// The parsed system-prompt entry corresponds to the file entry.
pub open spec fn entry_agrees(e: AppendSystemPromptEntryDto, r: SystemPromptEntry) -> bool {
    match e {
        AppendSystemPromptEntryDto::Text(s) => r == SystemPromptEntry::Text(s),
        AppendSystemPromptEntryDto::Structured(s) => if s.text is Some {
            r == SystemPromptEntry::Text(s.text->0)
        } else if s.file is Some {
            r == SystemPromptEntry::File(s.file->0)
        } else {
            r == SystemPromptEntry::Shell(s.shell->0)
        },
    }
}

/// The parsed entries correspond to the file entries.
pub open spec fn append_agrees(o: Option<Vec<AppendSystemPromptEntryDto>>, r: Option<Vec<SystemPromptEntry>>) -> bool {
    match (o, r) {
        (None, None) => true,
        (Some(v), Some(w)) => v.len() == w.len() && forall|k: int|
            0 <= k < v.len() ==> entry_agrees(v@[k], #[trigger] w@[k]),
        _ => false,
    }
}

/// The parsed branches correspond to the file's multi-branch `on_result`.
pub open spec fn on_result_agrees(id: Seq<char>, o: Option<OnResultDto>, r: Option<Vec<crate::config::domain::ResultBranch>>) -> bool {
    match (o, r) {
        (None, None) => true,
        (Some(OnResultDto::Branches(bs)), Some(v)) => v.len() == bs.len() && forall|k: int|
            0 <= k < v.len() ==> branch_agrees(bs@[k], id, #[trigger] v@[k]),
        _ => false,
    }
}

/// The tool policy corresponds to the file's `tools:`.
pub open spec fn tools_agree(o: Option<ToolsDto>, r: Option<ToolPolicy>) -> bool {
    match (o, r) {
        (None, None) => true,
        (Some(t), Some(p)) => p.disabled == t.disabled && p.allow == t.allow && p.deny == t.deny,
        _ => false,
    }
}

/// The views of a list of step ids.
pub open spec fn step_id_views(v: Seq<StepId>) -> Seq<Seq<char>> {
    v.map_values(|s: StepId| s.0@)
}

/// The body corresponds to the file step's primary field.
pub open spec fn body_agrees(d: StepDto, b: StepBody) -> bool
    decreases d, 0int,
{
    if d.pipeline is Some {
        b matches StepBody::SubPipeline { path, prompt } && path@ == d.pipeline->0@ && opt_view(prompt)
            == opt_view(d.prompt)
    } else if d.prompt is Some {
        b matches StepBody::Prompt(t) && t@ == d.prompt->0@
    } else if d.skill is Some {
        b matches StepBody::Skill { name } && name@ == d.skill->0@
    } else if d.action is Some {
        if d.action->0@ == "pause_for_human"@ {
            b matches StepBody::Action(ActionKind::PauseForHuman)
        } else {
            b matches StepBody::Action(ActionKind::ModifyOutput { headless_behavior, default_value })
                && Some(headless_behavior) == headless_of(d) && opt_view(default_value) == opt_view(
                d.default_value,
            )
        }
    } else if d.context is Some {
        b matches StepBody::Context(ContextSource::Shell(c)) && c@ == d.context->0.shell->0@
    } else if d.do_while is Some {
        do_while_agrees(d.do_while->0, b)
    } else {
        false
    }
}

/// A `do_while` body corresponds to its file block.
pub open spec fn do_while_agrees(dw: DoWhileDto, b: StepBody) -> bool
    decreases dw, 0int,
{
    b matches StepBody::DoWhile { max_iterations, exit_when, steps } && Some(max_iterations)
        == dw.max_iterations && (condition_parse(dw.exit_when->0@) matches ConditionParse::Parsed {
        lhs,
        op,
        rhs,
    } && exit_when.lhs@ == lhs && exit_when.op == op && exit_when.rhs@ == rhs) && match dw.steps {
        Some(v) => steps_agree_from(v@, steps@, 0),
        None => false,
    }
}

/// Steps correspond one to one from index `i` on.
pub open spec fn steps_agree_from(s: Seq<StepDto>, r: Seq<Step>, i: int) -> bool
    decreases s, s.len() - i,
{
    if s.len() != r.len() {
        false
    } else if i < 0 || i >= s.len() {
        true
    } else {
        step_agrees(s[i], r[i]) && steps_agree_from(s, r, i + 1)
    }
}

/// A top-level step corresponds to its file step.
pub open spec fn step_agrees(d: StepDto, s: Step) -> bool
    decreases d, 2int,
{
    body_agrees(d, s.body) && step_fields_agree(d, s)
}

/// Every field of a top-level step but its body corresponds to the file step.
pub open spec fn step_fields_agree(d: StepDto, s: Step) -> bool
    decreases d, 1int,
{
    let id = d.id->0@;
    &&& s.id.0@ == id
    &&& opt_view(s.message) == opt_view(d.message)
    &&& tools_agree(d.tools, s.tools)
    &&& on_result_agrees(id, d.on_result, s.on_result)
    &&& opt_view(s.model) == opt_view(d.model)
    &&& opt_view(s.runner) == opt_view(d.runner)
    &&& condition_agrees(d.condition, s.condition)
    &&& append_agrees(d.append_system_prompt, s.append_system_prompt)
    &&& opt_view(s.system_prompt) == opt_view(d.system_prompt)
    &&& s.resume == (d.resume == Some(true))
    &&& s.async_step == (d.async_step == Some(true))
    &&& step_id_views(s.depends_on@) == match d.depends_on {
        Some(v) => v@.map_values(|x: String| x@),
        None => Seq::<Seq<char>>::empty(),
    }
    &&& Some(s.on_error) == on_error_of(d)
    &&& chain_agrees(id, "before"@, d.before, s.before@)
    &&& chain_agrees(id, "then"@, d.then_steps, s.then_steps@)
    &&& s.output_schema == d.output_schema
    &&& s.input_schema is None
}

/// A chain's steps correspond to its file entries.
pub open spec fn chain_agrees(parent: Seq<char>, kind: Seq<char>, o: Option<Vec<ChainStepDto>>, r: Seq<Step>) -> bool
    decreases o, 0int,
{
    match o {
        None => r.len() == 0,
        Some(v) => v.len() == r.len() && chain_entries_agree_from(parent, kind, v@, r, 0),
    }
}

/// Chain entries correspond from index `k` on.
pub open spec fn chain_entries_agree_from(parent: Seq<char>, kind: Seq<char>, v: Seq<ChainStepDto>, r: Seq<Step>, k: int) -> bool
    decreases v, v.len() - k,
{
    if k < 0 || k >= v.len() || k >= r.len() {
        true
    } else {
        chain_entry_agrees(chain_id(parent, kind, k), v[k], r[k]) && chain_entries_agree_from(
            parent,
            kind,
            v,
            r,
            k + 1,
        )
    }
}

/// A chain step corresponds to its entry; its id is `id`.
pub open spec fn chain_entry_agrees(id: Seq<char>, e: ChainStepDto, s: Step) -> bool
    decreases e, 0int,
{
    &&& s.id.0@ == id
    &&& s.condition is None
    &&& s.on_error is None
    &&& s.input_schema is None
    &&& s.depends_on.len() == 0
    &&& !s.async_step
    &&& match e {
        ChainStepDto::Short(t) => {
            &&& s.body matches StepBody::Prompt(p) && p@ == t@
            &&& s.message is None && s.tools is None && s.on_result is None && s.model is None
            &&& s.runner is None && s.append_system_prompt is None && s.system_prompt is None
            &&& !s.resume && s.before.len() == 0 && s.then_steps.len() == 0 && s.output_schema is None
        },
        ChainStepDto::Full(b) => {
            &&& body_agrees(*b, s.body)
            &&& opt_view(s.message) == opt_view(b.message)
            &&& tools_agree(b.tools, s.tools)
            &&& on_result_agrees(id, b.on_result, s.on_result)
            &&& opt_view(s.model) == opt_view(b.model)
            &&& opt_view(s.runner) == opt_view(b.runner)
            &&& append_agrees(b.append_system_prompt, s.append_system_prompt)
            &&& opt_view(s.system_prompt) == opt_view(b.system_prompt)
            &&& s.resume == (b.resume == Some(true))
            &&& chain_agrees(id, "before"@, b.before, s.before@)
            &&& chain_agrees(id, "then"@, b.then_steps, s.then_steps@)
            &&& s.output_schema == b.output_schema
        },
    }
}

// ── Leaf parsers ─────────────────────────────────────────────────────────────

/// Convert a tools block into a tool policy.
pub fn tools_to_policy(t: ToolsDto) -> (p: ToolPolicy)
    ensures
        p.disabled == t.disabled,
        p.allow == t.allow,
        p.deny == t.deny,
{
    ToolPolicy { disabled: t.disabled, allow: t.allow, deny: t.deny }
}

pub(crate) fn opt_tools(t: Option<ToolsDto>) -> (r: Option<ToolPolicy>)
    ensures
        tools_agree(t, r),
{
    match t {
        Some(t) => Some(tools_to_policy(t)),
        None => None,
    }
}

/// "Step '<id>'" followed by `tail`.
pub(crate) fn step_msg(step_id: &str, tail: &str) -> (s: String)
    ensures
        s@ == "Step '"@ + step_id@ + tail@,
{
    let mut s = String::from_str("Step '");
    s.append(step_id);
    s.append(tail);
    s
}

pub(crate) fn cfg_err(detail: String) -> (e: AilError)
    ensures
        e.kind() == ErrorKind::ConfigValidationFailed,
        e.detail_string() == detail,
        e.context_value() is None,
{
    AilError::ConfigValidationFailed { detail, context: None }
}

/// Parse `append_system_prompt` entries; each structured entry must set
/// exactly one key.
pub fn parse_append_system_prompt(step_id: &str, entries: Vec<AppendSystemPromptEntryDto>) -> (r: Result<Vec<SystemPromptEntry>, AilError>)
    ensures
        match r {
            Ok(w) => append_valid(Some(entries)) && append_agrees(Some(entries), Some(w)),
            Err(e) => !append_valid(Some(entries)) && e.kind() == ErrorKind::ConfigValidationFailed,
        },
{
    let ghost es = entries@;
    let ghost ent = entries;
    let n = entries.len();
    let mut out: Vec<SystemPromptEntry> = Vec::new();
    let mut i: usize = 0;
    for entry in it: entries
        invariant
            n == es.len(),
            es == ent@,
            it.seq() == es,
            i == it.index(),
            i <= n,
            out.len() == i,
            forall|k: int| 0 <= k < i ==> entry_valid(es[k]),
            forall|k: int| 0 <= k < i ==> entry_agrees(es[k], #[trigger] out@[k]),
    {
        assert(entry == es[i as int]);
        assert(i < n);
        match entry {
            AppendSystemPromptEntryDto::Text(s) => {
                out.push(SystemPromptEntry::Text(s));
            },
            AppendSystemPromptEntryDto::Structured(s) => {
                let mut count: usize = 0;
                if s.text.is_some() {
                    count += 1;
                }
                if s.file.is_some() {
                    count += 1;
                }
                if s.shell.is_some() {
                    count += 1;
                }
                if count != 1 {
                    proof {
                        assert(!entry_valid(es[i as int]));
                        assert(!entry_valid(ent@[i as int]));
                        assert(!entries_valid(es));
                    }
                    let mut d = step_msg(step_id, "' append_system_prompt entry ");
                    d.append(decimal_string(i).as_str());
                    d.append(" must have exactly one key (text, file, or shell); found ");
                    d.append(decimal_string(count).as_str());
                    return Err(cfg_err(d));
                }
                let AppendSystemPromptStructuredDto { text, file, shell } = s;
                if let Some(t) = text {
                    out.push(SystemPromptEntry::Text(t));
                } else if let Some(f) = file {
                    out.push(SystemPromptEntry::File(f));
                } else if let Some(c) = shell {
                    out.push(SystemPromptEntry::Shell(c));
                }
            },
        }
        i += 1;
    }
    Ok(out)
}

/// Parse a step's `condition:` field.
pub fn parse_step_condition(step_id: &str, condition: &Option<String>) -> (r: Result<Option<Condition>, AilError>)
    ensures
        match r {
            Ok(c) => condition_valid(*condition) && condition_agrees(*condition, c),
            Err(e) => !condition_valid(*condition) && e.kind() == ErrorKind::ConfigValidationFailed,
        },
{
    match condition {
        None => Ok(None),
        Some(c) => {
            if str_eq(c.as_str(), "always") {
                Ok(None)
            } else if str_eq(c.as_str(), "never") {
                Ok(Some(Condition::Never))
            } else {
                match parse_condition_expression(c.as_str(), step_id) {
                    Ok(x) => Ok(Some(x)),
                    Err(e) => Err(e),
                }
            }
        },
    }
}

/// The message for an invalid `on_error:`/`max_retries:` pair of step `id`.
pub open spec fn on_error_message(id: Seq<char>, on_error: Option<String>, max_retries: Option<u32>) -> Seq<char> {
    match on_error {
        None => "Step '"@ + id + "' specifies 'max_retries' without 'on_error'; 'max_retries' is only valid with 'on_error: retry'"@,
        Some(s) => if s@ == "continue"@ {
            "Step '"@ + id + "' specifies 'max_retries' but 'on_error' is 'continue'; 'max_retries' is only valid with 'on_error: retry'"@
        } else if s@ == "retry"@ {
            if max_retries is None {
                "Step '"@ + id + "' specifies 'on_error: retry' but 'max_retries' is missing; 'max_retries' is required when 'on_error' is 'retry'"@
            } else {
                "Step '"@ + id + "' specifies 'max_retries: 0'; 'max_retries' must be at least 1"@
            }
        } else if s@ == "abort_pipeline"@ {
            "Step '"@ + id + "' specifies 'max_retries' but 'on_error' is 'abort_pipeline'; 'max_retries' is only valid with 'on_error: retry'"@
        } else {
            "Step '"@ + id + "' specifies unknown on_error value '"@ + s@
                + "'; supported values are 'continue', 'retry', and 'abort_pipeline'"@
        },
    }
}

/// Parse a step's `on_error:` and `max_retries:` fields.
pub fn parse_on_error(step_id: &str, on_error: &Option<String>, max_retries: Option<u32>) -> (r: Result<Option<OnError>, AilError>)
    ensures
        match r {
            Ok(o) => on_error_spec(*on_error, max_retries) == Some(o),
            Err(e) => on_error_spec(*on_error, max_retries) is None && e.kind() == ErrorKind::ConfigValidationFailed
                && e.detail_view() == on_error_message(step_id@, *on_error, max_retries),
        },
{
    let r = match on_error {
        None => None,
        Some(s) => {
            if str_eq(s.as_str(), "continue") {
                if max_retries.is_some() {
                    return Err(
                        cfg_err(
                            step_msg(
                                step_id,
                                "' specifies 'max_retries' but 'on_error' is 'continue'; 'max_retries' is only valid with 'on_error: retry'",
                            ),
                        ),
                    );
                }
                Some(OnError::Continue)
            } else if str_eq(s.as_str(), "retry") {
                let n = match max_retries {
                    Some(n) => n,
                    None => {
                        return Err(
                            cfg_err(
                                step_msg(
                                    step_id,
                                    "' specifies 'on_error: retry' but 'max_retries' is missing; 'max_retries' is required when 'on_error' is 'retry'",
                                ),
                            ),
                        );
                    },
                };
                if n == 0 {
                    return Err(
                        cfg_err(
                            step_msg(
                                step_id,
                                "' specifies 'max_retries: 0'; 'max_retries' must be at least 1",
                            ),
                        ),
                    );
                }
                Some(OnError::Retry { max_retries: n })
            } else if str_eq(s.as_str(), "abort_pipeline") {
                if max_retries.is_some() {
                    return Err(
                        cfg_err(
                            step_msg(
                                step_id,
                                "' specifies 'max_retries' but 'on_error' is 'abort_pipeline'; 'max_retries' is only valid with 'on_error: retry'",
                            ),
                        ),
                    );
                }
                Some(OnError::AbortPipeline)
            } else {
                let mut d = step_msg(step_id, "' specifies unknown on_error value '");
                d.append(s.as_str());
                d.append("'; supported values are 'continue', 'retry', and 'abort_pipeline'");
                return Err(cfg_err(d));
            }
        },
    };
    if on_error.is_none() && max_retries.is_some() {
        return Err(
            cfg_err(
                step_msg(
                    step_id,
                    "' specifies 'max_retries' without 'on_error'; 'max_retries' is only valid with 'on_error: retry'",
                ),
            ),
        );
    }
    Ok(r)
}

} // verus!
