//! Step bodies, step lists and `before:`/`then:` chains: the recursive part of
//! validation.
use vstd::prelude::*;
use crate::executor::schema::schema_compile_message;
use vstd::string::*;

use crate::config::condition::parse_condition_expression;
use crate::config::domain::{
    ActionKind, Condition, ContextSource, HitlHeadlessBehavior, Step, StepBody, StepId,
};
use crate::config::dto::{ChainStepDto, DoWhileDto, StepDto};
use crate::config::on_result::{decimal_string, parse_on_result};
use crate::config::validation::{
    append_valid, body_agrees, body_valid, chain_agrees, chain_entries_agree_from,
    chain_entries_valid_from, chain_entry_agrees, chain_entry_valid, chain_id, chain_valid,
    cfg_err, do_while_agrees, do_while_valid, ids_distinct, no_hooks, opt_tools,
    parse_append_system_prompt, parse_on_error, parse_step_condition, schema_below,
    schema_in_body, schema_in_chain, schema_in_chain_from, schema_in_entry, schema_in_step,
    schema_in_steps_from, step_agrees, step_fields_agree, step_msg, step_valid, steps_agree_from, steps_valid,
    steps_valid_from, primary_count, headless_of, tools_agree, on_result_agrees,
    condition_agrees, append_agrees, on_error_of, step_id_views,
};
use crate::error::{opt_view, AilError, ErrorKind};
use crate::text::{clone_opt, str_eq, to_chars, trim_bounds};

verus! {

// ── Lemmas: recursive list predicates as quantified statements ─────────────

proof fn lemma_steps_valid_from(s: Seq<StepDto>, i: int)
    requires
        0 <= i <= s.len(),
    ensures
        steps_valid_from(s, i) <==> forall|k: int| i <= k < s.len() ==> step_valid(#[trigger] s[k]),
    decreases s.len() - i,
{
    if i < s.len() {
        lemma_steps_valid_from(s, i + 1);
    }
}

pub proof fn lemma_steps_agree_from(s: Seq<StepDto>, r: Seq<Step>, i: int)
    requires
        0 <= i <= s.len(),
        s.len() == r.len(),
    ensures
        steps_agree_from(s, r, i) <==> forall|k: int| i <= k < s.len() ==> step_agrees(#[trigger] s[k], r[k]),
    decreases s.len() - i,
{
    if i < s.len() {
        lemma_steps_agree_from(s, r, i + 1);
    }
}

proof fn lemma_schema_in_steps_from(s: Seq<StepDto>, i: int, k: int)
    requires
        0 <= i <= k < s.len(),
        schema_in_step(s[k]),
    ensures
        schema_in_steps_from(s, i),
    decreases k - i,
{
    if i < k {
        lemma_schema_in_steps_from(s, i + 1, k);
    }
}

proof fn lemma_chain_valid_from(parent: Seq<char>, kind: Seq<char>, v: Seq<ChainStepDto>, i: int)
    requires
        0 <= i <= v.len(),
    ensures
        chain_entries_valid_from(parent, kind, v, i) <==> forall|k: int|
            i <= k < v.len() ==> chain_entry_valid(chain_id(parent, kind, k), #[trigger] v[k]),
    decreases v.len() - i,
{
    if i < v.len() {
        lemma_chain_valid_from(parent, kind, v, i + 1);
    }
}

proof fn lemma_chain_agree_from(parent: Seq<char>, kind: Seq<char>, v: Seq<ChainStepDto>, r: Seq<Step>, i: int)
    requires
        0 <= i <= v.len(),
        v.len() == r.len(),
    ensures
        chain_entries_agree_from(parent, kind, v, r, i) <==> forall|k: int|
            i <= k < v.len() ==> chain_entry_agrees(chain_id(parent, kind, k), #[trigger] v[k], r[k]),
    decreases v.len() - i,
{
    if i < v.len() {
        lemma_chain_agree_from(parent, kind, v, r, i + 1);
    }
}

proof fn lemma_schema_in_chain_from(v: Seq<ChainStepDto>, i: int, k: int)
    requires
        0 <= i <= k < v.len(),
        schema_in_entry(v[k]),
    ensures
        schema_in_chain_from(v, i),
    decreases k - i,
{
    if i < k {
        lemma_schema_in_chain_from(v, i + 1, k);
    }
}

// ── Step bodies ─────────────────────────────────────────────────────────────

/// Parse the body of a step, enforcing exactly one primary field. A
/// `do_while:` block is moved out of the step; nothing else changes.
pub fn parse_step_body(step_dto: &mut StepDto, id_str: &str) -> (r: Result<StepBody, AilError>)
    ensures
        *final(step_dto) == (StepDto { do_while: None, ..*old(step_dto) }),
        match r {
            Ok(b) => body_valid(*old(step_dto)) && body_agrees(*old(step_dto), b),
            Err(e) => e.kind() == ErrorKind::ConfigValidationFailed && (!body_valid(*old(step_dto))
                || schema_in_body(*old(step_dto))),
        },
        old(step_dto).for_each is Some ==> (r matches Err(e) && e.detail_view() == "Step '"@ + id_str@
            + "' uses 'for_each' which is reserved for a future version and not yet implemented"@),
        old(step_dto).for_each is None && old(step_dto).input_schema is Some ==> (r matches Err(e) && e.detail_view()
            == "Step '"@ + id_str@ + "' uses 'input_schema' which is reserved for a future version and not yet implemented"@),
        old(step_dto).for_each is None && old(step_dto).input_schema is None && primary_count(*old(step_dto)) != 1 ==> (
        r matches Err(e) && e.detail_view() == "Step '"@ + id_str@
            + "' must have exactly one primary field (prompt, skill, pipeline, action, context, or do_while); found "@
            + crate::text::decimal(primary_count(*old(step_dto)))),
        old(step_dto).for_each is None && old(step_dto).input_schema is None && primary_count(*old(step_dto)) == 1 && (
        old(step_dto).skill matches Some(n) && crate::text::trim(n@).len() == 0) ==> (r matches Err(e) && e.detail_view()
            == "Step '"@ + id_str@ + "' declares skill: but the skill name is empty"@),
        old(step_dto).for_each is None && old(step_dto).input_schema is None && primary_count(*old(step_dto)) == 1 && (
        old(step_dto).action matches Some(a) && a@ == "modify_output"@) && (old(step_dto).on_headless matches Some(h)
            && h@ == "use_default"@) && old(step_dto).default_value is None ==> (r matches Err(e) && e.detail_view()
            == "Step '"@ + id_str@ + "' uses on_headless: use_default but no default_value is provided"@),
        old(step_dto).for_each is None && old(step_dto).input_schema is None && primary_count(*old(step_dto)) == 1 && (
        old(step_dto).action matches Some(a) && a@ != "modify_output"@ && a@ != "pause_for_human"@) ==> (r matches Err(e)
            && e.detail_view() == "Step '"@ + id_str@ + "' specifies unknown action '"@ + old(step_dto).action->0@ + "'"@),
    decreases *old(step_dto), 0int,
{
    let ghost d0 = *step_dto;
    let dw = step_dto.do_while.take();
    assert(*step_dto == (StepDto { do_while: None, ..d0 }));
    if step_dto.for_each.is_some() {
        return Err(cfg_err(step_msg(id_str, "' uses 'for_each' which is reserved for a future version and not yet implemented")));
    }
    if step_dto.input_schema.is_some() {
        return Err(cfg_err(step_msg(id_str, "' uses 'input_schema' which is reserved for a future version and not yet implemented")));
    }
    let mut count: usize = 0;
    if step_dto.prompt.is_some() && step_dto.pipeline.is_none() {
        count += 1;
    }
    if step_dto.skill.is_some() {
        count += 1;
    }
    if step_dto.pipeline.is_some() {
        count += 1;
    }
    if step_dto.action.is_some() {
        count += 1;
    }
    if step_dto.context.is_some() {
        count += 1;
    }
    if dw.is_some() {
        count += 1;
    }
    assert(count == primary_count(d0));
    if count != 1 {
        let mut d = step_msg(
            id_str,
            "' must have exactly one primary field (prompt, skill, pipeline, action, context, or do_while); found ",
        );
        d.append(decimal_string(count).as_str());
        return Err(cfg_err(d));
    }
    if let Some(p) = &step_dto.pipeline {
        return Ok(StepBody::SubPipeline { path: p.clone(), prompt: clone_opt(&step_dto.prompt) });
    }
    if let Some(p) = &step_dto.prompt {
        return Ok(StepBody::Prompt(p.clone()));
    }
    if let Some(name) = &step_dto.skill {
        let cs = to_chars(name.as_str());
        let (lo, hi) = trim_bounds(&cs);
        if lo == hi {
            return Err(cfg_err(step_msg(id_str, "' declares skill: but the skill name is empty")));
        }
        return Ok(StepBody::Skill { name: name.clone() });
    }
    if let Some(action) = &step_dto.action {
        proof {
            reveal_strlit("modify_output");
            reveal_strlit("pause_for_human");
            reveal_strlit("use_default");
            reveal_strlit("skip");
            reveal_strlit("abort");
        }
        if str_eq(action.as_str(), "pause_for_human") {
            assert(action@.len() == 15 && "modify_output"@.len() == 13);
            return Ok(StepBody::Action(ActionKind::PauseForHuman));
        } else if str_eq(action.as_str(), "modify_output") {
            let headless_behavior = match &step_dto.on_headless {
                None => HitlHeadlessBehavior::Skip,
                Some(h) => {
                    if str_eq(h.as_str(), "skip") {
                        assert(h@.len() == 4 && "use_default"@.len() == 11);
                        HitlHeadlessBehavior::Skip
                    } else if str_eq(h.as_str(), "abort") {
                        assert(h@.len() == 5 && "use_default"@.len() == 11);
                        HitlHeadlessBehavior::Abort
                    } else if str_eq(h.as_str(), "use_default") {
                        if step_dto.default_value.is_none() {
                            return Err(cfg_err(step_msg(id_str, "' uses on_headless: use_default but no default_value is provided")));
                        }
                        HitlHeadlessBehavior::UseDefault
                    } else {
                        let mut d = step_msg(id_str, "' specifies unknown on_headless value '");
                        d.append(h.as_str());
                        d.append("'; supported values are 'skip', 'abort', 'use_default'");
                        return Err(cfg_err(d));
                    }
                },
            };
            return Ok(
                StepBody::Action(
                    ActionKind::ModifyOutput {
                        headless_behavior,
                        default_value: clone_opt(&step_dto.default_value),
                    },
                ),
            );
        } else {
            let mut d = step_msg(id_str, "' specifies unknown action '");
            d.append(action.as_str());
            d.append("'");
            return Err(cfg_err(d));
        }
    }
    if let Some(ctx) = &step_dto.context {
        return match &ctx.shell {
            Some(cmd) => Ok(StepBody::Context(ContextSource::Shell(cmd.clone()))),
            None => Err(cfg_err(step_msg(id_str, "' declares context: but no source (shell:, mcp:) is present"))),
        };
    }
    match dw {
        Some(block) => parse_do_while_body(block, id_str),
        None => {
            proof {
                assert(false);
            }
            Err(cfg_err(step_msg(id_str, "' has no primary field")))
        },
    }
}

/// Parse a `do_while:` block: all of `max_iterations` (at least 1),
/// `exit_when` (a condition expression) and a non-empty `steps` list.
pub fn parse_do_while_body(dw: DoWhileDto, id_str: &str) -> (r: Result<StepBody, AilError>)
    ensures
        match r {
            Ok(b) => do_while_valid(dw) && do_while_agrees(dw, b),
            Err(e) => e.kind() == ErrorKind::ConfigValidationFailed && (!do_while_valid(dw)
                || (dw.steps matches Some(v) && schema_in_steps_from(v@, 0))),
        },
    decreases dw, 0int,
{
    let ghost dw0 = dw;
    let DoWhileDto { max_iterations, exit_when, steps, pipeline: _ } = dw;
    let max_iterations = match max_iterations {
        Some(n) => n,
        None => {
            return Err(cfg_err(step_msg(id_str, "' declares do_while: but 'max_iterations' is missing; max_iterations is required to prevent unbounded loops")));
        },
    };
    if max_iterations < 1 {
        return Err(cfg_err(step_msg(id_str, "' specifies do_while.max_iterations: 0; max_iterations must be at least 1")));
    }
    let exit_raw = match &exit_when {
        Some(w) => w,
        None => {
            return Err(cfg_err(step_msg(id_str, "' declares do_while: but 'exit_when' is missing; exit_when is required")));
        },
    };
    let exit_when = match parse_condition_expression(exit_raw.as_str(), id_str) {
        Ok(Condition::Expression(expr)) => expr,
        Ok(_) => {
            return Err(cfg_err(step_msg(id_str, "' do_while.exit_when must be a condition expression (e.g. '{{ step.<id>.exit_code }} == 0'), not 'always' or 'never'")));
        },
        Err(e) => {
            return Err(e);
        },
    };
    let step_dtos = match steps {
        Some(v) => v,
        None => {
            return Err(cfg_err(step_msg(id_str, "' declares do_while: but 'steps' is missing; at least one inner step is required")));
        },
    };
    if step_dtos.len() == 0 {
        return Err(cfg_err(step_msg(id_str, "' declares do_while: with an empty 'steps' array; at least one inner step is required")));
    }
    let mut label = String::from_str("do_while step '");
    label.append(id_str);
    label.append("'");
    let inner = match validate_steps(step_dtos, label.as_str()) {
        Ok(v) => v,
        Err(e) => {
            return Err(e);
        },
    };
    Ok(StepBody::DoWhile { max_iterations, exit_when, steps: inner })
}

// ── Step lists ──────────────────────────────────────────────────────────────


/// The message for a hook operation `name` (`"disable: "`, ...) on `target`.
pub open spec fn hook_text(name: Seq<char>, target: Seq<char>) -> Seq<char> {
    "Step declares hook operation '"@ + name + target
        + "' but the pipeline has no FROM field — hook operations are only valid in pipelines that inherit from a base via FROM"@
}

/// The message for a step that still carries a hook operation: the first of
/// `disable`, `override`, `run_before`, `run_after` that it declares.
pub open spec fn hook_message_of(d: StepDto) -> Seq<char> {
    if d.disable is Some {
        hook_text("disable: "@, d.disable->0@)
    } else if d.override_step is Some {
        hook_text("override: "@, d.override_step->0@)
    } else if d.run_before is Some {
        hook_text("run_before: "@, d.run_before->0@)
    } else if d.run_after is Some {
        hook_text("run_after: "@, d.run_after->0@)
    } else {
        "Step declares a hook operation but the pipeline has no FROM field"@
    }
}

/// The message for a step that still carries a hook operation.
fn hook_message(d: &StepDto) -> (s: String)
    ensures
        s@ == hook_message_of(*d),
{
    let (name, target) = if let Some(t) = &d.disable {
        ("disable: ", t)
    } else if let Some(t) = &d.override_step {
        ("override: ", t)
    } else if let Some(t) = &d.run_before {
        ("run_before: ", t)
    } else if let Some(t) = &d.run_after {
        ("run_after: ", t)
    } else {
        return String::from_str("Step declares a hook operation but the pipeline has no FROM field");
    };
    let mut s = String::from_str("Step declares hook operation '");
    s.append(name);
    s.append(target.as_str());
    s.append("' but the pipeline has no FROM field — hook operations are only valid in pipelines that inherit from a base via FROM");
    s
}

/// Step `k` is the first problem of `s` and repeats an earlier id: the
/// steps before it are valid (and declare no output schema), their ids are
/// distinct, and step `k` has no hook field and an id some earlier step has.
pub open spec fn repeats_id_first(s: Seq<StepDto>, k: int) -> bool {
    &&& 0 <= k < s.len()
    &&& forall|j: int| 0 <= j < k ==> step_valid(#[trigger] s[j]) && !schema_in_step(s[j])
    &&& forall|a: int, b: int| 0 <= a < b < k ==> #[trigger] s[a].id->0@ != #[trigger] s[b].id->0@
    &&& no_hooks(s[k])
    &&& s[k].id is Some
    &&& exists|j: int| 0 <= j < k && #[trigger] s[j].id->0@ == s[k].id->0@
}

/// Validate a list of step DTOs into domain steps. `context_label` names
/// where the steps come from in error messages ("pipeline", "named pipeline
/// 'x'", ...). Fails on the first invalid step, on a step without id, and on
/// an id seen before.
pub fn validate_steps(step_dtos: Vec<StepDto>, context_label: &str) -> (r: Result<Vec<Step>, AilError>)
    ensures
        match r {
            Ok(v) => steps_valid(step_dtos@) && steps_agree_from(step_dtos@, v@, 0),
            Err(e) => e.kind() == ErrorKind::ConfigValidationFailed && (!steps_valid(step_dtos@)
                || schema_in_steps_from(step_dtos@, 0)),
        },
        step_dtos@.len() > 0 && step_dtos@[0].run_before is None && step_dtos@[0].run_after is None
            && step_dtos@[0].override_step is None && step_dtos@[0].disable is None && step_dtos@[0].id is None ==> (
        r matches Err(e) && e.detail_view() == "Every step in "@ + context_label@ + " must declare an 'id' field"@),
        forall|k: int| #[trigger] repeats_id_first(step_dtos@, k) ==> (r matches Err(e) && e.detail_view() == "Step id '"@
            + step_dtos@[k].id->0@ + "' appears more than once in "@ + context_label@),
    decreases step_dtos@, 0int,
{
    let ghost s = step_dtos@;
    let n = step_dtos.len();
    assert(s.len() == n);
    let mut seen: Vec<String> = Vec::new();
    let mut out: Vec<Step> = Vec::new();
    let mut i: usize = 0;
    for d in it: step_dtos
        invariant
            it.seq() == s,
            s == step_dtos@,
            s.len() <= usize::MAX,
            i == it.index(),
            i <= s.len(),
            out.len() == i,
            seen.len() == i,
            forall|k: int| 0 <= k < i ==> step_valid(#[trigger] s[k]),
            forall|k: int| 0 <= k < i ==> step_agrees(#[trigger] s[k], out@[k]),
            forall|k: int| 0 <= k < i ==> s[k].id is Some && (#[trigger] seen@[k])@ == s[k].id->0@,
            forall|k1: int, k2: int|
                0 <= k1 < k2 < i ==> #[trigger] s[k1].id->0@ != #[trigger] s[k2].id->0@,
            i > 0 ==> s[0].id is Some,
    {
        assert(d == s[i as int]);
        proof {
            lemma_steps_valid_from(s, 0);
        }
        if d.run_before.is_some() || d.run_after.is_some() || d.override_step.is_some()
            || d.disable.is_some() {
            assert(!step_valid(s[i as int]));
            return Err(cfg_err(hook_message(&d)));
        }
        let id = match &d.id {
            Some(x) => x.clone(),
            None => {
                assert(!step_valid(s[i as int]));
                let mut m = String::from_str("Every step in ");
                m.append(context_label);
                m.append(" must declare an 'id' field");
                return Err(cfg_err(m));
            },
        };
        let mut j: usize = 0;
        while j < seen.len()
            invariant
                j <= seen.len(),
                seen.len() == i,
                i < s.len(),
                id@ == s[i as int].id->0@,
                s[i as int].id is Some,
                s == step_dtos@,
                forall|k: int| 0 <= k < i ==> s[k].id is Some && (#[trigger] seen@[k])@ == s[k].id->0@,
                forall|k: int| 0 <= k < j ==> (#[trigger] seen@[k])@ != id@,
                i > 0 ==> s[0].id is Some,
                forall|k1: int, k2: int| 0 <= k1 < k2 < i ==> #[trigger] s[k1].id->0@ != #[trigger] s[k2].id->0@,
            decreases seen.len() - j,
        {
            if str_eq(seen[j].as_str(), id.as_str()) {
                assert(s[j as int].id->0@ == s[i as int].id->0@);
                assert(!ids_distinct(s));
                assert forall|k: int| #[trigger] repeats_id_first(s, k) implies k == i by {
                    if k > i {
                        assert(s[j as int].id->0@ == s[i as int].id->0@);
                        assert(j < i);
                    }
                    if k < i {
                        let q = choose|q: int| 0 <= q < k && #[trigger] s[q].id->0@ == s[k].id->0@;
                        assert(s[q].id->0@ == s[k].id->0@);
                    }
                }
                let mut m = String::from_str("Step id '");
                m.append(id.as_str());
                m.append("' appears more than once in ");
                m.append(context_label);
                return Err(cfg_err(m));
            }
            j += 1;
        }
        assert forall|k: int| 0 <= k < i implies s[k].id->0@ != s[i as int].id->0@ by {
            assert(seen@[k]@ != id@);
        }
        seen.push(id.clone());
        let st = match validate_step_rest(d, id) {
            Ok(st) => st,
            Err(e) => {
                proof {
                    if schema_in_step(s[i as int]) {
                        lemma_schema_in_steps_from(s, 0, i as int);
                    }
                }
                return Err(e);
            },
        };
        out.push(st);
        i += 1;
    }
    proof {
        lemma_steps_valid_from(s, 0);
        lemma_steps_agree_from(s, out@, 0);
    }
    Ok(out)
}

/// Validate one step whose id has been checked; `id` is its id.
fn validate_step_rest(d: StepDto, id: String) -> (r: Result<Step, AilError>)
    requires
        d.id matches Some(x) && x@ == id@,
        no_hooks(d),
    ensures
        match r {
            Ok(st) => step_valid(d) && step_agrees(d, st),
            Err(e) => e.kind() == ErrorKind::ConfigValidationFailed && (!step_valid(d)
                || schema_in_step(d)),
        },
    decreases d, 1int,
{
    let ghost d0 = d;
    let mut d = d;
    let body = match parse_step_body(&mut d, id.as_str()) {
        Ok(b) => b,
        Err(e) => {
            return Err(e);
        },
    };
    let StepDto {
        message,
        tools,
        on_result,
        model,
        runner,
        condition,
        append_system_prompt,
        system_prompt,
        resume,
        on_error,
        max_retries,
        before,
        then_steps,
        async_step,
        depends_on,
        output_schema,
        ..
    } = d;
    let on_result = match on_result {
        None => None,
        Some(o) => match parse_on_result(id.as_str(), o, None) {
            Ok(v) => Some(v),
            Err(e) => {
                return Err(e);
            },
        },
    };
    let condition = match parse_step_condition(id.as_str(), &condition) {
        Ok(c) => c,
        Err(e) => {
            return Err(e);
        },
    };
    let append_system_prompt = match append_system_prompt {
        None => None,
        Some(v) => match parse_append_system_prompt(id.as_str(), v) {
            Ok(w) => Some(w),
            Err(e) => {
                return Err(e);
            },
        },
    };
    let on_error = match parse_on_error(id.as_str(), &on_error, max_retries) {
        Ok(o) => o,
        Err(e) => {
            return Err(e);
        },
    };
    let before = match parse_chain_steps(before, id.as_str(), "before") {
        Ok(v) => v,
        Err(e) => {
            return Err(e);
        },
    };
    let then_steps = match parse_chain_steps(then_steps, id.as_str(), "then") {
        Ok(v) => v,
        Err(e) => {
            return Err(e);
        },
    };
    if let Some(schema) = &output_schema {
        if let Some(msg) = schema_compile_message(schema.as_str()) {
            let mut m = step_msg(id.as_str(), "' declares output_schema but it is not a valid JSON Schema: ");
            m.append(msg.as_str());
            return Err(cfg_err(m));
        }
    }
    let mut deps: Vec<StepId> = Vec::new();
    if let Some(v) = depends_on {
        let ghost dv = v@;
        for x in it: v
            invariant
                it.seq() == dv,
                deps.len() == it.index(),
                forall|k: int| 0 <= k < deps.len() ==> (#[trigger] deps@[k]).0@ == dv[k]@,
        {
            deps.push(StepId(x));
        }
    }
    let resume = match resume {
        Some(b) => b,
        None => false,
    };
    let async_step = match async_step {
        Some(b) => b,
        None => false,
    };
    let st = Step {
        id: StepId(id),
        body,
        message,
        tools: opt_tools(tools),
        on_result,
        model,
        runner,
        condition,
        append_system_prompt,
        system_prompt,
        resume,
        async_step,
        depends_on: deps,
        on_error,
        before,
        then_steps,
        output_schema,
        input_schema: None,
    };
    assert(body_agrees(d0, st.body));
    assert(st.id.0@ == d0.id->0@);
    assert(opt_view(st.message) == opt_view(d0.message));
    assert(tools_agree(d0.tools, st.tools));
    assert(on_result_agrees(d0.id->0@, d0.on_result, st.on_result));
    assert(condition_agrees(d0.condition, st.condition));
    assert(append_agrees(d0.append_system_prompt, st.append_system_prompt));
    assert(st.resume == (d0.resume == Some(true)));
    assert(st.async_step == (d0.async_step == Some(true)));
    assert(Some(st.on_error) == on_error_of(d0));
    assert(chain_agrees(d0.id->0@, "before"@, d0.before, st.before@));
    assert(chain_agrees(d0.id->0@, "then"@, d0.then_steps, st.then_steps@));
    assert(st.output_schema == d0.output_schema);
    assert(step_id_views(st.depends_on@) == match d0.depends_on {
        Some(v) => v@.map_values(|x: String| x@),
        None => Seq::<Seq<char>>::empty(),
    });
    assert(step_fields_agree(d0, st));
    assert(step_valid(d0));
    Ok(st)
}

// ── Chains ──────────────────────────────────────────────────────────────────

/// Parse a `before:` or `then:` chain of `parent_id` (`chain_kind` is
/// "before" or "then") into steps.
pub fn parse_chain_steps(entries: Option<Vec<ChainStepDto>>, parent_id: &str, chain_kind: &str) -> (r: Result<Vec<Step>, AilError>)
    ensures
        match r {
            Ok(v) => chain_valid(parent_id@, chain_kind@, entries) && chain_agrees(
                parent_id@,
                chain_kind@,
                entries,
                v@,
            ),
            Err(e) => e.kind() == ErrorKind::ConfigValidationFailed && (!chain_valid(
                parent_id@,
                chain_kind@,
                entries,
            ) || schema_in_chain(entries)),
        },
    decreases entries, 0int,
{
    let ghost o = entries;
    match entries {
        None => Ok(Vec::new()),
        Some(v) => {
            let ghost es = v@;
            let nv = v.len();
            assert(es.len() == nv);
            let mut out: Vec<Step> = Vec::new();
            let mut i: usize = 0;
            for e in it: v
                invariant
                    it.seq() == es,
                    es.len() <= usize::MAX,
                    o == Some(v),
                    o == entries,
                    es == v@,
                    i == it.index(),
                    i <= es.len(),
                    out.len() == i,
                    forall|k: int|
                        0 <= k < i ==> chain_entry_valid(
                            chain_id(parent_id@, chain_kind@, k),
                            #[trigger] es[k],
                        ),
                    forall|k: int|
                        0 <= k < i ==> chain_entry_agrees(
                            chain_id(parent_id@, chain_kind@, k),
                            #[trigger] es[k],
                            out@[k],
                        ),
            {
                assert(e == es[i as int]);
                proof {
                    lemma_chain_valid_from(parent_id@, chain_kind@, es, 0);
                    assert(decreases_to!(o => o->0));
                    assert(decreases_to!(o->0 => o->0@));
                    assert(decreases_to!(o->0@ => o->0@[i as int]));
                }
                let st = match parse_chain_step(e, parent_id, chain_kind, i) {
                    Ok(st) => st,
                    Err(err) => {
                        proof {
                            if schema_in_entry(es[i as int]) {
                                lemma_schema_in_chain_from(es, 0, i as int);
                            }
                        }
                        return Err(err);
                    },
                };
                out.push(st);
                i += 1;
            }
            proof {
                lemma_chain_valid_from(parent_id@, chain_kind@, es, 0);
                lemma_chain_agree_from(parent_id@, chain_kind@, es, out@, 0);
            }
            Ok(out)
        },
    }
}

/// Parse entry `index` of a chain of `parent_id`. Its id is
/// `<parent>::<kind>::<index>`; a bare string is a prompt step.
pub fn parse_chain_step(entry: ChainStepDto, parent_id: &str, chain_kind: &str, index: usize) -> (r: Result<Step, AilError>)
    ensures
        match r {
            Ok(st) => chain_entry_valid(chain_id(parent_id@, chain_kind@, index as int), entry)
                && chain_entry_agrees(chain_id(parent_id@, chain_kind@, index as int), entry, st),
            Err(e) => e.kind() == ErrorKind::ConfigValidationFailed && (!chain_entry_valid(
                chain_id(parent_id@, chain_kind@, index as int),
                entry,
            ) || schema_in_entry(entry)),
        },
    decreases entry, 0int,
{
    let ghost e0 = entry;
    let mut auto_id = String::from_str(parent_id);
    auto_id.append("::");
    auto_id.append(chain_kind);
    auto_id.append("::");
    auto_id.append(decimal_string(index).as_str());
    assert(auto_id@ == chain_id(parent_id@, chain_kind@, index as int));
    match entry {
        ChainStepDto::Short(s) => Ok(
            Step {
                id: StepId(auto_id),
                body: StepBody::Prompt(s),
                message: None,
                tools: None,
                on_result: None,
                model: None,
                runner: None,
                condition: None,
                append_system_prompt: None,
                system_prompt: None,
                resume: false,
                async_step: false,
                depends_on: Vec::new(),
                on_error: None,
                before: Vec::new(),
                then_steps: Vec::new(),
                output_schema: None,
                input_schema: None,
            },
        ),
        ChainStepDto::Full(b) => {
            let mut d: StepDto = *b;
            let body = match parse_step_body(&mut d, auto_id.as_str()) {
                Ok(x) => x,
                Err(e) => {
                    return Err(e);
                },
            };
            let StepDto {
                message,
                tools,
                on_result,
                model,
                runner,
                append_system_prompt,
                system_prompt,
                resume,
                before,
                then_steps,
                output_schema,
                ..
            } = d;
            let on_result = match on_result {
                None => None,
                Some(o) => match parse_on_result(auto_id.as_str(), o, None) {
                    Ok(v) => Some(v),
                    Err(e) => {
                        return Err(e);
                    },
                },
            };
            let append_system_prompt = match append_system_prompt {
                None => None,
                Some(v) => match parse_append_system_prompt(auto_id.as_str(), v) {
                    Ok(w) => Some(w),
                    Err(e) => {
                        return Err(e);
                    },
                },
            };
            let before = match parse_chain_steps(before, auto_id.as_str(), "before") {
                Ok(v) => v,
                Err(e) => {
                    return Err(e);
                },
            };
            let then_steps = match parse_chain_steps(then_steps, auto_id.as_str(), "then") {
                Ok(v) => v,
                Err(e) => {
                    return Err(e);
                },
            };
            let resume = match resume {
                Some(x) => x,
                None => false,
            };
            Ok(
                Step {
                    id: StepId(auto_id),
                    body,
                    message,
                    tools: opt_tools(tools),
                    on_result,
                    model,
                    runner,
                    condition: None,
                    append_system_prompt,
                    system_prompt,
                    resume,
                    async_step: false,
                    depends_on: Vec::new(),
                    on_error: None,
                    before,
                    then_steps,
                    output_schema,
                    input_schema: None,
                },
            )
        },
    }
}

} // verus!
