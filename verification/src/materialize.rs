//! Serialising a resolved pipeline back to annotated YAML, one origin
//! comment per step.
use vstd::prelude::*;
use vstd::string::*;

use crate::config::domain::{
    ActionKind, ContextSource, ExitCodeMatch, HitlHeadlessBehavior, Pipeline, ResultAction,
    ResultBranch, ResultMatcher, Step, StepBody,
};
use crate::text::{
    decimal, lemma_occurs_in_extend, lemma_occurs_in_middle, occurs_in, push_char, push_decimal, push_signed_decimal,
    signed_decimal,
};

verus! {

// ── Specification ───────────────────────────────────────────────────────────

/// A character as written inside a YAML double-quoted scalar.
pub open spec fn escaped_char(c: char) -> Seq<char> {
    if c == '\\' {
        seq!['\\', '\\']
    } else if c == '"' {
        seq!['\\', '"']
    } else {
        seq![c]
    }
}

/// `s` with backslashes and double quotes escaped.
pub open spec fn yaml_escaped(s: Seq<char>) -> Seq<char>
    decreases s.len(),
{
    if s.len() == 0 {
        Seq::empty()
    } else {
        yaml_escaped(s.drop_last()) + escaped_char(s.last())
    }
}

/// `s` as a YAML double-quoted scalar.
pub open spec fn quoted(s: Seq<char>) -> Seq<char> {
    seq!['"'] + yaml_escaped(s) + seq!['"']
}

/// The comment naming where step number `n` came from.
pub open spec fn origin_line(n: nat, label: Seq<char>) -> Seq<char> {
    "  # origin: ["@ + decimal(n) + "] "@ + label + "\n"@
}

pub open spec fn id_line(id: Seq<char>) -> Seq<char> {
    "  - id: "@ + id + "\n"@
}

pub open spec fn system_prompt_lines(sp: Option<String>) -> Seq<char> {
    match sp {
        Some(s) => "    system_prompt: "@ + quoted(s@) + "\n"@,
        None => Seq::empty(),
    }
}

pub open spec fn resume_lines(resume: bool) -> Seq<char> {
    if resume {
        "    resume: true\n"@
    } else {
        Seq::empty()
    }
}

pub open spec fn prompt_lines(prompt: Option<String>) -> Seq<char> {
    match prompt {
        Some(p) => "    prompt: "@ + quoted(p@) + "\n"@,
        None => Seq::empty(),
    }
}

/// The keys that say what a step does. A loop is noted by a comment giving
/// the number of steps in its body.
pub open spec fn body_lines(body: StepBody) -> Seq<char> {
    match body {
        StepBody::Prompt(t) => "    prompt: "@ + quoted(t@) + "\n"@,
        StepBody::Skill { name } => "    skill: "@ + name@ + "\n"@,
        StepBody::SubPipeline { path, prompt } => "    pipeline: "@ + path@ + "\n"@ + prompt_lines(prompt),
        StepBody::NamedPipeline { name, prompt } => "    pipeline: "@ + name@ + "\n"@ + prompt_lines(prompt),
        StepBody::Action(ActionKind::PauseForHuman) => "    action: pause_for_human\n"@,
        StepBody::Action(ActionKind::ModifyOutput { headless_behavior, default_value }) =>
            "    action: modify_output\n"@ + match headless_behavior {
                HitlHeadlessBehavior::Skip => Seq::empty(),
                HitlHeadlessBehavior::Abort => "    on_headless: abort\n"@,
                HitlHeadlessBehavior::UseDefault => "    on_headless: use_default\n"@ + match default_value {
                    Some(dv) => "    default_value: "@ + quoted(dv@) + "\n"@,
                    None => Seq::empty(),
                },
            },
        StepBody::Action(ActionKind::Join { .. }) => "    action: join\n"@,
        StepBody::Action(ActionKind::ReloadSelf) => "    action: reload_self\n"@,
        StepBody::Context(ContextSource::Shell(cmd)) => "    context:\n      shell: "@ + quoted(cmd@) + "\n"@,
        StepBody::DoWhile { steps, .. } => "    # do_while: "@ + decimal(steps.len() as nat) + " nested step(s)\n"@,
        StepBody::ForEach { steps, .. } => "    # for_each: "@ + decimal(steps.len() as nat) + " nested step(s)\n"@,
    }
}

/// The matcher of an `on_result` branch, as a YAML key and value.
pub open spec fn matcher_text(m: ResultMatcher) -> Seq<char> {
    match m {
        ResultMatcher::Contains(t) => "contains: "@ + quoted(t@),
        ResultMatcher::ExitCode(ExitCodeMatch::Exact(n)) => "exit_code: "@ + signed_decimal(n as int),
        ResultMatcher::ExitCode(ExitCodeMatch::Any) => "exit_code: any"@,
        ResultMatcher::Field { name, .. } => "field: "@ + quoted(name@),
        ResultMatcher::Expression { source, .. } => "expression: "@ + quoted(source@),
        ResultMatcher::Always => "always: true"@,
    }
}

/// The action of an `on_result` branch that carries no prompt.
pub open spec fn action_text(a: ResultAction) -> Seq<char> {
    match a {
        ResultAction::Continue => "continue"@,
        ResultAction::Break => "break"@,
        ResultAction::AbortPipeline => "abort_pipeline"@,
        ResultAction::PauseForHuman => "pause_for_human"@,
        ResultAction::Pipeline { path, .. } => "pipeline: "@ + path@,
    }
}

pub open spec fn branch_lines(b: ResultBranch) -> Seq<char> {
    match b.action {
        ResultAction::Pipeline { path, prompt: Some(p) } =>
            "      - "@ + matcher_text(b.matcher) + "\n        action: "@ + "pipeline: "@ + path@
                + "\n        prompt: "@ + quoted(p@) + "\n"@,
        _ => "      - "@ + matcher_text(b.matcher) + "\n        action: "@ + action_text(b.action) + "\n"@,
    }
}

pub open spec fn branches_lines(bs: Seq<ResultBranch>) -> Seq<char>
    decreases bs.len(),
{
    if bs.len() == 0 {
        Seq::empty()
    } else {
        branches_lines(bs.drop_last()) + branch_lines(bs.last())
    }
}

pub open spec fn on_result_lines(on_result: Option<Vec<ResultBranch>>) -> Seq<char> {
    match on_result {
        Some(bs) => "    on_result:\n"@ + branches_lines(bs@),
        None => Seq::empty(),
    }
}

/// Step number `n` (counted from 1) of a pipeline read from `label`.
pub open spec fn step_lines(n: nat, label: Seq<char>, step: Step) -> Seq<char> {
    origin_line(n, label) + id_line(step.id.0@) + system_prompt_lines(step.system_prompt)
        + resume_lines(step.resume) + body_lines(step.body) + on_result_lines(step.on_result)
}

pub open spec fn steps_lines(steps: Seq<Step>, label: Seq<char>) -> Seq<char>
    decreases steps.len(),
{
    if steps.len() == 0 {
        Seq::empty()
    } else {
        steps_lines(steps.drop_last(), label) + step_lines(steps.len(), label, steps.last())
    }
}

/// Where the pipeline came from, as the origin comments name it.
pub open spec fn source_label(source: Option<String>) -> Seq<char> {
    match source {
        Some(s) => s@,
        None => "<passthrough>"@,
    }
}

/// The YAML text of a pipeline has one block per step, in step order, each
/// opened by the step's origin comment: the text of the first `k + 1` steps
/// is the text of the first `k`, then the origin line of step `k + 1` and the
/// rest of its block.
pub proof fn lemma_materialized_blocks_in_order(steps: Seq<Step>, label: Seq<char>, k: int)
    requires
        0 <= k < steps.len(),
    ensures
        steps_lines(steps.take(k + 1), label) == steps_lines(steps.take(k), label) + step_lines(
            (k + 1) as nat,
            label,
            steps[k],
        ),
        step_lines((k + 1) as nat, label, steps[k]).take(origin_line((k + 1) as nat, label).len() as int)
            == origin_line((k + 1) as nat, label),
{
    let t = steps.take(k + 1);
    assert(t.drop_last() =~= steps.take(k));
    assert(t.last() == steps[k]);
    let o = origin_line((k + 1) as nat, label);
    let rest = id_line(steps[k].id.0@) + system_prompt_lines(steps[k].system_prompt) + resume_lines(steps[k].resume)
        + body_lines(steps[k].body) + on_result_lines(steps[k].on_result);
    assert(step_lines((k + 1) as nat, label, steps[k]) =~= o + rest);
    assert((o + rest).take(o.len() as int) =~= o);
}

/// The text of the first `m` steps is a prefix of the text of all of them.
proof fn lemma_steps_lines_prefix(steps: Seq<Step>, label: Seq<char>, m: int)
    requires
        0 <= m <= steps.len(),
    ensures
        steps_lines(steps.take(m), label).len() <= steps_lines(steps, label).len(),
        steps_lines(steps, label).take(steps_lines(steps.take(m), label).len() as int) == steps_lines(steps.take(m), label),
    decreases steps.len() - m,
{
    if m == steps.len() {
        assert(steps.take(m) =~= steps);
        assert(steps_lines(steps, label).take(steps_lines(steps, label).len() as int) =~= steps_lines(steps, label));
    } else {
        lemma_steps_lines_prefix(steps, label, m + 1);
        lemma_materialized_blocks_in_order(steps, label, m);
        let a = steps_lines(steps.take(m), label);
        let b = steps_lines(steps.take(m + 1), label);
        let all = steps_lines(steps, label);
        assert(b.take(a.len() as int) =~= a);
        assert(all.take(a.len() as int) =~= b.take(a.len() as int));
    }
}

/// Each step of a materialized pipeline is opened by its origin comment,
/// `# origin: [n] <source>`, numbered from 1 in step order: the comment of
/// step `k + 1` stands right after the header and the blocks of the steps
/// before it.
pub proof fn lemma_origin_comment_per_step(pipeline: Pipeline, k: int)
    requires
        0 <= k < pipeline.steps@.len(),
    ensures
        ({
            let label = source_label(pipeline.source);
            let at: int = ("version: \"0.0.1\"\npipeline:\n"@.len() + steps_lines(pipeline.steps@.take(k), label).len()) as int;
            let o = origin_line((k + 1) as nat, label);
            materialized(pipeline).subrange(at, at + o.len()) == o
        }),
{
    let steps = pipeline.steps@;
    let label = source_label(pipeline.source);
    let h = "version: \"0.0.1\"\npipeline:\n"@;
    let a = steps_lines(steps.take(k), label);
    let b = steps_lines(steps.take(k + 1), label);
    let o = origin_line((k + 1) as nat, label);
    lemma_materialized_blocks_in_order(steps, label, k);
    lemma_steps_lines_prefix(steps, label, k + 1);
    let step = step_lines((k + 1) as nat, label, steps[k]);
    let all = steps_lines(steps, label);
    assert(b == a + step);
    assert(all.take(b.len() as int) == b);
    assert(step.take(o.len() as int) == o);
    assert(materialized(pipeline) == h + all);
    let at: int = (h.len() + a.len()) as int;
    let mp = materialized(pipeline);
    assert forall|i: int| 0 <= i < o.len() implies #[trigger] mp.subrange(at, at + o.len())[i] == o[i] by {
        assert(mp.subrange(at, at + o.len())[i] == mp[at + i]);
        assert(mp[at + i] == all[a.len() + i]);
        assert(all[a.len() + i] == b[a.len() + i]);
        assert(b[a.len() + i] == step[i]);
        assert(step[i] == step.take(o.len() as int)[i]);
    }
    assert(materialized(pipeline).subrange(at, at + o.len()) =~= o);
}

/// What the block of step `k + 1` holds, the pipeline's YAML text holds.
proof fn lemma_step_block_in_materialized(pipeline: Pipeline, k: int, p: Seq<char>)
    requires
        0 <= k < pipeline.steps@.len(),
        occurs_in(step_lines((k + 1) as nat, source_label(pipeline.source), pipeline.steps@[k]), p),
    ensures
        occurs_in(materialized(pipeline), p),
{
    let steps = pipeline.steps@;
    let label = source_label(pipeline.source);
    let a = steps_lines(steps.take(k), label);
    let b = steps_lines(steps.take(k + 1), label);
    let step = step_lines((k + 1) as nat, label, steps[k]);
    let all = steps_lines(steps, label);
    lemma_materialized_blocks_in_order(steps, label, k);
    lemma_steps_lines_prefix(steps, label, k + 1);
    lemma_occurs_in_extend(a, step, Seq::empty(), p);
    assert(a + step + Seq::empty() =~= b);
    let rest = all.skip(b.len() as int);
    assert(all =~= b + rest);
    lemma_occurs_in_extend(Seq::empty(), b, rest, p);
    assert(Seq::empty() + b + rest =~= all);
    let h = "version: \"0.0.1\"\npipeline:\n"@;
    lemma_occurs_in_extend(h, all, Seq::empty(), p);
    assert(h + all + Seq::empty() =~= materialized(pipeline));
}

/// Every step keeps its id, its `resume: true` and its prompt in the YAML
/// text: `  - id: <id>` opens its keys, and a prompt step's text is written,
/// quoted, under `prompt:`.
pub proof fn lemma_materialized_keeps_step_keys(pipeline: Pipeline, k: int)
    requires
        0 <= k < pipeline.steps@.len(),
    ensures
        occurs_in(materialized(pipeline), "  - id: "@ + pipeline.steps@[k].id.0@ + "\n"@),
        pipeline.steps@[k].resume ==> occurs_in(materialized(pipeline), "    resume: true\n"@),
        pipeline.steps@[k].body matches StepBody::Prompt(t) ==> occurs_in(
            materialized(pipeline),
            "    prompt: "@ + quoted(t@) + "\n"@,
        ),
{
    let steps = pipeline.steps@;
    let label = source_label(pipeline.source);
    let step = steps[k];
    let o = origin_line((k + 1) as nat, label);
    let idl = id_line(step.id.0@);
    let sp = system_prompt_lines(step.system_prompt);
    let rs = resume_lines(step.resume);
    let body = body_lines(step.body);
    let after = on_result_lines(step.on_result);
    assert(step_lines((k + 1) as nat, label, step) == o + idl + sp + rs + body + after);
    lemma_occurs_in_middle(o, idl, sp + rs + body + after);
    assert(o + idl + (sp + rs + body + after) =~= o + idl + sp + rs + body + after);
    lemma_step_block_in_materialized(pipeline, k, idl);
    if step.resume {
        lemma_occurs_in_middle(o + idl + sp, rs, body + after);
        assert(o + idl + sp + rs + (body + after) =~= o + idl + sp + rs + body + after);
        lemma_step_block_in_materialized(pipeline, k, rs);
    }
    if step.body is Prompt {
        lemma_occurs_in_middle(o + idl + sp + rs, body, after);
        lemma_step_block_in_materialized(pipeline, k, body);
    }
}

/// A `modify_output` step keeps its headless behaviour in the YAML text:
/// `abort` and `use_default` are written as `on_headless:` right after the
/// action line, and a `use_default` step's default value follows as
/// `default_value:`.
pub proof fn lemma_materialized_keeps_headless_behavior(pipeline: Pipeline, k: int)
    requires
        0 <= k < pipeline.steps@.len(),
    ensures
        pipeline.steps@[k].body matches StepBody::Action(
            ActionKind::ModifyOutput { headless_behavior: HitlHeadlessBehavior::Abort, .. },
        ) ==> occurs_in(materialized(pipeline), "    action: modify_output\n    on_headless: abort\n"@),
        pipeline.steps@[k].body matches StepBody::Action(
            ActionKind::ModifyOutput { headless_behavior: HitlHeadlessBehavior::UseDefault, .. },
        ) ==> occurs_in(materialized(pipeline), "    action: modify_output\n    on_headless: use_default\n"@),
        pipeline.steps@[k].body matches StepBody::Action(
            ActionKind::ModifyOutput { headless_behavior: HitlHeadlessBehavior::UseDefault, default_value: Some(dv) },
        ) ==> occurs_in(
            materialized(pipeline),
            "    action: modify_output\n    on_headless: use_default\n    default_value: "@ + quoted(dv@) + "\n"@,
        ),
{
    reveal_strlit("    action: modify_output\n");
    reveal_strlit("    on_headless: abort\n");
    reveal_strlit("    on_headless: use_default\n");
    reveal_strlit("    default_value: ");
    reveal_strlit("\n");
    reveal_strlit("    action: modify_output\n    on_headless: abort\n");
    reveal_strlit("    action: modify_output\n    on_headless: use_default\n");
    reveal_strlit("    action: modify_output\n    on_headless: use_default\n    default_value: ");
    let steps = pipeline.steps@;
    let label = source_label(pipeline.source);
    let step = steps[k];
    let before = origin_line((k + 1) as nat, label) + id_line(step.id.0@) + system_prompt_lines(step.system_prompt)
        + resume_lines(step.resume);
    let body = body_lines(step.body);
    let after = on_result_lines(step.on_result);
    assert(step_lines((k + 1) as nat, label, step) == before + body + after);
    match step.body {
        StepBody::Action(ActionKind::ModifyOutput { headless_behavior, default_value }) => {
            match headless_behavior {
                HitlHeadlessBehavior::Abort => {
                    let p = "    action: modify_output\n    on_headless: abort\n"@;
                    assert(body =~= p);
                    lemma_occurs_in_middle(before, body, after);
                    lemma_step_block_in_materialized(pipeline, k, p);
                },
                HitlHeadlessBehavior::UseDefault => {
                    let p = "    action: modify_output\n    on_headless: use_default\n"@;
                    let dl = match default_value {
                        Some(dv) => "    default_value: "@ + quoted(dv@) + "\n"@,
                        None => Seq::empty(),
                    };
                    assert(body =~= p + dl);
                    lemma_occurs_in_middle(before, p, dl + after);
                    assert(before + p + (dl + after) =~= before + body + after);
                    lemma_step_block_in_materialized(pipeline, k, p);
                    if default_value is Some {
                        let q = p + dl;
                        lemma_occurs_in_middle(before, q, after);
                        lemma_step_block_in_materialized(pipeline, k, q);
                        assert(q =~= "    action: modify_output\n    on_headless: use_default\n    default_value: "@
                            + quoted(default_value->0@) + "\n"@);
                    }
                },
                HitlHeadlessBehavior::Skip => {},
            }
        },
        _ => {},
    }
}

/// The YAML text of a pipeline.
pub open spec fn materialized(pipeline: Pipeline) -> Seq<char> {
    "version: \"0.0.1\"\npipeline:\n"@ + steps_lines(pipeline.steps@, source_label(pipeline.source))
}

// ── Implementation ──────────────────────────────────────────────────────────

/// Escape a string for use inside a YAML double-quoted scalar.
pub fn yaml_quote(s: &str) -> (r: String)
    ensures
        r@ == yaml_escaped(s@),
{
    let v = crate::text::to_chars(s);
    let mut out = String::new();
    let mut i: usize = 0;
    while i < v.len()
        invariant
            i <= v@.len(),
            v@ == s@,
            out@ == yaml_escaped(v@.take(i as int)),
        decreases v@.len() - i,
    {
        let c = v[i];
        if c == '\\' {
            push_char(&mut out, '\\');
            push_char(&mut out, '\\');
        } else if c == '"' {
            push_char(&mut out, '\\');
            push_char(&mut out, '"');
        } else {
            push_char(&mut out, c);
        }
        assert(v@.take(i + 1).drop_last() =~= v@.take(i as int));
        assert(out@ =~= yaml_escaped(v@.take(i + 1)));
        i += 1;
    }
    assert(v@.take(v@.len() as int) =~= v@);
    out
}

/// Append `s` as a YAML double-quoted scalar.
fn push_quoted(out: &mut String, s: &str)
    ensures
        final(out)@ == old(out)@ + quoted(s@),
{
    push_char(out, '"');
    let q = yaml_quote(s);
    out.append(q.as_str());
    push_char(out, '"');
    assert(final(out)@ =~= old(out)@ + quoted(s@));
}

fn push_prompt_lines(out: &mut String, prompt: &Option<String>)
    ensures
        final(out)@ == old(out)@ + prompt_lines(*prompt),
{
    match prompt {
        Some(p) => {
            out.append("    prompt: ");
            push_quoted(out, p.as_str());
            out.append("\n");
            assert(final(out)@ =~= old(out)@ + prompt_lines(*prompt));
        },
        None => {
            assert(final(out)@ =~= old(out)@ + prompt_lines(*prompt));
        },
    }
}

fn push_body_lines(out: &mut String, body: &StepBody)
    ensures
        final(out)@ == old(out)@ + body_lines(*body),
{
    match body {
        StepBody::Prompt(t) => {
            out.append("    prompt: ");
            push_quoted(out, t.as_str());
            out.append("\n");
        },
        StepBody::Skill { name } => {
            out.append("    skill: ");
            out.append(name.as_str());
            out.append("\n");
        },
        StepBody::SubPipeline { path, prompt } => {
            out.append("    pipeline: ");
            out.append(path.as_str());
            out.append("\n");
            push_prompt_lines(out, prompt);
        },
        StepBody::NamedPipeline { name, prompt } => {
            out.append("    pipeline: ");
            out.append(name.as_str());
            out.append("\n");
            push_prompt_lines(out, prompt);
        },
        StepBody::Action(ActionKind::PauseForHuman) => {
            out.append("    action: pause_for_human\n");
        },
        StepBody::Action(ActionKind::ModifyOutput { headless_behavior, default_value }) => {
            out.append("    action: modify_output\n");
            match headless_behavior {
                HitlHeadlessBehavior::Skip => {},
                HitlHeadlessBehavior::Abort => {
                    out.append("    on_headless: abort\n");
                },
                HitlHeadlessBehavior::UseDefault => {
                    out.append("    on_headless: use_default\n");
                    match default_value {
                        Some(dv) => {
                            out.append("    default_value: ");
                            push_quoted(out, dv.as_str());
                            out.append("\n");
                        },
                        None => {},
                    }
                },
            }
        },
        StepBody::Action(ActionKind::Join { .. }) => {
            out.append("    action: join\n");
        },
        StepBody::Action(ActionKind::ReloadSelf) => {
            out.append("    action: reload_self\n");
        },
        StepBody::Context(ContextSource::Shell(cmd)) => {
            out.append("    context:\n      shell: ");
            push_quoted(out, cmd.as_str());
            out.append("\n");
        },
        StepBody::DoWhile { steps, .. } => {
            out.append("    # do_while: ");
            push_decimal(out, steps.len() as u64);
            out.append(" nested step(s)\n");
        },
        StepBody::ForEach { steps, .. } => {
            out.append("    # for_each: ");
            push_decimal(out, steps.len() as u64);
            out.append(" nested step(s)\n");
        },
    }
    assert(final(out)@ =~= old(out)@ + body_lines(*body));
}

fn push_matcher_text(out: &mut String, m: &ResultMatcher)
    ensures
        final(out)@ == old(out)@ + matcher_text(*m),
{
    match m {
        ResultMatcher::Contains(t) => {
            out.append("contains: ");
            push_quoted(out, t.as_str());
        },
        ResultMatcher::ExitCode(ExitCodeMatch::Exact(n)) => {
            out.append("exit_code: ");
            push_signed_decimal(out, *n);
        },
        ResultMatcher::ExitCode(ExitCodeMatch::Any) => {
            out.append("exit_code: any");
        },
        ResultMatcher::Field { name, .. } => {
            out.append("field: ");
            push_quoted(out, name.as_str());
        },
        ResultMatcher::Expression { source, .. } => {
            out.append("expression: ");
            push_quoted(out, source.as_str());
        },
        ResultMatcher::Always => {
            out.append("always: true");
        },
    }
    assert(final(out)@ =~= old(out)@ + matcher_text(*m));
}

fn push_branch_lines(out: &mut String, b: &ResultBranch)
    ensures
        final(out)@ == old(out)@ + branch_lines(*b),
{
    out.append("      - ");
    push_matcher_text(out, &b.matcher);
    out.append("\n        action: ");
    match &b.action {
        ResultAction::Continue => {
            out.append("continue");
            out.append("\n");
        },
        ResultAction::Break => {
            out.append("break");
            out.append("\n");
        },
        ResultAction::AbortPipeline => {
            out.append("abort_pipeline");
            out.append("\n");
        },
        ResultAction::PauseForHuman => {
            out.append("pause_for_human");
            out.append("\n");
        },
        ResultAction::Pipeline { path, prompt } => {
            out.append("pipeline: ");
            out.append(path.as_str());
            match prompt {
                Some(p) => {
                    out.append("\n        prompt: ");
                    push_quoted(out, p.as_str());
                    out.append("\n");
                },
                None => {
                    out.append("\n");
                },
            }
        },
    }
    assert(final(out)@ =~= old(out)@ + branch_lines(*b));
}

fn push_on_result_lines(out: &mut String, on_result: &Option<Vec<ResultBranch>>)
    ensures
        final(out)@ == old(out)@ + on_result_lines(*on_result),
{
    match on_result {
        Some(bs) => {
            out.append("    on_result:\n");
            let ghost start = out@;
            let mut i: usize = 0;
            while i < bs.len()
                invariant
                    i <= bs@.len(),
                    out@ == start + branches_lines(bs@.take(i as int)),
                decreases bs@.len() - i,
            {
                push_branch_lines(out, &bs[i]);
                assert(bs@.take(i + 1).drop_last() =~= bs@.take(i as int));
                assert(out@ =~= start + branches_lines(bs@.take(i + 1)));
                i += 1;
            }
            assert(bs@.take(bs@.len() as int) =~= bs@);
            assert(final(out)@ =~= old(out)@ + on_result_lines(*on_result));
        },
        None => {
            assert(final(out)@ =~= old(out)@ + on_result_lines(*on_result));
        },
    }
}

#[verifier::rlimit(40)]
#[verifier::spinoff_prover]
fn push_step_lines(out: &mut String, n: u64, label: &str, step: &Step)
    ensures
        final(out)@ == old(out)@ + step_lines(n as nat, label@, *step),
{
    out.append("  # origin: [");
    push_decimal(out, n);
    out.append("] ");
    out.append(label);
    out.append("\n");
    out.append("  - id: ");
    out.append(step.id.as_str());
    out.append("\n");
    let ghost after_id = out@;
    match &step.system_prompt {
        Some(sp) => {
            out.append("    system_prompt: ");
            push_quoted(out, sp.as_str());
            out.append("\n");
        },
        None => {},
    }
    assert(out@ =~= after_id + system_prompt_lines(step.system_prompt));
    if step.resume {
        out.append("    resume: true\n");
    }
    let ghost after_resume = out@;
    push_body_lines(out, &step.body);
    push_on_result_lines(out, &step.on_result);
    assert(final(out)@ =~= old(out)@ + step_lines(n as nat, label@, *step));
}

/// Serialise a pipeline back to YAML, each step preceded by a comment giving
/// its position and the file it came from (`<passthrough>` when none). The
/// keys are those the loader reads, so the text loads again; loop bodies are
/// noted as comments.
pub fn materialize(pipeline: &Pipeline) -> (r: String)
    ensures
        r@ == materialized(*pipeline),
{
    let label = match &pipeline.source {
        Some(s) => s.clone(),
        None => String::from_str("<passthrough>"),
    };
    let mut out = String::from_str("version: \"0.0.1\"\npipeline:\n");
    let ghost header = out@;
    let mut i: usize = 0;
    while i < pipeline.steps.len()
        invariant
            i <= pipeline.steps@.len(),
            label@ == source_label(pipeline.source),
            out@ == header + steps_lines(pipeline.steps@.take(i as int), label@),
        decreases pipeline.steps@.len() - i,
    {
        push_step_lines(&mut out, (i + 1) as u64, label.as_str(), &pipeline.steps[i]);
        assert(pipeline.steps@.take(i + 1).drop_last() =~= pipeline.steps@.take(i as int));
        assert(out@ =~= header + steps_lines(pipeline.steps@.take(i + 1), label@));
        i += 1;
    }
    assert(pipeline.steps@.take(pipeline.steps@.len() as int) =~= pipeline.steps@);
    out
}

} // verus!
