//! `on_result` parsing: result matchers and actions, from file shapes to the
//! domain model.
use vstd::prelude::*;
use vstd::string::*;

use crate::config::condition::{condition_parse, parse_condition_expression, ConditionParse};
use crate::config::domain::{ExitCodeMatch, ResultAction, ResultBranch, ResultMatcher};
use crate::config::dto::{ExitCodeDto, FieldEqualsActionDto, FieldEqualsDto, OnResultBranchDto, OnResultDto};
use crate::error::{opt_view, AilError, ErrorKind};
use crate::executor::schema::{json_array_elements, json_member, json_text, parse_json_document};
use crate::text::{push_decimal, starts_with, starts_with_exec, str_eq, string_of, to_chars, trim, trim_bounds};

verus! {

// ── Views ────────────────────────────────────────────────────────────────────

/// A result action as plain values.
pub enum ActionView {
    Continue,
    Break,
    AbortPipeline,
    PauseForHuman,
    Pipeline { path: Seq<char>, prompt: Option<Seq<char>> },
}

impl ResultAction {
    /// The action as plain values.
    pub open spec fn view_value(self) -> ActionView {
        match self {
            ResultAction::Continue => ActionView::Continue,
            ResultAction::Break => ActionView::Break,
            ResultAction::AbortPipeline => ActionView::AbortPipeline,
            ResultAction::PauseForHuman => ActionView::PauseForHuman,
            ResultAction::Pipeline { path, prompt } => ActionView::Pipeline {
                path: path@,
                prompt: opt_view(prompt),
            },
        }
    }
}

/// The path of a `pipeline:` action: the text after the prefix, trimmed.
pub open spec fn pipeline_path(a: Seq<char>) -> Seq<char> {
    trim(a.subrange(9, a.len() as int))
}

/// What an action string parses to, if it is valid.
pub open spec fn action_of(a: Seq<char>, prompt: Option<Seq<char>>) -> Option<ActionView> {
    if starts_with(a, "pipeline:"@) {
        if pipeline_path(a).len() == 0 {
            None
        } else {
            Some(ActionView::Pipeline { path: pipeline_path(a), prompt })
        }
    } else if a == "continue"@ {
        Some(ActionView::Continue)
    } else if a == "break"@ {
        Some(ActionView::Break)
    } else if a == "abort_pipeline"@ {
        Some(ActionView::AbortPipeline)
    } else if a == "pause_for_human"@ {
        Some(ActionView::PauseForHuman)
    } else {
        None
    }
}

/// The number of matchers a branch declares.
pub open spec fn matcher_count(b: OnResultBranchDto) -> nat {
    (if b.contains is Some { 1nat } else { 0nat }) + (if b.exit_code is Some { 1nat } else { 0nat })
        + (if b.matches is Some { 1nat } else { 0nat }) + (if b.expression is Some { 1nat } else { 0nat })
        + (if b.always is Some { 1nat } else { 0nat })
}

/// The expression a `matches:` shorthand stands for.
pub open spec fn matches_source(step_id: Seq<char>, literal: Seq<char>) -> Seq<char> {
    "{{ step."@ + step_id + ".response }} matches "@ + literal
}

/// A branch is valid: exactly one matcher, a valid action, and a valid matcher.
pub open spec fn branch_valid(step_id: Seq<char>, b: OnResultBranchDto) -> bool {
    &&& matcher_count(b) == 1
    &&& b.action matches Some(a) && action_of(a@, opt_view(b.prompt)) is Some
    &&& (b.exit_code matches Some(ExitCodeDto::Keyword(k)) ==> k@ == "any"@)
    &&& (b.matches matches Some(m) ==> condition_parse(matches_source(step_id, m@)) is Parsed)
    &&& (b.expression matches Some(x) ==> condition_parse(x@) is Parsed)
}

/// All branches from index `i` on are valid.
pub open spec fn branches_valid_from(step_id: Seq<char>, bs: Seq<OnResultBranchDto>, i: int) -> bool
    decreases bs.len() - i,
{
    if i < 0 || i >= bs.len() {
        true
    } else {
        branch_valid(step_id, bs[i]) && branches_valid_from(step_id, bs, i + 1)
    }
}

/// The matcher a valid branch yields, by kind.
pub open spec fn matcher_agrees(b: OnResultBranchDto, step_id: Seq<char>, m: ResultMatcher) -> bool {
    if b.contains is Some {
        m matches ResultMatcher::Contains(t) && t@ == b.contains->0@
    } else if b.exit_code is Some {
        match b.exit_code->0 {
            ExitCodeDto::Integer(n) => m == ResultMatcher::ExitCode(ExitCodeMatch::Exact(n)),
            ExitCodeDto::Keyword(_) => m == ResultMatcher::ExitCode(ExitCodeMatch::Any),
        }
    } else if b.matches is Some {
        m matches ResultMatcher::Expression { source, .. } && source@ == matches_source(
            step_id,
            b.matches->0@,
        )
    } else if b.expression is Some {
        m matches ResultMatcher::Expression { source, .. } && source@ == b.expression->0@
    } else {
        m matches ResultMatcher::Always
    }
}

/// The parsed branch corresponds to the file branch.
pub open spec fn branch_agrees(b: OnResultBranchDto, step_id: Seq<char>, r: ResultBranch) -> bool {
    &&& matcher_agrees(b, step_id, r.matcher)
    &&& Some(r.action.view_value()) == action_of(b.action->0@, opt_view(b.prompt))
}

// ── Actions ──────────────────────────────────────────────────────────────────

/// The message prefix "Step '<id>' on_result branch <label>".
fn branch_prefix(step_id: &str, label: &str) -> (s: String)
    ensures
        s@ == "Step '"@ + step_id@ + "' on_result branch "@ + label@,
{
    let mut s = String::from_str("Step '");
    s.append(step_id);
    s.append("' on_result branch ");
    s.append(label);
    s
}

/// The decimal text of `n`.
pub fn decimal_string(n: usize) -> (s: String)
    ensures
        s@ == crate::text::decimal(n as nat),
{
    let mut s = String::new();
    push_decimal(&mut s, n as u64);
    assert(s@ =~= crate::text::decimal(n as nat));
    s
}

/// Parse an action string into a `ResultAction`.
pub fn parse_action_string(action_str: &str, prompt: Option<String>, step_id: &str, branch_label: &str) -> (r: Result<ResultAction, AilError>)
    ensures
        match r {
            Ok(a) => action_of(action_str@, opt_view(prompt)) == Some(a.view_value()),
            Err(e) => action_of(action_str@, opt_view(prompt)) is None && e.kind()
                == ErrorKind::ConfigValidationFailed && e.context_value() is None,
        },
{
    let a = to_chars(action_str);
    let prefix = to_chars("pipeline:");
    proof {
        reveal_strlit("pipeline:");
    }
    if starts_with_exec(&a, &prefix) {
        let rest = crate::text::sub_chars(&a, 9, a.len());
        let (lo, hi) = trim_bounds(&rest);
        if lo == hi {
            let mut d = branch_prefix(step_id, branch_label);
            d.append(" action 'pipeline:' requires a path");
            return Err(AilError::ConfigValidationFailed { detail: d, context: None });
        }
        return Ok(ResultAction::Pipeline { path: string_of(&rest, lo, hi), prompt });
    }
    if crate::text::str_eq(action_str, "continue") {
        Ok(ResultAction::Continue)
    } else if crate::text::str_eq(action_str, "break") {
        Ok(ResultAction::Break)
    } else if crate::text::str_eq(action_str, "abort_pipeline") {
        Ok(ResultAction::AbortPipeline)
    } else if crate::text::str_eq(action_str, "pause_for_human") {
        Ok(ResultAction::PauseForHuman)
    } else {
        let mut d = branch_prefix(step_id, branch_label);
        d.append(" specifies unknown action '");
        d.append(action_str);
        d.append("'");
        Err(AilError::ConfigValidationFailed { detail: d, context: None })
    }
}

/// Parse an action from a `FieldEqualsActionDto`.
pub fn parse_field_equals_action(action_dto: &FieldEqualsActionDto, step_id: &str, branch_label: &str) -> (r: Result<ResultAction, AilError>)
    ensures
        match r {
            Ok(a) => action_of(action_dto.action@, opt_view(action_dto.prompt)) == Some(a.view_value()),
            Err(e) => action_of(action_dto.action@, opt_view(action_dto.prompt)) is None && e.kind()
                == ErrorKind::ConfigValidationFailed,
        },
{
    let prompt = match &action_dto.prompt {
        Some(p) => Some(p.clone()),
        None => None,
    };
    parse_action_string(action_dto.action.as_str(), prompt, step_id, branch_label)
}

// ── Branches ─────────────────────────────────────────────────────────────────

fn count_matchers(b: &OnResultBranchDto) -> (n: usize)
    ensures
        n == matcher_count(*b),
{
    let mut n: usize = 0;
    if b.contains.is_some() {
        n += 1;
    }
    if b.exit_code.is_some() {
        n += 1;
    }
    if b.matches.is_some() {
        n += 1;
    }
    if b.expression.is_some() {
        n += 1;
    }
    if b.always.is_some() {
        n += 1;
    }
    n
}

/// Parse one multi-branch entry.
fn parse_branch(step_id: &str, i: usize, branch: OnResultBranchDto) -> (r: Result<ResultBranch, AilError>)
    ensures
        match r {
            Ok(rb) => branch_valid(step_id@, branch) && branch_agrees(branch, step_id@, rb),
            Err(e) => !branch_valid(step_id@, branch) && e.kind() == ErrorKind::ConfigValidationFailed,
        },
{
    let label = decimal_string(i);
    let count = count_matchers(&branch);
    if count != 1 {
        let mut d = branch_prefix(step_id, label.as_str());
        d.append(" must have exactly one matcher (contains, exit_code, matches, expression, always); found ");
        d.append(decimal_string(count).as_str());
        return Err(AilError::ConfigValidationFailed { detail: d, context: None });
    }
    let OnResultBranchDto { contains, exit_code, matches, expression, always, action, prompt } = branch;
    let action_str = match action {
        Some(a) => a,
        None => {
            let mut d = branch_prefix(step_id, label.as_str());
            d.append(" must declare an 'action'");
            return Err(AilError::ConfigValidationFailed { detail: d, context: None });
        },
    };
    let action = parse_action_string(action_str.as_str(), prompt, step_id, label.as_str())?;
    let matcher = if let Some(text) = contains {
        ResultMatcher::Contains(text)
    } else if let Some(exit_code_dto) = exit_code {
        match exit_code_dto {
            ExitCodeDto::Integer(n) => ResultMatcher::ExitCode(ExitCodeMatch::Exact(n)),
            ExitCodeDto::Keyword(k) => {
                if crate::text::str_eq(k.as_str(), "any") {
                    ResultMatcher::ExitCode(ExitCodeMatch::Any)
                } else {
                    let mut d = branch_prefix(step_id, label.as_str());
                    d.append(" exit_code must be an integer or 'any', got '");
                    d.append(k.as_str());
                    d.append("'");
                    return Err(AilError::ConfigValidationFailed { detail: d, context: None });
                }
            },
        }
    } else if let Some(regex_literal) = matches {
        let mut source = String::from_str("{{ step.");
        source.append(step_id);
        source.append(".response }} matches ");
        source.append(regex_literal.as_str());
        match parse_condition_expression(source.as_str(), step_id) {
            Ok(condition) => ResultMatcher::Expression { source, condition },
            Err(e) => {
                let mut d = branch_prefix(step_id, label.as_str());
                d.append(" matches: ");
                d.append(e.detail());
                return Err(AilError::ConfigValidationFailed { detail: d, context: None });
            },
        }
    } else if let Some(expr_str) = expression {
        match parse_condition_expression(expr_str.as_str(), step_id) {
            Ok(condition) => ResultMatcher::Expression { source: expr_str, condition },
            Err(e) => {
                let mut d = branch_prefix(step_id, label.as_str());
                d.append(" expression: ");
                d.append(e.detail());
                return Err(AilError::ConfigValidationFailed { detail: d, context: None });
            },
        }
    } else {
        ResultMatcher::Always
    };
    Ok(ResultBranch { matcher, action })
}

/// Parse a multi-branch array.
pub fn parse_result_branches(step_id: &str, branches: Vec<OnResultBranchDto>) -> (r: Result<Vec<ResultBranch>, AilError>)
    ensures
        match r {
            Ok(v) => branches_valid_from(step_id@, branches@, 0) && v.len() == branches.len()
                && forall|k: int| 0 <= k < v.len() ==> branch_agrees(branches@[k], step_id@, #[trigger] v@[k]),
            Err(e) => !branches_valid_from(step_id@, branches@, 0) && e.kind()
                == ErrorKind::ConfigValidationFailed,
        },
{
    let ghost bs = branches@;
    let n = branches.len();
    assert(bs.len() == n);
    let mut out: Vec<ResultBranch> = Vec::new();
    let mut i: usize = 0;
    for branch in it: branches
        invariant
            bs.len() <= usize::MAX,
            it.seq() == bs,
            i == it.index(),
            i <= bs.len(),
            out.len() == i,
            forall|k: int| 0 <= k < i ==> branch_agrees(bs[k], step_id@, #[trigger] out@[k]),
            branches_valid_from(step_id@, bs, 0) == branches_valid_from(step_id@, bs, i as int),
    {
        assert(branch == bs[i as int]);
        assert(i < bs.len());
        let rb = parse_branch(step_id, i, branch)?;
        out.push(rb);
        i += 1;
    }
    Ok(out)
}

/// Parse `on_result` from either shape. The field-equals shape requires an
/// input schema that declares the field.
pub fn parse_on_result(step_id: &str, dto: OnResultDto, input_schema: Option<&str>) -> (r: Result<Vec<ResultBranch>, AilError>)
    ensures
        dto matches OnResultDto::Branches(bs) ==> match r {
            Ok(v) => branches_valid_from(step_id@, bs@, 0) && v.len() == bs.len() && forall|k: int|
                0 <= k < v.len() ==> branch_agrees(bs@[k], step_id@, #[trigger] v@[k]),
            Err(e) => !branches_valid_from(step_id@, bs@, 0) && e.kind() == ErrorKind::ConfigValidationFailed,
        },
        (dto is FieldEquals && input_schema is None) ==> (r matches Err(e) && e.kind()
            == ErrorKind::ConfigValidationFailed),
        match dto {
            OnResultDto::FieldEquals(fe) => r is Ok ==> (input_schema is Some && action_of(
                fe.if_true.action@,
                opt_view(fe.if_true.prompt),
            ) is Some),
            _ => true,
        },
{
    match dto {
        OnResultDto::Branches(branches) => parse_result_branches(step_id, branches),
        OnResultDto::FieldEquals(fe) => parse_field_equals(step_id, *fe, input_schema),
    }
}

/// Whether the schema (JSON text) declares `field_name`: as a key of its
/// `properties` object, or as a text in its `required` array.
fn schema_declares_field(schema_text: &str, field_name: &str) -> (b: bool) {
    let doc = match parse_json_document(schema_text) {
        Ok(v) => v,
        Err(_) => {
            return false;
        },
    };
    let schema = &doc;
    let in_props = match json_member(schema, "properties") {
        Some(props) => json_member(&props, field_name).is_some(),
        None => false,
    };
    if in_props {
        return true;
    }
    let required = match json_member(schema, "required") {
        Some(req) => match json_array_elements(&req) {
            Some(items) => items,
            None => {
                return false;
            },
        },
        None => {
            return false;
        },
    };
    let mut i: usize = 0;
    while i < required.len()
        decreases required.len() - i,
    {
        if let Some(t) = json_text(&required[i]) {
            if str_eq(t.as_str(), field_name) {
                return true;
            }
        }
        i += 1;
    }
    false
}

/// Verify that a field name exists in the input schema's `properties` or
/// `required`.
pub fn validate_field_in_schema(field_name: &str, schema: &str, step_id: &str) -> (r: Result<(), AilError>)
    ensures
        r matches Err(e) ==> e.kind() == ErrorKind::ConfigValidationFailed && e.detail_view() == "Step '"@ + step_id@
            + "' on_result references field '"@ + field_name@
            + "' but the step's input_schema does not include this field in 'properties' or 'required'"@,
{
    if !schema_declares_field(schema, field_name) {
        let mut d = String::from_str("Step '");
        d.append(step_id);
        d.append("' on_result references field '");
        d.append(field_name);
        d.append(
            "' but the step's input_schema does not include this field in 'properties' or 'required'",
        );
        return Err(AilError::ConfigValidationFailed { detail: d, context: None });
    }
    Ok(())
}

/// Parse a `field:` + `equals:` binary branch into a `Field` branch for
/// `if_true` and, when present, an `Always` branch for `if_false`.
pub fn parse_field_equals(step_id: &str, fe: FieldEqualsDto, input_schema: Option<&str>) -> (r: Result<Vec<ResultBranch>, AilError>)
    ensures
        input_schema is None ==> (r matches Err(e) && e.kind() == ErrorKind::ConfigValidationFailed),
        match r {
            Ok(v) => {
                &&& input_schema is Some
                &&& action_of(fe.if_true.action@, opt_view(fe.if_true.prompt)) is Some
                &&& v.len() == (if fe.if_false is Some { 2int } else { 1int })
                &&& v@[0].matcher matches ResultMatcher::Field { name, .. } && name@ == fe.field@
                &&& Some(v@[0].action.view_value()) == action_of(fe.if_true.action@, opt_view(fe.if_true.prompt))
                &&& (fe.if_false matches Some(f) ==> (v@[1].matcher is Always && Some(
                    v@[1].action.view_value(),
                ) == action_of(f.action@, opt_view(f.prompt))))
            },
            Err(_) => true,
        },
        r matches Err(e) ==> e.kind() == ErrorKind::ConfigValidationFailed,
{
    let schema = match input_schema {
        Some(s) => s,
        None => {
            let mut d = String::from_str("Step '");
            d.append(step_id);
            d.append(
                "' uses on_result field: + equals: but does not declare an input_schema — field: + equals: requires input_schema",
            );
            return Err(AilError::ConfigValidationFailed { detail: d, context: None });
        },
    };
    validate_field_in_schema(fe.field.as_str(), schema, step_id)?;
    let if_true_action = parse_field_equals_action(&fe.if_true, step_id, "if_true")?;
    let FieldEqualsDto { field, equals, if_true: _, if_false } = fe;
    let mut branches: Vec<ResultBranch> = Vec::new();
    branches.push(
        ResultBranch { matcher: ResultMatcher::Field { name: field, equals }, action: if_true_action },
    );
    if let Some(f) = if_false {
        let if_false_action = parse_field_equals_action(&f, step_id, "if_false")?;
        branches.push(ResultBranch { matcher: ResultMatcher::Always, action: if_false_action });
    }
    Ok(branches)
}

} // verus!
