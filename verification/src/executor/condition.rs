//! Conditions and `on_result` branches, evaluated against the running session.
use vstd::prelude::*;
use vstd::string::*;

use crate::config::domain::{Condition, ConditionExpr, ExitCodeMatch, RegexCondition, ResultAction, ResultBranch, ResultMatcher};
use crate::config::validation::regex_literal::{regex_build_error, regex_match_text, regex_matches};
use crate::config::on_result::ActionView;
use crate::error::{opt_view, AilError, ErrorKind};
use crate::executor::helpers::{apply_condition_op, condition_op_holds};
use crate::executor::schema::{field_matches, json_member_equals};
use crate::executor::turn::TurnEntry;
use crate::session::Session;
use crate::template::{render_from, resolve, unresolved_message, Rendered};
use crate::text::{clone_opt, contains, contains_exec, lowercase, to_chars, to_lowercase};

verus! {

// ── Specification ───────────────────────────────────────────────────────────

/// The message for a side of a condition that does not resolve.
pub open spec fn side_failed_message(step_id: Seq<char>, side: Seq<char>, text: Seq<char>, v: Seq<char>) -> Seq<char> {
    "Step '"@ + step_id + "' condition: failed to resolve "@ + side + " '"@ + text + "': "@ + unresolved_message(v)
}

/// What a condition expression evaluates to in `s`: whether it holds, or
/// why it cannot be evaluated.
pub open spec fn expression_outcome(s: Session, e: ConditionExpr, step_id: Seq<char>) -> Result<bool, Seq<char>> {
    match render_from(s, e.lhs@, 0) {
        Rendered::Unresolved(v) => Err(side_failed_message(step_id, "left-hand side"@, e.lhs@, v)),
        Rendered::Text(l) => match render_from(s, e.rhs@, 0) {
            Rendered::Unresolved(v) => Err(side_failed_message(step_id, "right-hand side"@, e.rhs@, v)),
            Rendered::Text(r) => Ok(condition_op_holds(e.op, l, r)),
        },
    }
}

/// The message of a regex condition whose pattern does not compile.
pub open spec fn regex_failed_message(step_id: Seq<char>, source: Seq<char>) -> Seq<char> {
    "Step '"@ + step_id + "' condition: regex '"@ + source + "' failed to compile"@
}

/// What a regex condition gives in session `s`: whether the regex matches
/// somewhere in the resolved left-hand side, or the error message.
pub open spec fn regex_outcome(s: Session, rc: RegexCondition, step_id: Seq<char>) -> Result<bool, Seq<char>> {
    match render_from(s, rc.lhs@, 0) {
        Rendered::Unresolved(v) => Err(side_failed_message(step_id, "left-hand side"@, rc.lhs@, v)),
        Rendered::Text(t) => if regex_build_error(rc.pattern@, rc.case_insensitive, rc.multi_line, rc.dot_all) is Some {
            Err(regex_failed_message(step_id, rc.source@))
        } else {
            Ok(regex_matches(rc.pattern@, rc.case_insensitive, rc.multi_line, rc.dot_all, t))
        },
    }
}

// ── Implementation ──────────────────────────────────────────────────────────

fn side_message(step_id: &str, side: &str, text: &str, detail: &str) -> (s: String)
    ensures
        s@ == "Step '"@ + step_id@ + "' condition: failed to resolve "@ + side@ + " '"@ + text@ + "': "@ + detail@,
{
    let mut s = String::from_str("Step '");
    s.append(step_id);
    s.append("' condition: failed to resolve ");
    s.append(side);
    s.append(" '");
    s.append(text);
    s.append("': ");
    s.append(detail);
    s
}

/// Evaluate a comparison expression: both sides are resolved as templates,
/// trimmed, and compared.
pub fn evaluate_expression(expr: &ConditionExpr, session: &Session, step_id: &str) -> (r: Result<bool, AilError>)
    ensures
        match expression_outcome(*session, *expr, step_id@) {
            Ok(b) => r == Ok::<bool, AilError>(b),
            Err(d) => r matches Err(e) && e.is_fresh(ErrorKind::ConditionInvalid, d),
        },
{
    let lhs = match resolve(expr.lhs.as_str(), session) {
        Ok(x) => x,
        Err(e) => {
            let d = side_message(step_id, "left-hand side", expr.lhs.as_str(), e.detail());
            return Err(AilError::ConditionInvalid { detail: d, context: None });
        },
    };
    let rhs = match resolve(expr.rhs.as_str(), session) {
        Ok(x) => x,
        Err(e) => {
            let d = side_message(step_id, "right-hand side", expr.rhs.as_str(), e.detail());
            return Err(AilError::ConditionInvalid { detail: d, context: None });
        },
    };
    Ok(apply_condition_op(expr.op, lhs.as_str(), rhs.as_str()))
}

/// Evaluate a step condition: `true` when the step should run.
pub fn evaluate_condition(condition: &Condition, session: &Session, step_id: &str) -> (r: Result<bool, AilError>)
    ensures
        match *condition {
            Condition::Always => r == Ok::<bool, AilError>(true),
            Condition::Never => r == Ok::<bool, AilError>(false),
            Condition::Expression(e) => match expression_outcome(*session, e, step_id@) {
                Ok(b) => r == Ok::<bool, AilError>(b),
                Err(d) => r matches Err(x) && x.is_fresh(ErrorKind::ConditionInvalid, d),
            },
            Condition::Regex(rc) => match regex_outcome(*session, rc, step_id@) {
                Ok(b) => r == Ok::<bool, AilError>(b),
                Err(d) => r matches Err(x) && x.is_fresh(ErrorKind::ConditionInvalid, d),
            },
        },
{
    match condition {
        Condition::Always => Ok(true),
        Condition::Never => Ok(false),
        Condition::Expression(e) => evaluate_expression(e, session, step_id),
        Condition::Regex(rc) => {
            let lhs = match resolve(rc.lhs.as_str(), session) {
                Ok(x) => x,
                Err(e) => {
                    let d = side_message(step_id, "left-hand side", rc.lhs.as_str(), e.detail());
                    return Err(AilError::ConditionInvalid { detail: d, context: None });
                },
            };
            match regex_match_text(rc.pattern.as_str(), rc.case_insensitive, rc.multi_line, rc.dot_all, lhs.as_str()) {
                Some(b) => Ok(b),
                None => {
                    let mut d = String::from_str("Step '");
                    d.append(step_id);
                    d.append("' condition: regex '");
                    d.append(rc.source.as_str());
                    d.append("' failed to compile");
                    Err(AilError::ConditionInvalid { detail: d, context: None })
                },
            }
        },
    }
}

// ── `on_result` ─────────────────────────────────────────────────────────────

/// The text a `contains:` matcher searches: the response, else the stdout.
pub open spec fn haystack(e: TurnEntry) -> Seq<char> {
    match e.response {
        Some(r) => r@,
        None => match e.stdout {
            Some(o) => o@,
            None => Seq::empty(),
        },
    }
}

/// Whether a matcher fires for the entry, when that is known: `None` for a
/// regex test (whose answer the regex crate gives) and for a `field:` test
/// against a validated input (whose answer `serde_json` gives),
/// The validated input text, as a character sequence.
pub open spec fn input_view(i: Option<&str>) -> Option<Seq<char>> {
    match i {
        Some(t) => Some(t@),
        None => None,
    }
}

/// `Some(Err(d))` when an expression cannot be evaluated. `input` is the
/// text the step's `input_schema` check read, when it has one.
pub open spec fn matcher_outcome(s: Session, m: ResultMatcher, e: TurnEntry, step_id: Seq<char>, input: Option<Seq<char>>) -> Option<Result<bool, Seq<char>>> {
    match m {
        ResultMatcher::Contains(t) => Some(Ok(contains(lowercase(haystack(e)), lowercase(t@)))),
        ResultMatcher::ExitCode(ExitCodeMatch::Exact(n)) => Some(Ok(e.exit_code == Some(n))),
        ResultMatcher::ExitCode(ExitCodeMatch::Any) => Some(Ok(e.exit_code matches Some(c) && c != 0)),
        ResultMatcher::Field { name, equals } => Some(Ok(input matches Some(t) && json_member_equals(t, name@, equals@))),
        ResultMatcher::Expression { condition, .. } => match condition {
            Condition::Always => Some(Ok(true)),
            Condition::Never => Some(Ok(false)),
            Condition::Expression(x) => Some(expression_outcome(s, x, step_id)),
            Condition::Regex(rc) => Some(regex_outcome(s, rc, step_id)),
        },
        ResultMatcher::Always => Some(Ok(true)),
    }
}

/// A `contains:` matcher searches, case-insensitively, the entry's response
/// when it has one and otherwise its stdout, so a command step's output is
/// searched as a prompt step's response is.
pub proof fn lemma_contains_searches_response_else_stdout(
    s: Session,
    t: String,
    e: TurnEntry,
    step_id: Seq<char>,
    input: Option<Seq<char>>,
)
    ensures
        e.response matches Some(r) ==> matcher_outcome(s, ResultMatcher::Contains(t), e, step_id, input) == Some(
            Ok::<bool, Seq<char>>(contains(lowercase(r@), lowercase(t@))),
        ),
        (e.response is None && e.stdout is Some) ==> matcher_outcome(
            s,
            ResultMatcher::Contains(t),
            e,
            step_id,
            input,
        ) == Some(Ok::<bool, Seq<char>>(contains(lowercase(e.stdout->0@), lowercase(t@)))),
        (e.response is None && e.stdout is None) ==> matcher_outcome(s, ResultMatcher::Contains(t), e, step_id, input)
            == Some(Ok::<bool, Seq<char>>(contains(lowercase(Seq::empty()), lowercase(t@)))),
{
}

/// The outcome of `on_result` as plain values.
pub open spec fn on_result_view(r: Result<Option<ResultAction>, AilError>) -> Result<Option<ActionView>, Seq<char>> {
    match r {
        Ok(Some(a)) => Ok(Some(a.view_value())),
        Ok(None) => Ok(None),
        Err(e) => Err(e.detail_view()),
    }
}

/// `r` is a possible outcome of trying branches `k..` in order: the first
/// branch that fires gives its action; a failing expression gives its error;
/// none firing gives nothing.
pub open spec fn on_result_allows(s: Session, bs: Seq<ResultBranch>, e: TurnEntry, step_id: Seq<char>, input: Option<Seq<char>>, k: int, r: Result<Option<ActionView>, Seq<char>>) -> bool
    decreases bs.len() - k,
{
    if k < 0 || k >= bs.len() {
        r == Ok::<Option<ActionView>, Seq<char>>(None)
    } else {
        match matcher_outcome(s, bs[k].matcher, e, step_id, input) {
            Some(Ok(true)) => r == Ok::<Option<ActionView>, Seq<char>>(Some(bs[k].action.view_value())),
            Some(Ok(false)) => on_result_allows(s, bs, e, step_id, input, k + 1, r),
            Some(Err(d)) => r == Err::<Option<ActionView>, Seq<char>>(d),
            None => r == Ok::<Option<ActionView>, Seq<char>>(Some(bs[k].action.view_value()))
                || on_result_allows(s, bs, e, step_id, input, k + 1, r),
        }
    }
}

/// An action `on_result` gives is the action of one of its branches.
pub proof fn lemma_on_result_action_from_branch(s: Session, bs: Seq<ResultBranch>, e: TurnEntry, step_id: Seq<char>, input: Option<Seq<char>>, k: int, a: ActionView)
    requires
        0 <= k,
        on_result_allows(s, bs, e, step_id, input, k, Ok(Some(a))),
    ensures
        exists|j: int| 0 <= j < bs.len() && (#[trigger] bs[j]).action.view_value() == a,
    decreases bs.len() - k,
{
    if k < bs.len() {
        match matcher_outcome(s, bs[k].matcher, e, step_id, input) {
            Some(Ok(true)) => {
                assert(bs[k].action.view_value() == a);
            },
            Some(Ok(false)) => {
                lemma_on_result_action_from_branch(s, bs, e, step_id, input, k + 1, a);
            },
            Some(Err(d)) => {},
            None => {
                if bs[k].action.view_value() != a {
                    lemma_on_result_action_from_branch(s, bs, e, step_id, input, k + 1, a);
                }
            },
        }
    }
}

/// A copy of a result action.
pub fn copy_action(a: &ResultAction) -> (r: ResultAction)
    ensures
        r.view_value() == a.view_value(),
{
    match a {
        ResultAction::Continue => ResultAction::Continue,
        ResultAction::Break => ResultAction::Break,
        ResultAction::AbortPipeline => ResultAction::AbortPipeline,
        ResultAction::PauseForHuman => ResultAction::PauseForHuman,
        ResultAction::Pipeline { path, prompt } => ResultAction::Pipeline { path: path.clone(), prompt: clone_opt(prompt) },
    }
}

/// Whether one matcher fires for the entry.
fn matcher_fires(
    m: &ResultMatcher,
    session: &Session,
    step_id: &str,
    entry: &TurnEntry,
    validated_input: Option<&str>,
) -> (r: Result<bool, AilError>)
    ensures
        match matcher_outcome(*session, *m, *entry, step_id@, input_view(validated_input)) {
            Some(Ok(b)) => r == Ok::<bool, AilError>(b),
            Some(Err(d)) => r matches Err(x) && x.detail_view() == d && x.kind() == ErrorKind::ConditionInvalid,
            None => r is Ok,
        },
{
    match m {
        ResultMatcher::Contains(text) => {
            let hay: String = match &entry.response {
                Some(r) => r.clone(),
                None => match &entry.stdout {
                    Some(o) => o.clone(),
                    None => String::new(),
                },
            };
            let hl = to_chars(to_lowercase(hay.as_str()).as_str());
            let tl = to_chars(to_lowercase(text.as_str()).as_str());
            Ok(contains_exec(&hl, &tl))
        },
        ResultMatcher::ExitCode(ExitCodeMatch::Exact(n)) => Ok(
            match entry.exit_code {
                Some(c) => c == *n,
                None => false,
            },
        ),
        ResultMatcher::ExitCode(ExitCodeMatch::Any) => Ok(
            match entry.exit_code {
                Some(c) => c != 0,
                None => false,
            },
        ),
        ResultMatcher::Field { name, equals } => Ok(field_matches(validated_input, name.as_str(), equals.as_str())),
        ResultMatcher::Expression { condition, .. } => evaluate_condition(condition, session, step_id),
        ResultMatcher::Always => Ok(true),
    }
}

/// Try the `on_result` branches in order against the step's entry: the first
/// that fires gives its action. `validated_input` is the text the step's
/// `input_schema` check read, which `field:` matchers look into.
pub fn evaluate_on_result(
    branches: &Vec<ResultBranch>,
    session: &Session,
    step_id: &str,
    entry: &TurnEntry,
    validated_input: Option<&str>,
) -> (r: Result<Option<ResultAction>, AilError>)
    ensures
        on_result_allows(*session, branches@, *entry, step_id@, input_view(validated_input), 0, on_result_view(r)),
        r matches Err(e) ==> e.kind() == ErrorKind::ConditionInvalid,
        r matches Ok(Some(a)) ==> exists|j: int|
            0 <= j < branches@.len() && (#[trigger] branches@[j]).action.view_value() == a.view_value(),
{
    let ghost input = input_view(validated_input);
    let mut k: usize = 0;
    while k < branches.len()
        invariant
            k <= branches.len(),
            input == input_view(validated_input),
            forall|rr: Result<Option<ActionView>, Seq<char>>|
                on_result_allows(*session, branches@, *entry, step_id@, input, k as int, rr) ==> on_result_allows(
                    *session,
                    branches@,
                    *entry,
                    step_id@,
                    input,
                    0,
                    rr,
                ),
        decreases branches.len() - k,
    {
        let b = &branches[k];
        match matcher_fires(&b.matcher, session, step_id, entry, validated_input) {
            Err(e) => {
                return Err(e);
            },
            Ok(true) => {
                let a = copy_action(&b.action);
                proof {
                    lemma_on_result_action_from_branch(*session, branches@, *entry, step_id@, input_view(validated_input), 0, a.view_value());
                }
                return Ok(Some(a));
            },
            Ok(false) => {},
        }
        k += 1;
    }
    Ok(None)
}

} // verus!
