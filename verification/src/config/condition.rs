//! Parsing of condition expressions such as `{{ step.test.exit_code }} == 0`.
//!
//! Supported operators: `==`, `!=`, `contains`, `starts_with`, `ends_with`.
//! Occurrences inside `{{ ... }}` template blocks are not operators, and the
//! word operators need whitespace (or the string's ends) on both sides.
use vstd::prelude::*;
use vstd::string::*;

use crate::config::domain::{Condition, ConditionExpr, ConditionOp};
use crate::error::{AilError, ErrorKind};
use crate::text::{
    contains, contains_exec, eq_chars, find_from, find_from_exec, is_ascii_white_space,
    is_ascii_white_space_exec, lemma_find_from_sound, lemma_rfind_before_sound, matches_at,
    rfind_before, rfind_before_exec, string_of_all, sub_chars, to_chars, trim, trim_chars,
};

verus! {

// ── Specification ────────────────────────────────────────────────────────────

/// Position `pos` falls inside a `{{ ... }}` block: the last `{{` before it is
/// not closed by a `}}` before `pos`.
pub open spec fn inside_template(raw: Seq<char>, pos: int) -> bool {
    match rfind_before(raw, "{{"@, pos) {
        Some(open) => !contains(raw.subrange(open + 2, pos), "}}"@),
        None => false,
    }
}

/// The first occurrence of `needle` at or after `from` that is not inside a
/// template block.
pub open spec fn outside_from(raw: Seq<char>, needle: Seq<char>, from: int) -> Option<int>
    decreases raw.len() - from,
{
    if needle.len() == 0 || from < 0 {
        None
    } else {
        match find_from(raw, needle, from) {
            None => None,
            Some(abs) => {
                proof {
                    lemma_find_from_sound(raw, needle, from);
                }
                if !inside_template(raw, abs) {
                    Some(abs)
                } else {
                    outside_from(raw, needle, abs + needle.len())
                }
            },
        }
    }
}

/// Whitespace (or the string's end) on both sides of `raw[abs..abs+len]`.
pub open spec fn word_bounded(raw: Seq<char>, abs: int, len: int) -> bool {
    &&& (abs == 0 || is_ascii_white_space(raw[abs - 1]))
    &&& (abs + len >= raw.len() || is_ascii_white_space(raw[abs + len]))
}

/// The first word-bounded occurrence of `token` at or after `from` that is not
/// inside a template block.
pub open spec fn word_from(raw: Seq<char>, token: Seq<char>, from: int) -> Option<int>
    decreases raw.len() - from,
{
    if token.len() == 0 || from < 0 {
        None
    } else {
        match find_from(raw, token, from) {
            None => None,
            Some(abs) => {
                proof {
                    lemma_find_from_sound(raw, token, from);
                }
                if !inside_template(raw, abs) && word_bounded(raw, abs, token.len() as int) {
                    Some(abs)
                } else {
                    word_from(raw, token, abs + token.len())
                }
            },
        }
    }
}

/// The position of operator `token` in `raw`: symbolic operators by plain
/// search outside templates, word operators with word boundaries.
pub open spec fn operator_position(raw: Seq<char>, token: Seq<char>) -> Option<int> {
    if token == "=="@ || token == "!="@ {
        outside_from(raw, token, 0)
    } else {
        word_from(raw, token, 0)
    }
}

/// Surrounding single or double quotes removed, if present.
pub open spec fn strip_quotes(s: Seq<char>) -> Seq<char> {
    if s.len() >= 2 && ((s[0] == '\'' && s.last() == '\'') || (s[0] == '"' && s.last() == '"')) {
        s.subrange(1, s.len() - 1)
    } else {
        s
    }
}

/// The operator tokens, in the order they are tried.
pub open spec fn op_token(k: int) -> Seq<char> {
    if k == 0 {
        "starts_with"@
    } else if k == 1 {
        "ends_with"@
    } else if k == 2 {
        "contains"@
    } else if k == 3 {
        "!="@
    } else {
        "=="@
    }
}

/// The operator of token `k`.
pub open spec fn op_kind(k: int) -> ConditionOp {
    if k == 0 {
        ConditionOp::StartsWith
    } else if k == 1 {
        ConditionOp::EndsWith
    } else if k == 2 {
        ConditionOp::Contains
    } else if k == 3 {
        ConditionOp::Ne
    } else {
        ConditionOp::Eq
    }
}

/// The first operator (by the order above) found in `raw`, from index `k` on,
/// with its position.
pub open spec fn first_operator(raw: Seq<char>, k: int) -> Option<(int, int)>
    decreases 5 - k,
{
    if k < 0 || k >= 5 {
        None
    } else {
        match operator_position(raw, op_token(k)) {
            Some(pos) => Some((k, pos)),
            None => first_operator(raw, k + 1),
        }
    }
}

/// What parsing a condition expression yields.
pub enum ConditionParse {
    Parsed { lhs: Seq<char>, op: ConditionOp, rhs: Seq<char> },
    EmptyLhs,
    EmptyRhs,
    NoOperator,
}

/// The meaning of `parse_condition_expression` on `raw`.
pub open spec fn condition_parse(raw: Seq<char>) -> ConditionParse {
    match first_operator(raw, 0) {
        None => ConditionParse::NoOperator,
        Some((k, pos)) => {
            let lhs = trim(raw.subrange(0, pos));
            let rhs = strip_quotes(trim(raw.subrange(pos + op_token(k).len(), raw.len() as int)));
            if lhs.len() == 0 {
                ConditionParse::EmptyLhs
            } else if rhs.len() == 0 {
                ConditionParse::EmptyRhs
            } else {
                ConditionParse::Parsed { lhs, op: op_kind(k), rhs }
            }
        },
    }
}

pub open spec fn msg_empty_lhs(step_id: Seq<char>) -> Seq<char> {
    "Step '"@ + step_id + "' condition expression has an empty left-hand side"@
}

pub open spec fn msg_empty_rhs(step_id: Seq<char>) -> Seq<char> {
    "Step '"@ + step_id + "' condition expression has an empty right-hand side"@
}

pub open spec fn msg_no_operator(step_id: Seq<char>, raw: Seq<char>) -> Seq<char> {
    "Step '"@ + step_id + "' specifies condition '"@ + raw
        + "' which is not a recognised named condition ('always', 'never') and does not contain a supported operator (==, !=, contains, starts_with, ends_with)"@
}

// ── Implementation ───────────────────────────────────────────────────────────

/// Returns `true` if position `pos` falls inside a `{{ ... }}` block.
pub fn is_inside_template(raw: &Vec<char>, pos: usize) -> (b: bool)
    requires
        pos <= raw.len(),
    ensures
        b == inside_template(raw@, pos as int),
{
    let open_tok = to_chars("{{");
    let close_tok = to_chars("}}");
    match rfind_before_exec(raw, &open_tok, pos) {
        Some(open) => {
            proof {
                reveal_strlit("{{");
                lemma_rfind_before_sound(raw@, open_tok@, pos as int);
            }
            let between = sub_chars(raw, open + 2, pos);
            !contains_exec(&between, &close_tok)
        },
        None => false,
    }
}

/// Find the first occurrence of `needle` that is not inside a `{{ ... }}` block.
pub fn find_outside_templates(raw: &Vec<char>, needle: &Vec<char>) -> (r: Option<usize>)
    ensures
        match r {
            Some(i) => outside_from(raw@, needle@, 0) == Some(i as int),
            None => outside_from(raw@, needle@, 0) is None,
        },
{
    if needle.len() == 0 {
        return None;
    }
    let mut search_from: usize = 0;
    loop
        invariant
            needle.len() > 0,
            search_from <= raw.len() + 1,
            outside_from(raw@, needle@, 0) == outside_from(raw@, needle@, search_from as int),
        decreases raw.len() + 1 - search_from,
    {
        match find_from_exec(raw, needle, search_from) {
            None => {
                return None;
            },
            Some(abs) => {
                proof {
                    lemma_find_from_sound(raw@, needle@, search_from as int);
                }
                if !is_inside_template(raw, abs) {
                    return Some(abs);
                }
                search_from = abs + needle.len();
            },
        }
    }
}

/// Find the position of an operator token in a condition string.
pub fn find_operator_position(raw: &Vec<char>, token: &Vec<char>) -> (r: Option<usize>)
    ensures
        match r {
            Some(i) => operator_position(raw@, token@) == Some(i as int),
            None => operator_position(raw@, token@) is None,
        },
{
    let eq = to_chars("==");
    let ne = to_chars("!=");
    if eq_chars(token, &eq) || eq_chars(token, &ne) {
        return find_outside_templates(raw, token);
    }
    if token.len() == 0 {
        return None;
    }
    let mut search_from: usize = 0;
    loop
        invariant
            token.len() > 0,
            token@ != "=="@,
            token@ != "!="@,
            search_from <= raw.len() + 1,
            operator_position(raw@, token@) == word_from(raw@, token@, search_from as int),
        decreases raw.len() + 1 - search_from,
    {
        match find_from_exec(raw, token, search_from) {
            None => {
                return None;
            },
            Some(abs) => {
                proof {
                    lemma_find_from_sound(raw@, token@, search_from as int);
                }
                if is_inside_template(raw, abs) {
                    search_from = abs + token.len();
                } else {
                    let left_ok = abs == 0 || is_ascii_white_space_exec(raw[abs - 1]);
                    let right = abs + token.len();
                    let right_ok = right >= raw.len() || is_ascii_white_space_exec(raw[right]);
                    if left_ok && right_ok {
                        return Some(abs);
                    }
                    search_from = abs + token.len();
                }
            },
        }
    }
}

/// Strip surrounding single or double quotes from a string, if present.
pub fn strip_quotes_chars(s: &Vec<char>) -> (r: Vec<char>)
    ensures
        r@ == strip_quotes(s@),
{
    let n = s.len();
    if n >= 2 && ((s[0] == '\'' && s[n - 1] == '\'') || (s[0] == '"' && s[n - 1] == '"')) {
        sub_chars(s, 1, n - 1)
    } else {
        sub_chars(s, 0, n)
    }
}

/// The token and operator of index `k`.
fn operator_entry(k: usize) -> (r: (Vec<char>, ConditionOp))
    requires
        k < 5,
    ensures
        r.0@ == op_token(k as int),
        r.1 == op_kind(k as int),
{
    if k == 0 {
        (to_chars("starts_with"), ConditionOp::StartsWith)
    } else if k == 1 {
        (to_chars("ends_with"), ConditionOp::EndsWith)
    } else if k == 2 {
        (to_chars("contains"), ConditionOp::Contains)
    } else if k == 3 {
        (to_chars("!="), ConditionOp::Ne)
    } else {
        (to_chars("=="), ConditionOp::Eq)
    }
}

/// Build the "Step '<id>'<tail>" message.
fn step_message(step_id: &str, tail: &str) -> (s: String)
    ensures
        s@ == "Step '"@ + step_id@ + tail@,
{
    let mut s = String::from_str("Step '");
    s.append(step_id);
    s.append(tail);
    s
}

/// Parse a condition expression string into a `Condition::Expression`.
pub fn parse_condition_expression(raw: &str, step_id: &str) -> (r: Result<Condition, AilError>)
    ensures
        match condition_parse(raw@) {
            ConditionParse::Parsed { lhs, op, rhs } => r matches Ok(Condition::Expression(e))
                && e.lhs@ == lhs && e.op == op && e.rhs@ == rhs,
            ConditionParse::EmptyLhs => r matches Err(e) && e.is_fresh(
                ErrorKind::ConfigValidationFailed,
                msg_empty_lhs(step_id@),
            ),
            ConditionParse::EmptyRhs => r matches Err(e) && e.is_fresh(
                ErrorKind::ConfigValidationFailed,
                msg_empty_rhs(step_id@),
            ),
            ConditionParse::NoOperator => r matches Err(e) && e.is_fresh(
                ErrorKind::ConfigValidationFailed,
                msg_no_operator(step_id@, raw@),
            ),
        },
{
    let chars = to_chars(raw);
    let mut k: usize = 0;
    while k < 5
        invariant
            chars@ == raw@,
            k <= 5,
            first_operator(raw@, 0) == first_operator(raw@, k as int),
        decreases 5 - k,
    {
        let (token, op) = operator_entry(k);
        match find_operator_position(&chars, &token) {
            Some(pos) => {
                proof {
                    lemma_operator_position_bounds(raw@, token@);
                }
                let lhs_chars = sub_chars(&chars, 0, pos);
                let lhs_v = trim_chars(&lhs_chars);
                let rhs_raw = sub_chars(&chars, pos + token.len(), chars.len());
                let rhs_t = trim_chars(&rhs_raw);
                let rhs_v = strip_quotes_chars(&rhs_t);
                if lhs_v.len() == 0 {
                    let d = step_message(
                        step_id,
                        "' condition expression has an empty left-hand side",
                    );
                    return Err(AilError::ConfigValidationFailed { detail: d, context: None });
                }
                if rhs_v.len() == 0 {
                    let d = step_message(
                        step_id,
                        "' condition expression has an empty right-hand side",
                    );
                    return Err(AilError::ConfigValidationFailed { detail: d, context: None });
                }
                return Ok(
                    Condition::Expression(
                        ConditionExpr {
                            lhs: string_of_all(&lhs_v),
                            op,
                            rhs: string_of_all(&rhs_v),
                        },
                    ),
                );
            },
            None => {},
        }
        k += 1;
    }
    let mut d = step_message(step_id, "' specifies condition '");
    d.append(raw);
    d.append(
        "' which is not a recognised named condition ('always', 'never') and does not contain a supported operator (==, !=, contains, starts_with, ends_with)",
    );
    proof {
        assert(d@ =~= msg_no_operator(step_id@, raw@));
    }
    Err(AilError::ConfigValidationFailed { detail: d, context: None })
}

/// A found operator lies inside the string, token included.
pub proof fn lemma_operator_position_bounds(raw: Seq<char>, token: Seq<char>)
    ensures
        operator_position(raw, token) matches Some(p) ==> 0 <= p && p + token.len() <= raw.len(),
{
    if token == "=="@ || token == "!="@ {
        lemma_outside_from_bounds(raw, token, 0);
    } else {
        lemma_word_from_bounds(raw, token, 0);
    }
}

proof fn lemma_outside_from_bounds(raw: Seq<char>, needle: Seq<char>, from: int)
    ensures
        outside_from(raw, needle, from) matches Some(p) ==> from <= p && matches_at(raw, needle, p),
    decreases raw.len() - from,
{
    if needle.len() == 0 || from < 0 {
    } else {
        lemma_find_from_sound(raw, needle, from);
        match find_from(raw, needle, from) {
            None => {},
            Some(abs) => {
                if !inside_template(raw, abs) {
                } else {
                    lemma_outside_from_bounds(raw, needle, abs + needle.len());
                }
            },
        }
    }
}

proof fn lemma_word_from_bounds(raw: Seq<char>, token: Seq<char>, from: int)
    ensures
        word_from(raw, token, from) matches Some(p) ==> from <= p && matches_at(raw, token, p),
    decreases raw.len() - from,
{
    if token.len() == 0 || from < 0 {
    } else {
        lemma_find_from_sound(raw, token, from);
        match find_from(raw, token, from) {
            None => {},
            Some(abs) => {
                if !inside_template(raw, abs) && word_bounded(raw, abs, token.len() as int) {
                } else {
                    lemma_word_from_bounds(raw, token, abs + token.len());
                }
            },
        }
    }
}

} // verus!
