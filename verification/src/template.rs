//! `{{ variable }}` substitution in prompts, conditions and paths.
use vstd::prelude::*;
use vstd::string::*;

use crate::error::{AilError, ErrorKind};
use crate::executor::turn::TurnEntry;
use crate::session::{last_entry_for, last_response_of, lemma_last_entry_for, Session};
use crate::text::{
    decimal, ends_with, find_from, find_from_exec, lemma_find_from_sound, matches_at, push_decimal,
    push_signed_decimal, signed_decimal, starts_with, str_eq, string_of, sub_chars, to_chars, trim,
    trim_chars,
};

verus! {

// ── Specification ───────────────────────────────────────────────────────────

/// A named field of a step's latest turn-log entry.
pub open spec fn entry_field(e: TurnEntry, field: Seq<char>) -> Option<Seq<char>> {
    if field == "response"@ {
        match e.response {
            Some(r) => Some(r@),
            None => None,
        }
    } else if field == "prompt"@ {
        Some(e.prompt@)
    } else if field == "stdout"@ {
        match e.stdout {
            Some(r) => Some(r@),
            None => None,
        }
    } else if field == "stderr"@ {
        match e.stderr {
            Some(r) => Some(r@),
            None => None,
        }
    } else if field == "exit_code"@ {
        match e.exit_code {
            Some(c) => Some(signed_decimal(c as int)),
            None => None,
        }
    } else {
        None
    }
}

/// The position of the last `.` in `v`, if any.
pub open spec fn last_dot(v: Seq<char>) -> Option<int>
    decreases v.len(),
{
    if v.len() == 0 {
        None
    } else if v.last() == '.' {
        Some(v.len() - 1)
    } else {
        last_dot(v.drop_last())
    }
}

/// `step.<id>.<field>`: the field of the latest entry of step `<id>`. The
/// invocation step's prompt is the run's invocation prompt until the step
/// has run.
pub open spec fn step_variable(s: Session, v: Seq<char>) -> Option<Seq<char>> {
    let rest = v.subrange(5, v.len() as int);
    match last_dot(rest) {
        None => None,
        Some(d) => {
            let id = rest.subrange(0, d);
            let field = rest.subrange(d + 1, rest.len() as int);
            match last_entry_for(s.turn_log@, id) {
                Some(i) => entry_field(s.turn_log@[i], field),
                None => if id == "invocation"@ && field == "prompt"@ {
                    Some(s.invocation_prompt@)
                } else {
                    None
                },
            }
        },
    }
}

/// The value of the template variable `v` (already trimmed) in session `s`.
pub open spec fn variable_value(s: Session, v: Seq<char>) -> Option<Seq<char>> {
    if v == "pipeline.run_id"@ {
        Some(s.run_id@)
    } else if v == "last_response"@ {
        last_response_of(s.turn_log@)
    } else if v == "do_while.iteration"@ {
        match s.do_while_context {
            Some(c) => Some(decimal(c.iteration as nat)),
            None => None,
        }
    } else if v == "do_while.max_iterations"@ {
        match s.do_while_context {
            Some(c) => Some(decimal(c.max_iterations as nat)),
            None => None,
        }
    } else if v == "for_each.index"@ {
        match s.for_each_context {
            Some(c) => Some(decimal(c.index as nat)),
            None => None,
        }
    } else if v == "for_each.total"@ {
        match s.for_each_context {
            Some(c) => Some(decimal(c.total as nat)),
            None => None,
        }
    } else if v == "for_each.item"@ {
        match s.for_each_context {
            Some(c) => Some(c.item@),
            None => None,
        }
    } else if s.for_each_context matches Some(c) && v == "for_each."@ + c.as_name@ {
        Some(s.for_each_context->0.item@)
    } else if starts_with(v, "step."@) {
        step_variable(s, v)
    } else {
        None
    }
}

/// The outcome of rendering: the text, or the first variable that has no value.
pub enum Rendered {
    Text(Seq<char>),
    Unresolved(Seq<char>),
}

/// `t` from position `p` on, each `{{ v }}` replaced by the value of `v`; a
/// `{{` without a closing `}}` is kept as text.
pub open spec fn render_from(s: Session, t: Seq<char>, p: int) -> Rendered
    decreases t.len() - p,
{
    if p < 0 || p > t.len() {
        Rendered::Text(Seq::empty())
    } else {
        match find_from(t, "{{"@, p) {
            None => Rendered::Text(t.subrange(p, t.len() as int)),
            Some(i) => match find_from(t, "}}"@, i + 2) {
                None => Rendered::Text(t.subrange(p, t.len() as int)),
                Some(j) => {
                    let v = trim(t.subrange(i + 2, j));
                    match variable_value(s, v) {
                        None => Rendered::Unresolved(v),
                        Some(val) => if p <= i && i + 2 <= j && j + 2 <= t.len() {
                            match render_from(s, t, j + 2) {
                                Rendered::Text(rest) => Rendered::Text(t.subrange(p, i) + val + rest),
                                Rendered::Unresolved(x) => Rendered::Unresolved(x),
                            }
                        } else {
                            Rendered::Text(Seq::empty())
                        },
                    }
                },
            },
        }
    }
}

/// Two sessions that agree on the run id, the log, the invocation prompt and
/// the loop contexts give every variable the same value.
pub proof fn lemma_same_variables(s1: Session, s2: Session, v: Seq<char>)
    requires
        s1.run_id == s2.run_id,
        s1.turn_log@ == s2.turn_log@,
        s1.invocation_prompt == s2.invocation_prompt,
        s1.do_while_context == s2.do_while_context,
        s1.for_each_context == s2.for_each_context,
    ensures
        variable_value(s1, v) == variable_value(s2, v),
{
}

/// Rendering depends on a session only through its variables' values.
pub proof fn lemma_render_same(s1: Session, s2: Session, t: Seq<char>, p: int)
    requires
        s1.run_id == s2.run_id,
        s1.turn_log@ == s2.turn_log@,
        s1.invocation_prompt == s2.invocation_prompt,
        s1.do_while_context == s2.do_while_context,
        s1.for_each_context == s2.for_each_context,
    ensures
        render_from(s1, t, p) == render_from(s2, t, p),
    decreases t.len() - p,
{
    if 0 <= p <= t.len() {
        match find_from(t, "{{"@, p) {
            None => {},
            Some(i) => match find_from(t, "}}"@, i + 2) {
                None => {},
                Some(j) => {
                    let v = trim(t.subrange(i + 2, j));
                    lemma_same_variables(s1, s2, v);
                    if p <= i && i + 2 <= j && j + 2 <= t.len() {
                        lemma_render_same(s1, s2, t, j + 2);
                    }
                },
            },
        }
    }
}

/// The message for a variable without value.
pub open spec fn unresolved_message(v: Seq<char>) -> Seq<char> {
    "Template variable '{{ "@ + v + " }}' could not be resolved"@
}

/// `r` with `pre` in front of its text.
pub open spec fn prefixed(pre: Seq<char>, r: Rendered) -> Rendered {
    match r {
        Rendered::Text(x) => Rendered::Text(pre + x),
        Rendered::Unresolved(v) => Rendered::Unresolved(v),
    }
}

// ── Implementation ──────────────────────────────────────────────────────────

/// Whether the characters `v` spell the literal `lit`.
fn is_literal(v: &Vec<char>, lit: &str) -> (b: bool)
    ensures
        b == (v@ == lit@),
{
    let l = to_chars(lit);
    crate::text::eq_chars(v, &l)
}

fn field_value(e: &TurnEntry, field: &Vec<char>) -> (r: Option<String>)
    ensures
        crate::error::opt_view(r) == entry_field(*e, field@),
{
    if is_literal(field, "response") {
        crate::text::clone_opt(&e.response)
    } else if is_literal(field, "prompt") {
        Some(e.prompt.clone())
    } else if is_literal(field, "stdout") {
        crate::text::clone_opt(&e.stdout)
    } else if is_literal(field, "stderr") {
        crate::text::clone_opt(&e.stderr)
    } else if is_literal(field, "exit_code") {
        match e.exit_code {
            Some(c) => {
                let mut s = String::new();
                push_signed_decimal(&mut s, c);
                Some(s)
            },
            None => None,
        }
    } else {
        None
    }
}

fn last_dot_exec(v: &Vec<char>) -> (r: Option<usize>)
    ensures
        match r {
            Some(d) => last_dot(v@) == Some(d as int),
            None => last_dot(v@) is None,
        },
{
    let mut i = v.len();
    assert(v@.take(i as int) =~= v@);
    while i > 0
        invariant
            i <= v.len(),
            last_dot(v@) == last_dot(v@.take(i as int)),
        decreases i,
    {
        let ghost t = v@.take(i as int);
        assert(t.drop_last() =~= v@.take(i - 1));
        assert(t.last() == v@[i - 1]);
        if v[i - 1] == '.' {
            return Some(i - 1);
        }
        i -= 1;
    }
    None
}

fn step_value(session: &Session, v: &Vec<char>) -> (r: Option<String>)
    requires
        v.len() >= 5,
    ensures
        crate::error::opt_view(r) == step_variable(*session, v@),
{
    let rest = sub_chars(v, 5, v.len());
    match last_dot_exec(&rest) {
        None => None,
        Some(d) => {
            proof {
                crate::text::lemma_last_dot_bounds(rest@);
            }
            let id = string_of(&rest, 0, d);
            let field = sub_chars(&rest, d + 1, rest.len());
            match session.turn_log.last_index_of(id.as_str()) {
                Some(i) => {
                    proof {
                        lemma_last_entry_for(session.turn_log@, id@);
                    }
                    let e = &session.turn_log.entries()[i];
                    field_value(e, &field)
                },
                None => {
                    let idc = to_chars(id.as_str());
                    if is_literal(&idc, "invocation") && is_literal(&field, "prompt") {
                        Some(session.invocation_prompt.clone())
                    } else {
                        None
                    }
                },
            }
        },
    }
}

/// Whether `v` is `for_each.<as_name>` of the running `for_each`.
fn for_each_name_matches(session: &Session, v: &Vec<char>) -> (b: bool)
    ensures
        b == (session.for_each_context matches Some(c) && v@ == "for_each."@ + c.as_name@),
{
    match &session.for_each_context {
        Some(c) => {
            let mut name = String::from_str("for_each.");
            name.append(c.as_name.as_str());
            let n = to_chars(name.as_str());
            crate::text::eq_chars(v, &n)
        },
        None => false,
    }
}

/// The value of the (trimmed) variable `v`.
fn variable_value_exec(session: &Session, v: &Vec<char>) -> (r: Option<String>)
    ensures
        crate::error::opt_view(r) == variable_value(*session, v@),
{
    if is_literal(v, "pipeline.run_id") {
        Some(session.run_id.clone())
    } else if is_literal(v, "last_response") {
        match session.turn_log.last_response() {
            Some(x) => Some(x.clone()),
            None => None,
        }
    } else if is_literal(v, "do_while.iteration") {
        match &session.do_while_context {
            Some(c) => {
                let mut s = String::new();
                push_decimal(&mut s, c.iteration);
                assert(s@ =~= decimal(c.iteration as nat));
                Some(s)
            },
            None => None,
        }
    } else if is_literal(v, "do_while.max_iterations") {
        match &session.do_while_context {
            Some(c) => {
                let mut s = String::new();
                push_decimal(&mut s, c.max_iterations);
                assert(s@ =~= decimal(c.max_iterations as nat));
                Some(s)
            },
            None => None,
        }
    } else if is_literal(v, "for_each.index") {
        match &session.for_each_context {
            Some(c) => {
                let mut s = String::new();
                push_decimal(&mut s, c.index);
                assert(s@ =~= decimal(c.index as nat));
                Some(s)
            },
            None => None,
        }
    } else if is_literal(v, "for_each.total") {
        match &session.for_each_context {
            Some(c) => {
                let mut s = String::new();
                push_decimal(&mut s, c.total);
                assert(s@ =~= decimal(c.total as nat));
                Some(s)
            },
            None => None,
        }
    } else if is_literal(v, "for_each.item") {
        match &session.for_each_context {
            Some(c) => Some(c.item.clone()),
            None => None,
        }
    } else if for_each_name_matches(session, v) {
        match &session.for_each_context {
            Some(c) => Some(c.item.clone()),
            None => None,
        }
    } else {
        let pre = to_chars("step.");
        if crate::text::starts_with_exec(v, &pre) {
            proof {
                reveal_strlit("step.");
            }
            step_value(session, v)
        } else {
            None
        }
    }
}

/// Replace each `{{ variable }}` in `template` by its value in `session`.
/// Fails on the first variable without a value.
pub fn resolve(template: &str, session: &Session) -> (r: Result<String, AilError>)
    ensures
        match render_from(*session, template@, 0) {
            Rendered::Text(x) => r matches Ok(o) && o@ == x,
            Rendered::Unresolved(v) => r matches Err(e) && e.is_fresh(
                ErrorKind::TemplateUnresolved,
                unresolved_message(v),
            ),
        },
{
    let t = to_chars(template);
    let open = to_chars("{{");
    let close = to_chars("}}");
    proof {
        reveal_strlit("{{");
        reveal_strlit("}}");
    }
    let mut out = String::new();
    let mut p: usize = 0;
    assert(out@ =~= Seq::<char>::empty());
    loop
        invariant
            t@ == template@,
            open@ == "{{"@,
            close@ == "}}"@,
            open@.len() == 2,
            close@.len() == 2,
            p <= t.len(),
            render_from(*session, t@, 0) == prefixed(out@, render_from(*session, t@, p as int)),
        decreases t.len() - p,
    {
        proof {
            lemma_find_from_sound(t@, open@, p as int);
        }
        let i = match find_from_exec(&t, &open, p) {
            None => {
                let tail = string_of(&t, p, t.len());
                out.append(tail.as_str());
                return Ok(out);
            },
            Some(i) => i,
        };
        proof {
            lemma_find_from_sound(t@, close@, i + 2);
        }
        let j = match find_from_exec(&t, &close, i + 2) {
            None => {
                let tail = string_of(&t, p, t.len());
                out.append(tail.as_str());
                return Ok(out);
            },
            Some(j) => j,
        };
        let inner = sub_chars(&t, i + 2, j);
        let v = trim_chars(&inner);
        match variable_value_exec(session, &v) {
            None => {
                let vs = crate::text::string_of_all(&v);
                let mut d = String::from_str("Template variable '{{ ");
                d.append(vs.as_str());
                d.append(" }}' could not be resolved");
                return Err(AilError::TemplateUnresolved { detail: d, context: None });
            },
            Some(val) => {
                let before = string_of(&t, p, i);
                let ghost out0 = out@;
                out.append(before.as_str());
                out.append(val.as_str());
                proof {
                    assert(out@ =~= out0 + (t@.subrange(p as int, i as int) + val@));
                    match render_from(*session, t@, j + 2) {
                        Rendered::Text(rest) => {
                            assert(out0 + (t@.subrange(p as int, i as int) + val@ + rest) =~= out@ + rest);
                        },
                        Rendered::Unresolved(x) => {},
                    }
                }
                p = j + 2;
            },
        }
    }
}

} // verus!
