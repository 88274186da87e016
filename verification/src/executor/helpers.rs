//! Step helpers shared by the execution paths: tool policies and condition
//! operators.
use vstd::prelude::*;

use crate::config::domain::{ConditionOp, ToolPolicy};
use crate::executor::turn::ToolPermissionPolicy;
use crate::text::{
    contains, contains_exec, ends_with, ends_with_exec, lowercase, starts_with, starts_with_exec,
    to_chars, to_lowercase, trim, trim_str, views,
};

verus! {

/// The policy a step's tool settings give.
pub open spec fn tool_policy_of(tools: Option<ToolPolicy>) -> ToolPermissionPolicyView {
    match tools {
        None => ToolPermissionPolicyView::RunnerDefault,
        Some(t) => if t.disabled {
            ToolPermissionPolicyView::NoTools
        } else if t.allow.len() > 0 && t.deny.len() > 0 {
            ToolPermissionPolicyView::Mixed { allow: views(t.allow@), deny: views(t.deny@) }
        } else if t.allow.len() > 0 {
            ToolPermissionPolicyView::Allowlist(views(t.allow@))
        } else if t.deny.len() > 0 {
            ToolPermissionPolicyView::Denylist(views(t.deny@))
        } else {
            ToolPermissionPolicyView::RunnerDefault
        },
    }
}

/// A tool policy as plain values.
pub enum ToolPermissionPolicyView {
    RunnerDefault,
    NoTools,
    Allowlist(Seq<Seq<char>>),
    Denylist(Seq<Seq<char>>),
    Mixed { allow: Seq<Seq<char>>, deny: Seq<Seq<char>> },
}

impl ToolPermissionPolicy {
    /// The policy as plain values.
    pub open spec fn view_value(self) -> ToolPermissionPolicyView {
        match self {
            ToolPermissionPolicy::RunnerDefault => ToolPermissionPolicyView::RunnerDefault,
            ToolPermissionPolicy::NoTools => ToolPermissionPolicyView::NoTools,
            ToolPermissionPolicy::Allowlist(a) => ToolPermissionPolicyView::Allowlist(views(a@)),
            ToolPermissionPolicy::Denylist(d) => ToolPermissionPolicyView::Denylist(views(d@)),
            ToolPermissionPolicy::Mixed { allow, deny } => ToolPermissionPolicyView::Mixed {
                allow: views(allow@),
                deny: views(deny@),
            },
        }
    }
}

/// A copy of a list of strings.
pub fn copy_strings(v: &Vec<String>) -> (r: Vec<String>)
    ensures
        views(r@) == views(v@),
        r@.len() == v@.len(),
{
    let mut r: Vec<String> = Vec::new();
    let mut i: usize = 0;
    while i < v.len()
        invariant
            i <= v.len(),
            r@.len() == i,
            forall|k: int| 0 <= k < i ==> r@[k]@ == v@[k]@,
        decreases v.len() - i,
    {
        r.push(v[i].clone());
        i += 1;
    }
    assert(views(r@) =~= views(v@));
    r
}

/// Build a `ToolPermissionPolicy` from an optional `ToolPolicy`.
pub fn build_tool_policy(tools: Option<&ToolPolicy>) -> (p: ToolPermissionPolicy)
    ensures
        p.view_value() == tool_policy_of(
            match tools {
                Some(t) => Some(*t),
                None => None,
            },
        ),
{
    match tools {
        Some(t) => {
            if t.disabled {
                ToolPermissionPolicy::NoTools
            } else if t.allow.len() > 0 && t.deny.len() > 0 {
                ToolPermissionPolicy::Mixed { allow: copy_strings(&t.allow), deny: copy_strings(&t.deny) }
            } else if t.allow.len() > 0 {
                ToolPermissionPolicy::Allowlist(copy_strings(&t.allow))
            } else if t.deny.len() > 0 {
                ToolPermissionPolicy::Denylist(copy_strings(&t.deny))
            } else {
                ToolPermissionPolicy::RunnerDefault
            }
        },
        None => ToolPermissionPolicy::RunnerDefault,
    }
}

/// The outcome of comparing two resolved sides with `op`: both sides are
/// trimmed; `==`/`!=` compare exactly, the word operators compare lowercased.
pub open spec fn condition_op_holds(op: ConditionOp, lhs: Seq<char>, rhs: Seq<char>) -> bool {
    let l = trim(lhs);
    let r = trim(rhs);
    match op {
        ConditionOp::Eq => l == r,
        ConditionOp::Ne => l != r,
        ConditionOp::Contains => contains(lowercase(l), lowercase(r)),
        ConditionOp::StartsWith => starts_with(lowercase(l), lowercase(r)),
        ConditionOp::EndsWith => ends_with(lowercase(l), lowercase(r)),
    }
}

/// Apply a condition operator to the resolved left- and right-hand sides.
pub fn apply_condition_op(op: ConditionOp, lhs: &str, rhs: &str) -> (b: bool)
    ensures
        b == condition_op_holds(op, lhs@, rhs@),
{
    let l = trim_str(lhs);
    let r = trim_str(rhs);
    match op {
        ConditionOp::Eq => l == r,
        ConditionOp::Ne => !(l == r),
        _ => {
            let ll = to_chars(to_lowercase(l.as_str()).as_str());
            let rl = to_chars(to_lowercase(r.as_str()).as_str());
            match op {
                ConditionOp::Contains => contains_exec(&ll, &rl),
                ConditionOp::StartsWith => starts_with_exec(&ll, &rl),
                _ => ends_with_exec(&ll, &rl),
            }
        },
    }
}

} // verus!
