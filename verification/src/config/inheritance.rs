//! Pipeline inheritance: `FROM:` paths, cycle detection along the chain,
//! merging of defaults, and the hook operations (`run_before`, `run_after`,
//! `override`, `disable`) that a child applies to its base's steps.
use vstd::prelude::*;
use vstd::string::*;

use crate::config::domain::or_else;
use crate::config::dto::{DefaultsDto, PipelineFileDto, ProviderDto, StepDto, ToolsDto};
use crate::error::{opt_view, AilError, ErrorKind};
use crate::text::{
    clone_opt, contains_string, debug_list, debug_strings, sorted_unique, str_eq, strictly_sorted, string_of,
    to_chars, views,
};

verus! {

// ── Generic sequence facts ──────────────────────────────────────────────────

/// Filtering twice is filtering by both predicates.
pub proof fn lemma_filter_filter<A>(s: Seq<A>, p: spec_fn(A) -> bool, q: spec_fn(A) -> bool)
    ensures
        s.filter(p).filter(q) == s.filter(|x: A| p(x) && q(x)),
    decreases s.len(),
{
    let pq = |x: A| p(x) && q(x);
    if s.len() == 0 {
        reveal(Seq::filter);
        assert(s.filter(p).filter(q) =~= s.filter(pq));
    } else {
        let t = s.drop_last();
        let e = s.last();
        assert(s =~= t.push(e));
        lemma_filter_filter(t, p, q);
        t.lemma_filter_push(e, p);
        t.lemma_filter_push(e, pq);
        if p(e) {
            t.filter(p).lemma_filter_push(e, q);
        }
    }
}

/// Filters by pointwise-equal predicates agree.
pub proof fn lemma_filter_same<A>(s: Seq<A>, p: spec_fn(A) -> bool, q: spec_fn(A) -> bool)
    requires
        forall|x: A| #[trigger] p(x) == q(x),
    ensures
        s.filter(p) == s.filter(q),
{
    assert(p =~= q);
}

/// Filtering keeps every element that the predicate accepts, and only those:
/// with all accepted, the sequence itself; with none, the empty one.
proof fn lemma_filter_all_or_none<A>(s: Seq<A>, p: spec_fn(A) -> bool)
    ensures
        (forall|i: int| 0 <= i < s.len() ==> p(#[trigger] s[i])) ==> s.filter(p) == s,
        (forall|i: int| 0 <= i < s.len() ==> !p(#[trigger] s[i])) ==> s.filter(p) == Seq::<A>::empty(),
    decreases s.len(),
{
    reveal(Seq::filter);
    if s.len() == 0 {
        assert(s.filter(p) =~= Seq::<A>::empty());
        assert(s =~= Seq::<A>::empty());
    } else {
        let t = s.drop_last();
        let e = s.last();
        assert(s =~= t.push(e));
        lemma_filter_all_or_none(t, p);
        t.lemma_filter_push(e, p);
        if forall|i: int| 0 <= i < s.len() ==> p(#[trigger] s[i]) {
            assert forall|i: int| 0 <= i < t.len() implies p(#[trigger] t[i]) by {
                assert(t[i] == s[i]);
            }
            assert(p(s[s.len() - 1]));
        }
        if forall|i: int| 0 <= i < s.len() ==> !p(#[trigger] s[i]) {
            assert forall|i: int| 0 <= i < t.len() implies !p(#[trigger] t[i]) by {
                assert(t[i] == s[i]);
            }
            assert(!p(s[s.len() - 1]));
        }
    }
}

/// Singletons of the elements of `r`, flattened, give `r` back.
proof fn lemma_flatten_singletons<A>(r: Seq<A>)
    ensures
        Seq::new(r.len(), |k: int| seq![r[k]]).flatten() == r,
    decreases r.len(),
{
    let f = Seq::new(r.len(), |k: int| seq![r[k]]);
    if r.len() == 0 {
        assert(f.flatten() =~= r);
    } else {
        let t = r.drop_first();
        lemma_flatten_singletons(t);
        assert(f.drop_first() =~= Seq::new(t.len(), |k: int| seq![t[k]]));
        assert(f.first() == seq![r[0]]);
        assert(seq![r[0]] + t =~= r);
    }
}

/// A child pipeline without hook operations keeps the base steps as they
/// are and appends its own steps after them, in order: on such a child,
/// `apply_hooks` (whose result is `hooked`) gives the base steps followed by
/// the child's.
pub proof fn lemma_plain_child_appends(base: Seq<StepDto>, child: Seq<StepDto>)
    requires
        forall|k: int| 0 <= k < child.len() ==> is_plain(#[trigger] child[k]),
    ensures
        hooked(base, child) == base + child,
{
    lemma_filter_all_or_none(child, disable_pred());
    lemma_filter_all_or_none(child, override_pred());
    lemma_filter_all_or_none(child, before_pred());
    lemma_filter_all_or_none(child, after_pred());
    lemma_filter_all_or_none(child, plain_pred());
    assert(disable_targets(child) =~= Seq::<Seq<char>>::empty());
    assert(override_entries(child) =~= Seq::<Entry>::empty());
    assert(before_entries(child) =~= Seq::<Entry>::empty());
    assert(after_entries(child) =~= Seq::<Entry>::empty());
    lemma_filter_all_or_none(base, kept_pred(child));
    let r = kept(base, child);
    assert(r == base);
    assert forall|t: Seq<char>| #![auto] Seq::<Entry>::empty().filter(key_is(t)) == Seq::<Entry>::empty() by {
        lemma_filter_all_or_none(Seq::<Entry>::empty(), key_is(t));
    }
    assert forall|k: int| 0 <= k < r.len() implies #[trigger] hook_block(r, child, k) == seq![r[k]] by {
        let key = step_key(r[k]);
        lemma_filter_all_or_none(Seq::<Entry>::empty(), key_is(key));
        assert(entry_steps(Seq::<Entry>::empty()) =~= Seq::<StepDto>::empty());
        if r[k].id is Some {
            lemma_filter_all_or_none(Seq::<Entry>::empty(), key_is(r[k].id->0@));
            assert(overrides_for(child, r[k].id->0@).len() == 0);
        }
        assert(overridden_at(r, child, k) == r[k]);
        assert(Seq::<StepDto>::empty() + seq![r[k]] + Seq::<StepDto>::empty() =~= seq![r[k]]);
    }
    assert(Seq::new(r.len(), |k: int| hook_block(r, child, k)) =~= Seq::new(r.len(), |k: int| seq![r[k]]));
    lemma_flatten_singletons(r);
}

// ── Specification: merging defaults ─────────────────────────────────────────

/// The child's provider block on top of the base's.
pub open spec fn merged_provider(b: Option<ProviderDto>, c: Option<ProviderDto>) -> Option<ProviderDto> {
    match (b, c) {
        (None, None) => None,
        (Some(bp), None) => Some(bp),
        (None, Some(cp)) => Some(cp),
        (Some(bp), Some(cp)) => Some(
            ProviderDto {
                model: or_else(cp.model, bp.model),
                base_url: or_else(cp.base_url, bp.base_url),
                auth_token: or_else(cp.auth_token, bp.auth_token),
                connect_timeout_seconds: or_else(cp.connect_timeout_seconds, bp.connect_timeout_seconds),
                read_timeout_seconds: or_else(cp.read_timeout_seconds, bp.read_timeout_seconds),
                max_history_messages: or_else(cp.max_history_messages, bp.max_history_messages),
            },
        ),
    }
}

/// The child's `defaults:` on top of the base's: the child wins field by field.
pub open spec fn merged_defaults(b: Option<DefaultsDto>, c: Option<DefaultsDto>) -> Option<DefaultsDto> {
    match (b, c) {
        (None, None) => None,
        (Some(bd), None) => Some(bd),
        (None, Some(cd)) => Some(cd),
        (Some(bd), Some(cd)) => Some(
            DefaultsDto {
                model: or_else(cd.model, bd.model),
                provider: merged_provider(bd.provider, cd.provider),
                timeout_seconds: or_else(cd.timeout_seconds, bd.timeout_seconds),
                tools: or_else(cd.tools, bd.tools),
                max_concurrency: or_else(cd.max_concurrency, bd.max_concurrency),
            },
        ),
    }
}

// ── Specification: the inheritance chain ────────────────────────────────────

/// The strings of `s` joined by `sep`.
pub open spec fn joined(s: Seq<Seq<char>>, sep: Seq<char>) -> Seq<char>
    decreases s.len(),
{
    if s.len() == 0 {
        Seq::empty()
    } else if s.len() == 1 {
        s[0]
    } else {
        joined(s.drop_last(), sep) + sep + s.last()
    }
}

/// The message for a chain that comes back to `path`.
pub open spec fn cycle_chain_message(chain: Seq<Seq<char>>, path: Seq<char>) -> Seq<char> {
    "circular inheritance detected\n  "@ + joined(chain.push(path), " \u{2192} "@)
        + "\n  ail cannot resolve a pipeline that inherits from itself."@
}

// ── Specification: hook operations ──────────────────────────────────────────

/// The number of hook operations a step declares.
pub open spec fn hook_count(d: StepDto) -> nat {
    (if d.run_before is Some { 1nat } else { 0nat }) + (if d.run_after is Some { 1nat } else { 0nat })
        + (if d.override_step is Some { 1nat } else { 0nat }) + (if d.disable is Some { 1nat } else { 0nat })
}

/// A `disable:` step.
pub open spec fn is_disable(d: StepDto) -> bool {
    d.disable is Some
}

/// An `override:` step.
pub open spec fn is_override(d: StepDto) -> bool {
    d.disable is None && d.override_step is Some
}

/// A `run_before:` step.
pub open spec fn is_before(d: StepDto) -> bool {
    d.disable is None && d.override_step is None && d.run_before is Some
}

/// A `run_after:` step.
pub open spec fn is_after(d: StepDto) -> bool {
    d.disable is None && d.override_step is None && d.run_before is None && d.run_after is Some
}

/// A step without hook operation.
pub open spec fn is_plain(d: StepDto) -> bool {
    hook_count(d) == 0
}

pub open spec fn disable_pred() -> spec_fn(StepDto) -> bool {
    |d: StepDto| is_disable(d)
}

pub open spec fn override_pred() -> spec_fn(StepDto) -> bool {
    |d: StepDto| is_override(d)
}

pub open spec fn before_pred() -> spec_fn(StepDto) -> bool {
    |d: StepDto| is_before(d)
}

pub open spec fn after_pred() -> spec_fn(StepDto) -> bool {
    |d: StepDto| is_after(d)
}

pub open spec fn plain_pred() -> spec_fn(StepDto) -> bool {
    |d: StepDto| is_plain(d)
}

pub open spec fn has_id_pred() -> spec_fn(StepDto) -> bool {
    |d: StepDto| d.id is Some
}

/// The targets of the child's `disable:` steps, in order.
pub open spec fn disable_targets(child: Seq<StepDto>) -> Seq<Seq<char>> {
    child.filter(disable_pred()).map_values(|d: StepDto| d.disable->0@)
}

/// The ids the base declares, in order.
pub open spec fn base_ids(base: Seq<StepDto>) -> Seq<Seq<char>> {
    base.filter(has_id_pred()).map_values(|d: StepDto| d.id->0@)
}

/// Every target names a base step, once per operation.
pub open spec fn targets_valid(base: Seq<StepDto>, targets: Seq<Seq<char>>) -> bool {
    &&& forall|k: int| 0 <= k < targets.len() ==> base_ids(base).contains(#[trigger] targets[k])
    &&& targets.no_duplicates()
}

/// The keys of entries.
pub open spec fn entry_keys(s: Seq<Entry>) -> Seq<Seq<char>> {
    s.map_values(|e: Entry| e.0)
}

/// The child's hook operations can be applied to the base: one operation
/// per step, every target a base step id, no operation twice on a target,
/// and no `override:` that changes its target's id.
pub open spec fn hooks_valid(base: Seq<StepDto>, child: Seq<StepDto>) -> bool {
    &&& forall|k: int| 0 <= k < child.len() ==> hook_count(#[trigger] child[k]) <= 1
    &&& targets_valid(base, disable_targets(child))
    &&& targets_valid(base, entry_keys(override_entries(child)))
    &&& targets_valid(base, entry_keys(before_entries(child)))
    &&& targets_valid(base, entry_keys(after_entries(child)))
    &&& forall|k: int| 0 <= k < override_entries(child).len() ==> keeps_key(#[trigger] override_entries(child)[k])
}

/// A keyed step that has an id has its key as id.
pub open spec fn keeps_key(e: Entry) -> bool {
    e.1.id is Some ==> e.1.id->0@ == e.0
}

/// A hook step keyed by its target.
pub type Entry = (Seq<char>, StepDto);

/// The entries whose key is `t`.
pub open spec fn key_is(t: Seq<char>) -> spec_fn(Entry) -> bool {
    |e: Entry| e.0 == t
}

/// The entries whose key is not among `used`.
pub open spec fn key_unused(used: Seq<Seq<char>>) -> spec_fn(Entry) -> bool {
    |e: Entry| !used.contains(e.0)
}

/// The steps of entries.
pub open spec fn entry_steps(s: Seq<Entry>) -> Seq<StepDto> {
    s.map_values(|e: Entry| e.1)
}

/// An `override:` step as it replaces its target: the target's id when it
/// has none, and no hook field.
pub open spec fn applied_override(d: StepDto) -> StepDto {
    StepDto {
        id: if d.id is None {
            d.override_step
        } else {
            d.id
        },
        override_step: None,
        ..d
    }
}

/// Override entries keyed by target.
pub open spec fn override_entries(child: Seq<StepDto>) -> Seq<Entry> {
    child.filter(override_pred()).map_values(|d: StepDto| (d.override_step->0@, applied_override(d)))
}

/// `run_before` entries keyed by target, hook field cleared.
pub open spec fn before_entries(child: Seq<StepDto>) -> Seq<Entry> {
    child.filter(before_pred()).map_values(|d: StepDto| (d.run_before->0@, StepDto { run_before: None, ..d }))
}

/// `run_after` entries keyed by target, hook field cleared.
pub open spec fn after_entries(child: Seq<StepDto>) -> Seq<Entry> {
    child.filter(after_pred()).map_values(|d: StepDto| (d.run_after->0@, StepDto { run_after: None, ..d }))
}

/// The key a step is found by: its id, or the empty string.
pub open spec fn step_key(d: StepDto) -> Seq<char> {
    match d.id {
        Some(x) => x@,
        None => Seq::empty(),
    }
}

/// The base step is removed by a `disable:`.
pub open spec fn is_disabled(child: Seq<StepDto>, d: StepDto) -> bool {
    d.id is Some && disable_targets(child).contains(d.id->0@)
}

pub open spec fn kept_pred(child: Seq<StepDto>) -> spec_fn(StepDto) -> bool {
    |d: StepDto| !is_disabled(child, d)
}

/// The base steps that no `disable:` removes.
pub open spec fn kept(base: Seq<StepDto>, child: Seq<StepDto>) -> Seq<StepDto> {
    base.filter(kept_pred(child))
}

/// The keys of steps.
pub open spec fn keys(r: Seq<StepDto>) -> Seq<Seq<char>> {
    r.map_values(|d: StepDto| step_key(d))
}

/// Step `k` is the first of `r` with its key.
pub open spec fn first_key_at(r: Seq<StepDto>, k: int) -> bool {
    !keys(r.take(k)).contains(step_key(r[k]))
}

/// The overrides aimed at `t`.
pub open spec fn overrides_for(child: Seq<StepDto>, t: Seq<char>) -> Seq<StepDto> {
    entry_steps(override_entries(child).filter(key_is(t)))
}

/// Step `k` is the first of `r` with its id.
pub open spec fn first_id_at(r: Seq<StepDto>, k: int) -> bool {
    r[k].id is Some && !base_ids(r.take(k)).contains(r[k].id->0@)
}

/// Step `k` of the kept steps, after overrides: an override replaces the
/// first step with its target id.
pub open spec fn overridden_at(r: Seq<StepDto>, child: Seq<StepDto>, k: int) -> StepDto {
    if first_id_at(r, k) && overrides_for(child, r[k].id->0@).len() > 0 {
        overrides_for(child, r[k].id->0@)[0]
    } else {
        r[k]
    }
}

/// What step `k` of the kept steps becomes: its `run_before` steps, itself
/// (overridden), its `run_after` steps; hooks go to the first step with the key.
pub open spec fn hook_block(r: Seq<StepDto>, child: Seq<StepDto>, k: int) -> Seq<StepDto> {
    if first_key_at(r, k) {
        entry_steps(before_entries(child).filter(key_is(step_key(r[k])))) + seq![overridden_at(r, child, k)]
            + entry_steps(after_entries(child).filter(key_is(step_key(r[k]))))
    } else {
        seq![overridden_at(r, child, k)]
    }
}

/// The merged steps: the kept base steps with hooks applied, then the
/// child's plain steps.
pub open spec fn hooked(base: Seq<StepDto>, child: Seq<StepDto>) -> Seq<StepDto> {
    let r = kept(base, child);
    Seq::new(r.len(), |k: int| hook_block(r, child, k)).flatten() + child.filter(plain_pred())
}

/// The message for a step with several hook operations.
pub open spec fn multi_hook_message(d: StepDto) -> Seq<char> {
    "Step '"@ + (match d.id {
        Some(x) => x@,
        None => "<unnamed>"@,
    }) + "' declares multiple hook operations (run_before, run_after, override, disable); at most one is allowed"@
}

// ── Implementation: hook operations ─────────────────────────────────────────

/// The message for a hook whose target is not a base step id; `ids` are the
/// base ids, sorted, each once.
pub open spec fn missing_target_message(op_name: Seq<char>, target: Seq<char>, child_path: Seq<char>, ids: Seq<Seq<char>>) -> Seq<char> {
    "Hook operation "@ + hook_label_spec(op_name, target, child_path)
        + " targets a step ID that does not exist in the inheritance chain. Valid step IDs: "@ + debug_list(ids)
}

/// `ids` lists the strings of `of`, sorted, each once.
pub open spec fn sorted_set_of(ids: Seq<Seq<char>>, of: Seq<Seq<char>>) -> bool {
    strictly_sorted(ids) && forall|x: Seq<char>| ids.contains(x) <==> of.contains(x)
}


/// The entries of keyed steps, keys by view.
pub open spec fn entry_views(v: Seq<(String, StepDto)>) -> Seq<Entry> {
    v.map_values(|p: (String, StepDto)| (p.0@, p.1))
}

/// Taking the entries of key `t` out of those whose keys are not in `used`
/// leaves those whose keys are in neither; when `t` was unused, the entries
/// taken are all entries of key `t`.
proof fn lemma_take_step(all: Seq<Entry>, used: Seq<Seq<char>>, t: Seq<char>)
    ensures
        all.filter(key_unused(used)).filter(key_unused(seq![t])) == all.filter(key_unused(used.push(t))),
        !used.contains(t) ==> all.filter(key_unused(used)).filter(key_is(t)) == all.filter(key_is(t)),
{
    lemma_filter_filter(all, key_unused(used), key_unused(seq![t]));
    assert forall|e: Entry| (key_unused(used)(e) && key_unused(seq![t])(e)) == #[trigger] key_unused(
        used.push(t),
    )(e) by {
        assert(seq![t][0] == t);
        if used.push(t).contains(e.0) {
            let j = choose|j: int| 0 <= j < used.push(t).len() && used.push(t)[j] == e.0;
            if j < used.len() {
                assert(used[j] == e.0);
            }
        }
        if used.contains(e.0) {
            let j = choose|j: int| 0 <= j < used.len() && used[j] == e.0;
            assert(used.push(t)[j] == e.0);
        }
        if e.0 == t {
            assert(used.push(t)[used.len() as int] == e.0);
        }
    }
    lemma_filter_same(
        all,
        |x: Entry| key_unused(used)(x) && key_unused(seq![t])(x),
        key_unused(used.push(t)),
    );
    if !used.contains(t) {
        lemma_filter_filter(all, key_unused(used), key_is(t));
        lemma_filter_same(all, |x: Entry| key_unused(used)(x) && key_is(t)(x), key_is(t));
    }
}

/// Split keyed steps into the steps of key `t`, in order, and the other entries.
fn take_entries(v: Vec<(String, StepDto)>, t: &str) -> (r: (Vec<StepDto>, Vec<(String, StepDto)>))
    ensures
        r.0@ == entry_steps(entry_views(v@).filter(key_is(t@))),
        entry_views(r.1@) == entry_views(v@).filter(key_unused(seq![t@])),
{
    let ghost vs = v@;
    let n = v.len();
    assert(vs.len() == n);
    let mut taken: Vec<StepDto> = Vec::new();
    let mut rest: Vec<(String, StepDto)> = Vec::new();
    let mut i: usize = 0;
    proof {
        reveal(Seq::filter);
        assert(entry_views(vs.take(0)) =~= Seq::<Entry>::empty());
    }
    for e in it: v
        invariant
            it.seq() == vs,
            vs.len() <= usize::MAX,
            i == it.index(),
            i <= vs.len(),
            taken@ == entry_steps(entry_views(vs.take(i as int)).filter(key_is(t@))),
            entry_views(rest@) == entry_views(vs.take(i as int)).filter(key_unused(seq![t@])),
    {
        let ghost ev = entry_views(vs.take(i as int));
        assert(e == vs[i as int]);
        assert(entry_views(vs.take(i + 1)) =~= ev.push((e.0@, e.1)));
        proof {
            ev.lemma_filter_push((e.0@, e.1), key_is(t@));
            ev.lemma_filter_push((e.0@, e.1), key_unused(seq![t@]));
            assert(seq![t@][0] == t@);
            assert(seq![t@].contains(e.0@) <==> e.0@ == t@);
        }
        let (k, st) = e;
        if str_eq(k.as_str(), t) {
            let ghost before = taken@;
            taken.push(st);
            assert(taken@ =~= entry_steps(ev.filter(key_is(t@)).push((k@, st))));
        } else {
            let ghost before = rest@;
            rest.push((k, st));
            assert(entry_views(rest@) =~= entry_views(before).push((k@, st)));
        }
        i += 1;
    }
    assert(vs.take(vs.len() as int) =~= vs);
    (taken, rest)
}

/// "'<op>: <target>' in '<path>'".
pub open spec fn hook_label_spec(op_name: Seq<char>, target: Seq<char>, child_path: Seq<char>) -> Seq<char> {
    "'"@ + op_name + ": "@ + target + "' in '"@ + child_path + "'"@
}

/// The message for an operation given twice on one target.
pub open spec fn duplicate_hook_message(op_name: Seq<char>, target: Seq<char>, child_path: Seq<char>) -> Seq<char> {
    "Duplicate hook operation "@ + hook_label_spec(op_name, target, child_path) + " -- use sequential steps instead"@
}

/// `d` is the message refusing hook operation `op_name` on `target`: the
/// target is not a base step id (the message lists the base ids, sorted), or
/// the operation was already given on it.
pub open spec fn hook_refusal(op_name: Seq<char>, target: Seq<char>, child_path: Seq<char>, base: Seq<Seq<char>>, d: Seq<char>) -> bool {
    ||| !base.contains(target) && exists|ids: Seq<Seq<char>>|
        sorted_set_of(ids, base) && d == #[trigger] missing_target_message(op_name, target, child_path, ids)
    ||| base.contains(target) && d == duplicate_hook_message(op_name, target, child_path)
}

/// The message for an `override:` whose step declares another id.
pub open spec fn override_id_message(target: Seq<char>, id: Seq<char>) -> Seq<char> {
    "override: "@ + target + " declares id '"@ + id
        + "' which differs from the target step ID -- override must not change the step ID"@
}

fn hook_label(op_name: &str, target: &str, child_path: &str) -> (s: String)
    ensures
        s@ == hook_label_spec(op_name@, target@, child_path@),
{
    let mut s = String::from_str("'");
    s.append(op_name);
    s.append(": ");
    s.append(target);
    s.append("' in '");
    s.append(child_path);
    s.append("'");
    s
}

/// Fail when `target` is not among the base's step ids.
pub fn validate_hook_target(target: &str, op_name: &str, base_ids: &Vec<String>, child_path: &str) -> (r: Result<(), AilError>)
    ensures
        r is Ok <==> views(base_ids@).contains(target@),
        r matches Err(e) ==> e.kind() == ErrorKind::ConfigValidationFailed && e.context_value() is None
            && exists|ids: Seq<Seq<char>>|
            sorted_set_of(ids, views(base_ids@)) && e.detail_view() == missing_target_message(
                op_name@,
                target@,
                child_path@,
                ids,
            ),
{
    if contains_string(base_ids, target) {
        return Ok(());
    }
    let sorted = sorted_unique(base_ids);
    let mut d = String::from_str("Hook operation ");
    d.append(hook_label(op_name, target, child_path).as_str());
    d.append(" targets a step ID that does not exist in the inheritance chain. Valid step IDs: ");
    d.append(debug_strings(&sorted).as_str());
    let e = AilError::ConfigValidationFailed { detail: d, context: None };
    assert(sorted_set_of(views(sorted@), views(base_ids@)));
    assert(e.detail_view() == missing_target_message(op_name@, target@, child_path@, views(sorted@)));
    Err(e)
}

/// Fail when `targets[j]` already occurred before position `j`.
pub fn check_duplicate_hook(targets: &Vec<String>, j: usize, op_name: &str, child_path: &str) -> (r: Result<(), AilError>)
    requires
        j < targets.len(),
    ensures
        r is Ok <==> !views(targets@).take(j as int).contains(targets@[j as int]@),
        r matches Err(e) ==> e.is_fresh(
            ErrorKind::ConfigValidationFailed,
            duplicate_hook_message(op_name@, targets@[j as int]@, child_path@),
        ),
{
    let mut i: usize = 0;
    while i < j
        invariant
            j < targets.len(),
            i <= j,
            forall|k: int| 0 <= k < i ==> (#[trigger] targets@[k])@ != targets@[j as int]@,
        decreases j - i,
    {
        if str_eq(targets[i].as_str(), targets[j].as_str()) {
            assert(views(targets@).take(j as int)[i as int] == targets@[j as int]@);
            let mut d = String::from_str("Duplicate hook operation ");
            d.append(hook_label(op_name, targets[j].as_str(), child_path).as_str());
            d.append(" -- use sequential steps instead");
            return Err(AilError::ConfigValidationFailed { detail: d, context: None });
        }
        i += 1;
    }
    assert forall|k: int| 0 <= k < j implies views(targets@).take(j as int)[k] != targets@[j as int]@ by {
        assert(targets@[k]@ != targets@[j as int]@);
    }
    Ok(())
}

/// The keys of keyed steps.
fn entry_key_strings(v: &Vec<(String, StepDto)>) -> (r: Vec<String>)
    ensures
        r.len() == v.len(),
        views(r@) == entry_keys(entry_views(v@)),
{
    let mut r: Vec<String> = Vec::new();
    let mut i: usize = 0;
    while i < v.len()
        invariant
            i <= v.len(),
            r.len() == i,
            forall|k: int| 0 <= k < i ==> (#[trigger] r@[k])@ == v@[k].0@,
        decreases v.len() - i,
    {
        r.push(v[i].0.clone());
        i += 1;
    }
    assert(views(r@) =~= entry_keys(entry_views(v@)));
    r
}

/// Check targets of one operation: each a base id, none twice.
fn check_targets(targets: &Vec<String>, op_name: &str, base_ids: &Vec<String>, child_path: &str) -> (r: Result<(), AilError>)
    ensures
        r is Ok <==> (forall|k: int| 0 <= k < targets.len() ==> views(base_ids@).contains(#[trigger] views(targets@)[k]))
            && views(targets@).no_duplicates(),
        r matches Err(e) ==> e.kind() == ErrorKind::ConfigValidationFailed && e.context_value() is None,
        r matches Err(e) ==> exists|j: int|
            0 <= j < targets.len() && hook_refusal(op_name@, #[trigger] views(targets@)[j], child_path@, views(base_ids@), e.detail_view()),
{
    let ghost tv = views(targets@);
    let mut j: usize = 0;
    while j < targets.len()
        invariant
            j <= targets.len(),
            tv == views(targets@),
            forall|k: int| 0 <= k < j ==> views(base_ids@).contains(#[trigger] tv[k]),
            forall|a: int, b: int| 0 <= a < b < j ==> tv[a] != tv[b],
        decreases targets.len() - j,
    {
        match validate_hook_target(targets[j].as_str(), op_name, base_ids, child_path) {
            Ok(()) => {},
            Err(e) => {
                assert(tv[j as int] == targets@[j as int]@);
                assert(!views(base_ids@).contains(tv[j as int]));
                return Err(e);
            },
        }
        match check_duplicate_hook(targets, j, op_name, child_path) {
            Ok(()) => {},
            Err(e) => {
                proof {
                    let k = choose|k: int| 0 <= k < j && tv.take(j as int)[k] == targets@[j as int]@;
                    assert(tv[k] == tv[j as int]);
                }
                return Err(e);
            },
        }
        assert forall|a: int| 0 <= a < j implies tv[a] != tv[j as int] by {
            assert(tv.take(j as int)[a] == tv[a]);
        }
        j += 1;
    }
    Ok(())
}

/// Check keyed hook steps of one operation: each key a base id, none twice,
/// and, with `check_ids`, no step whose id differs from its key.
fn check_entries(entries: &Vec<(String, StepDto)>, op_name: &str, check_ids: bool, base_ids: &Vec<String>, child_path: &str) -> (r: Result<(), AilError>)
    ensures
        r is Ok <==> (forall|k: int|
            0 <= k < entries.len() ==> views(base_ids@).contains(#[trigger] entry_keys(entry_views(entries@))[k]))
            && entry_keys(entry_views(entries@)).no_duplicates() && (check_ids ==> forall|k: int|
            0 <= k < entries.len() ==> keeps_key(#[trigger] entry_views(entries@)[k])),
        r matches Err(e) ==> e.kind() == ErrorKind::ConfigValidationFailed && e.context_value() is None,
        r matches Err(e) ==> exists|j: int|
            0 <= j < entries.len() && (hook_refusal(
                op_name@,
                #[trigger] entry_keys(entry_views(entries@))[j],
                child_path@,
                views(base_ids@),
                e.detail_view(),
            ) || (entries@[j].1.id matches Some(x) && e.detail_view() == override_id_message(entry_keys(entry_views(entries@))[j], x@))),
{
    let keys = entry_key_strings(entries);
    let ghost ev = entry_views(entries@);
    let ghost tv = views(keys@);
    let mut j: usize = 0;
    while j < entries.len()
        invariant
            j <= entries.len(),
            keys.len() == entries.len(),
            ev == entry_views(entries@),
            tv == views(keys@),
            tv == entry_keys(ev),
            forall|k: int| 0 <= k < j ==> views(base_ids@).contains(#[trigger] tv[k]),
            forall|a: int, b: int| 0 <= a < b < j ==> tv[a] != tv[b],
            check_ids ==> forall|k: int| 0 <= k < j ==> keeps_key(#[trigger] ev[k]),
        decreases entries.len() - j,
    {
        assert(tv[j as int] == keys@[j as int]@);
        match validate_hook_target(keys[j].as_str(), op_name, base_ids, child_path) {
            Ok(()) => {},
            Err(e) => {
                return Err(e);
            },
        }
        match check_duplicate_hook(&keys, j, op_name, child_path) {
            Ok(()) => {},
            Err(e) => {
                proof {
                    let k = choose|k: int| 0 <= k < j && tv.take(j as int)[k] == keys@[j as int]@;
                    assert(tv[k] == tv[j as int]);
                }
                return Err(e);
            },
        }
        assert forall|a: int| 0 <= a < j implies tv[a] != tv[j as int] by {
            assert(tv.take(j as int)[a] == tv[a]);
        }
        if check_ids {
            if let Some(id) = &entries[j].1.id {
                if !str_eq(id.as_str(), keys[j].as_str()) {
                    assert(!keeps_key(ev[j as int]));
                    let mut d = String::from_str("override: ");
                    d.append(keys[j].as_str());
                    d.append(" declares id '");
                    d.append(id.as_str());
                    d.append("' which differs from the target step ID -- override must not change the step ID");
                    return Err(AilError::ConfigValidationFailed { detail: d, context: None });
                }
            }
            assert(keeps_key(ev[j as int]));
        }
        j += 1;
    }
    Ok(())
}

/// Filtering by unused keys ignores a key that was already used.
proof fn lemma_unused_again(all: Seq<Entry>, used: Seq<Seq<char>>, t: Seq<char>)
    requires
        used.contains(t),
    ensures
        all.filter(key_unused(used.push(t))) == all.filter(key_unused(used)),
{
    assert forall|e: Entry| #[trigger] key_unused(used.push(t))(e) == key_unused(used)(e) by {
        if used.push(t).contains(e.0) {
            let j = choose|j: int| 0 <= j < used.push(t).len() && used.push(t)[j] == e.0;
            if j < used.len() {
                assert(used[j] == e.0);
            }
        }
        if used.contains(e.0) {
            let j = choose|j: int| 0 <= j < used.len() && used[j] == e.0;
            assert(used.push(t)[j] == e.0);
        }
    }
    lemma_filter_same(all, key_unused(used.push(t)), key_unused(used));
}

/// Apply the child's hook operations to the base steps: `disable:` removes
/// the target, `override:` replaces it, `run_before:`/`run_after:` insert
/// around it (the child's hooks outermost), and the child's plain steps come
/// last. `child_path` names the child file in error messages.
pub fn apply_hooks(base_steps: Vec<StepDto>, child_steps: Vec<StepDto>, child_path: &str) -> (r: Result<Vec<StepDto>, AilError>)
    ensures
        match r {
            Ok(v) => hooks_valid(base_steps@, child_steps@) && v@ == hooked(base_steps@, child_steps@),
            Err(e) => !hooks_valid(base_steps@, child_steps@) && e.kind() == ErrorKind::ConfigValidationFailed
                && e.context_value() is None,
        },
        forall|k: int|
            0 <= k < child_steps.len() && hook_count(#[trigger] child_steps@[k]) > 1 && (forall|j: int|
                0 <= j < k ==> hook_count(child_steps@[j]) <= 1) ==> (r matches Err(e) && e.detail_view()
                == multi_hook_message(child_steps@[k])),
        r matches Err(e) ==> {
            ||| exists|k: int| 0 <= k < child_steps.len() && e.detail_view() == multi_hook_message(#[trigger] child_steps@[k])
            ||| exists|op: Seq<char>, t: Seq<char>| #[trigger] hook_refusal(op, t, child_path@, base_ids(base_steps@), e.detail_view())
            ||| exists|t: Seq<char>, x: Seq<char>| e.detail_view() == #[trigger] override_id_message(t, x)
        },
{
    let ghost b = base_steps@;
    let ghost c = child_steps@;
    let nc = child_steps.len();
    assert(c.len() == nc);
    let mut disables: Vec<String> = Vec::new();
    let mut overrides: Vec<(String, StepDto)> = Vec::new();
    let mut befores: Vec<(String, StepDto)> = Vec::new();
    let mut afters: Vec<(String, StepDto)> = Vec::new();
    let mut plain: Vec<StepDto> = Vec::new();
    let mut i: usize = 0;
    proof {
        reveal(Seq::filter);
        assert(c.take(0) =~= Seq::<StepDto>::empty());
        assert(disable_targets(c.take(0)) =~= Seq::<Seq<char>>::empty());
        assert(override_entries(c.take(0)) =~= Seq::<Entry>::empty());
        assert(before_entries(c.take(0)) =~= Seq::<Entry>::empty());
        assert(after_entries(c.take(0)) =~= Seq::<Entry>::empty());
        assert(views(disables@) =~= Seq::<Seq<char>>::empty());
        assert(entry_views(overrides@) =~= Seq::<Entry>::empty());
    }
    for step in it: child_steps
        invariant
            it.seq() == c,
            c.len() == nc,
            i == it.index(),
            i <= nc,
            forall|k: int| 0 <= k < i ==> hook_count(#[trigger] c[k]) <= 1,
            views(disables@) == disable_targets(c.take(i as int)),
            entry_views(overrides@) == override_entries(c.take(i as int)),
            entry_views(befores@) == before_entries(c.take(i as int)),
            entry_views(afters@) == after_entries(c.take(i as int)),
            plain@ == c.take(i as int).filter(plain_pred()),
    {
        let ghost ct = c.take(i as int);
        assert(step == c[i as int]);
        assert(c.take(i + 1) =~= ct.push(step));
        proof {
            ct.lemma_filter_push(step, disable_pred());
            ct.lemma_filter_push(step, override_pred());
            ct.lemma_filter_push(step, before_pred());
            ct.lemma_filter_push(step, after_pred());
            ct.lemma_filter_push(step, plain_pred());
        }
        let mut n: usize = 0;
        if step.run_before.is_some() {
            n += 1;
        }
        if step.run_after.is_some() {
            n += 1;
        }
        if step.override_step.is_some() {
            n += 1;
        }
        if step.disable.is_some() {
            n += 1;
        }
        assert(n == hook_count(step));
        if n > 1 {
            let mut d = String::from_str("Step '");
            match &step.id {
                Some(id) => d.append(id.as_str()),
                None => d.append("<unnamed>"),
            }
            d.append("' declares multiple hook operations (run_before, run_after, override, disable); at most one is allowed");
            assert(!hooks_valid(b, c)) by {
                assert(hook_count(c[i as int]) > 1);
            }
            return Err(AilError::ConfigValidationFailed { detail: d, context: None });
        }
        if step.disable.is_some() {
            let t = match &step.disable {
                Some(t) => t.clone(),
                None => String::new(),
            };
            let ghost old = disables@;
            disables.push(t);
            assert(views(disables@) =~= views(old).push(step.disable->0@));
            assert(disable_targets(c.take(i + 1)) =~= disable_targets(ct).push(step.disable->0@));
        } else if step.override_step.is_some() {
            let mut st = step;
            let target = st.override_step.take();
            if let Some(t) = target {
                let key = t.clone();
                if st.id.is_none() {
                    st.id = Some(t);
                }
                assert(st == applied_override(step));
                let ghost old = overrides@;
                overrides.push((key, st));
                assert(entry_views(overrides@) =~= entry_views(old).push((step.override_step->0@, applied_override(step))));
                assert(override_entries(c.take(i + 1)) =~= override_entries(ct).push(
                    (step.override_step->0@, applied_override(step)),
                ));
            }
        } else if step.run_before.is_some() {
            let mut st = step;
            let target = st.run_before.take();
            if let Some(t) = target {
                let ghost old = befores@;
                befores.push((t, st));
                assert(entry_views(befores@) =~= entry_views(old).push(
                    (step.run_before->0@, StepDto { run_before: None, ..step }),
                ));
                assert(before_entries(c.take(i + 1)) =~= before_entries(ct).push(
                    (step.run_before->0@, StepDto { run_before: None, ..step }),
                ));
            }
        } else if step.run_after.is_some() {
            let mut st = step;
            let target = st.run_after.take();
            if let Some(t) = target {
                let ghost old = afters@;
                afters.push((t, st));
                assert(entry_views(afters@) =~= entry_views(old).push(
                    (step.run_after->0@, StepDto { run_after: None, ..step }),
                ));
                assert(after_entries(c.take(i + 1)) =~= after_entries(ct).push(
                    (step.run_after->0@, StepDto { run_after: None, ..step }),
                ));
            }
        } else {
            plain.push(step);
        }
        i += 1;
    }
    assert(c.take(nc as int) =~= c);
    // The base step ids.
    let mut base_id_list: Vec<String> = Vec::new();
    let mut k: usize = 0;
    proof {
        reveal(Seq::filter);
        assert(base_ids(b.take(0)) =~= Seq::<Seq<char>>::empty());
        assert(views(base_id_list@) =~= Seq::<Seq<char>>::empty());
    }
    while k < base_steps.len()
        invariant
            b == base_steps@,
            k <= b.len(),
            views(base_id_list@) == base_ids(b.take(k as int)),
        decreases b.len() - k,
    {
        let ghost bt = b.take(k as int);
        assert(b.take(k + 1) =~= bt.push(b[k as int]));
        proof {
            bt.lemma_filter_push(b[k as int], has_id_pred());
        }
        if let Some(id) = &base_steps[k].id {
            let ghost old = base_id_list@;
            base_id_list.push(id.clone());
            assert(views(base_id_list@) =~= views(old).push(id@));
            assert(base_ids(b.take(k + 1)) =~= base_ids(bt).push(id@));
        }
        k += 1;
    }
    assert(b.take(b.len() as int) =~= b);
    // Targets.
    match check_targets(&disables, "disable", &base_id_list, child_path) {
        Ok(()) => {},
        Err(e) => {
            return Err(e);
        },
    }
    match check_entries(&overrides, "override", true, &base_id_list, child_path) {
        Ok(()) => {},
        Err(e) => {
            return Err(e);
        },
    }
    match check_entries(&befores, "run_before", false, &base_id_list, child_path) {
        Ok(()) => {},
        Err(e) => {
            return Err(e);
        },
    }
    match check_entries(&afters, "run_after", false, &base_id_list, child_path) {
        Ok(()) => {},
        Err(e) => {
            return Err(e);
        },
    }
    assert(hooks_valid(b, c));
    // Drop disabled base steps.
    let mut kept_steps: Vec<StepDto> = Vec::new();
    let mut i: usize = 0;
    let nb = base_steps.len();
    assert(b.len() == nb);
    proof {
        reveal(Seq::filter);
        assert(b.take(0) =~= Seq::<StepDto>::empty());
    }
    for st in it: base_steps
        invariant
            it.seq() == b,
            b.len() == nb,
            i == it.index(),
            i <= nb,
            views(disables@) == disable_targets(c),
            kept_steps@ == b.take(i as int).filter(kept_pred(c)),
    {
        let ghost bt = b.take(i as int);
        assert(st == b[i as int]);
        assert(b.take(i + 1) =~= bt.push(st));
        proof {
            bt.lemma_filter_push(st, kept_pred(c));
        }
        let drop = match &st.id {
            Some(id) => contains_string(&disables, id.as_str()),
            None => false,
        };
        if !drop {
            kept_steps.push(st);
        }
        i += 1;
    }
    assert(b.take(nb as int) =~= b);
    let ghost r = kept_steps@;
    assert(r == kept(b, c));
    // Overrides and insertions around each kept step.
    let mut rem_o = overrides;
    let mut rem_b = befores;
    let mut rem_a = afters;
    let mut used_ids: Vec<String> = Vec::new();
    let mut used_keys: Vec<String> = Vec::new();
    let mut out: Vec<StepDto> = Vec::new();
    let mut k: usize = 0;
    let nr = kept_steps.len();
    assert(r.len() == nr);
    proof {
        reveal(Seq::filter);
        assert(r.take(0) =~= Seq::<StepDto>::empty());
        assert(base_ids(r.take(0)) =~= Seq::<Seq<char>>::empty());
        assert(keys(r.take(0)) =~= Seq::<Seq<char>>::empty());
        assert(views(used_ids@) =~= Seq::<Seq<char>>::empty());
        assert(views(used_keys@) =~= Seq::<Seq<char>>::empty());
        lemma_filter_same(override_entries(c), key_unused(Seq::empty()), |e: Entry| true);
        lemma_filter_same(before_entries(c), key_unused(Seq::empty()), |e: Entry| true);
        lemma_filter_same(after_entries(c), key_unused(Seq::empty()), |e: Entry| true);
        lemma_filter_true(override_entries(c));
        lemma_filter_true(before_entries(c));
        lemma_filter_true(after_entries(c));
        assert(Seq::new(0, |j: int| hook_block(r, c, j)) =~= Seq::<Seq<StepDto>>::empty());
        assert(out@ =~= Seq::new(0, |j: int| hook_block(r, c, j)).flatten());
    }
    for st in it: kept_steps
        invariant
            it.seq() == r,
            r.len() == nr,
            k == it.index(),
            k <= nr,
            views(used_ids@) == base_ids(r.take(k as int)),
            views(used_keys@) == keys(r.take(k as int)),
            entry_views(rem_o@) == override_entries(c).filter(key_unused(base_ids(r.take(k as int)))),
            entry_views(rem_b@) == before_entries(c).filter(key_unused(keys(r.take(k as int)))),
            entry_views(rem_a@) == after_entries(c).filter(key_unused(keys(r.take(k as int)))),
            out@ == Seq::new(k as nat, |j: int| hook_block(r, c, j)).flatten(),
    {
        let ghost rt = r.take(k as int);
        assert(st == r[k as int]);
        assert(r.take(k + 1) =~= rt.push(st));
        assert(r.take(k as int) =~= rt);
        proof {
            rt.lemma_filter_push(st, has_id_pred());
            assert(keys(r.take(k + 1)) =~= keys(rt).push(step_key(st)));
        }
        let id_opt = clone_opt(&st.id);
        let mut step = st;
        if let Some(id) = &id_opt {
            assert(base_ids(r.take(k + 1)) =~= base_ids(rt).push(id@));
            if !contains_string(&used_ids, id.as_str()) {
                proof {
                    lemma_take_step(override_entries(c), base_ids(rt), id@);
                }
                let (ov, rest) = take_entries(rem_o, id.as_str());
                rem_o = rest;
                assert(first_id_at(r, k as int));
                assert(ov@ == overrides_for(c, id@));
                if ov.len() > 0 {
                    let mut ov = ov;
                    step = ov.remove(0);
                }
                assert(step == overridden_at(r, c, k as int));
            } else {
                proof {
                    lemma_unused_again(override_entries(c), base_ids(rt), id@);
                }
                assert(!first_id_at(r, k as int));
                assert(step == overridden_at(r, c, k as int));
            }
            let ghost old = used_ids@;
            used_ids.push(id.clone());
            assert(views(used_ids@) =~= views(old).push(id@));
        } else {
            assert(base_ids(r.take(k + 1)) =~= base_ids(rt));
            assert(step == overridden_at(r, c, k as int));
        }
        let key = match &id_opt {
            Some(x) => x.clone(),
            None => String::new(),
        };
        assert(key@ == step_key(r[k as int]));
        let ghost out0 = out@;
        proof {
            Seq::new(k as nat, |j: int| hook_block(r, c, j)).lemma_flatten_push(hook_block(r, c, k as int));
            assert(Seq::new((k + 1) as nat, |j: int| hook_block(r, c, j)) =~= Seq::new(
                k as nat,
                |j: int| hook_block(r, c, j),
            ).push(hook_block(r, c, k as int)));
        }
        if !contains_string(&used_keys, key.as_str()) {
            assert(first_key_at(r, k as int));
            proof {
                lemma_take_step(before_entries(c), keys(rt), key@);
                lemma_take_step(after_entries(c), keys(rt), key@);
            }
            let (mut bs, rb) = take_entries(rem_b, key.as_str());
            rem_b = rb;
            let (mut as_, ra) = take_entries(rem_a, key.as_str());
            rem_a = ra;
            out.append(&mut bs);
            out.push(step);
            out.append(&mut as_);
            assert(out@ =~= out0 + hook_block(r, c, k as int));
            let ghost old = used_keys@;
            used_keys.push(key);
            assert(views(used_keys@) =~= views(old).push(step_key(r[k as int])));
        } else {
            assert(!first_key_at(r, k as int));
            proof {
                lemma_unused_again(before_entries(c), keys(rt), key@);
                lemma_unused_again(after_entries(c), keys(rt), key@);
            }
            out.push(step);
            assert(out@ =~= out0 + hook_block(r, c, k as int));
            let ghost old = used_keys@;
            used_keys.push(key);
            assert(views(used_keys@) =~= views(old).push(step_key(r[k as int])));
        }
        k += 1;
    }
    assert(Seq::new(nr as nat, |j: int| hook_block(r, c, j)) =~= Seq::new(r.len(), |j: int| hook_block(r, c, j)));
    out.append(&mut plain);
    Ok(out)
}

/// Filtering by a predicate that always holds keeps everything.
proof fn lemma_filter_true<A>(s: Seq<A>)
    ensures
        s.filter(|x: A| true) == s,
    decreases s.len(),
{
    reveal(Seq::filter);
    if s.len() > 0 {
        lemma_filter_true(s.drop_last());
        assert(s.drop_last().push(s.last()) =~= s);
    }
}

// ── Implementation: merging ─────────────────────────────────────────────────

fn or_else_opt<T>(c: Option<T>, b: Option<T>) -> (r: Option<T>)
    ensures
        r == or_else(c, b),
{
    match c {
        Some(x) => Some(x),
        None => b,
    }
}

/// Merge `defaults:` blocks; the child's values win over the base's.
pub fn merge_defaults(base: Option<DefaultsDto>, child: Option<DefaultsDto>) -> (r: Option<DefaultsDto>)
    ensures
        r == merged_defaults(base, child),
{
    match (base, child) {
        (None, None) => None,
        (Some(b), None) => Some(b),
        (None, Some(c)) => Some(c),
        (Some(b), Some(c)) => {
            let provider = match (b.provider, c.provider) {
                (None, None) => None,
                (Some(bp), None) => Some(bp),
                (None, Some(cp)) => Some(cp),
                (Some(bp), Some(cp)) => Some(
                    ProviderDto {
                        model: or_else_opt(cp.model, bp.model),
                        base_url: or_else_opt(cp.base_url, bp.base_url),
                        auth_token: or_else_opt(cp.auth_token, bp.auth_token),
                        connect_timeout_seconds: or_else_opt(cp.connect_timeout_seconds, bp.connect_timeout_seconds),
                        read_timeout_seconds: or_else_opt(cp.read_timeout_seconds, bp.read_timeout_seconds),
                        max_history_messages: or_else_opt(cp.max_history_messages, bp.max_history_messages),
                    },
                ),
            };
            Some(
                DefaultsDto {
                    model: or_else_opt(c.model, b.model),
                    provider,
                    timeout_seconds: or_else_opt(c.timeout_seconds, b.timeout_seconds),
                    tools: or_else_opt(c.tools, b.tools),
                    max_concurrency: or_else_opt(c.max_concurrency, b.max_concurrency),
                },
            )
        },
    }
}

/// Merging defaults along a chain of three files gives the same result
/// whichever pair is merged first.
pub proof fn lemma_merge_defaults_associative(a: Option<DefaultsDto>, b: Option<DefaultsDto>, c: Option<DefaultsDto>)
    ensures
        merged_defaults(merged_defaults(a, b), c) == merged_defaults(a, merged_defaults(b, c)),
{
}

/// A file without `defaults:` inherits its base's unchanged, and a base
/// without them contributes nothing.
pub proof fn lemma_merge_defaults_identity(a: Option<DefaultsDto>)
    ensures
        merged_defaults(a, None) == a,
        merged_defaults(None, a) == a,
{
}

/// `merged` is the child's value when the child sets one, and the base's
/// value otherwise.
pub open spec fn child_wins<T>(merged: Option<T>, child: Option<T>, base: Option<T>) -> bool {
    &&& child matches Some(x) ==> merged == Some(x)
    &&& child is None ==> merged == base
}

/// A field of an optional `defaults:` block (absent when the block is).
pub open spec fn d_model(d: Option<DefaultsDto>) -> Option<String> {
    match d { Some(x) => x.model, None => None }
}

pub open spec fn d_provider(d: Option<DefaultsDto>) -> Option<ProviderDto> {
    match d { Some(x) => x.provider, None => None }
}

pub open spec fn d_timeout(d: Option<DefaultsDto>) -> Option<u64> {
    match d { Some(x) => x.timeout_seconds, None => None }
}

pub open spec fn d_tools(d: Option<DefaultsDto>) -> Option<ToolsDto> {
    match d { Some(x) => x.tools, None => None }
}

pub open spec fn d_max_concurrency(d: Option<DefaultsDto>) -> Option<u64> {
    match d { Some(x) => x.max_concurrency, None => None }
}

/// A field of an optional `provider:` block (absent when the block is).
pub open spec fn p_model(p: Option<ProviderDto>) -> Option<String> {
    match p { Some(x) => x.model, None => None }
}

pub open spec fn p_base_url(p: Option<ProviderDto>) -> Option<String> {
    match p { Some(x) => x.base_url, None => None }
}

pub open spec fn p_auth_token(p: Option<ProviderDto>) -> Option<String> {
    match p { Some(x) => x.auth_token, None => None }
}

pub open spec fn p_connect_timeout(p: Option<ProviderDto>) -> Option<u64> {
    match p { Some(x) => x.connect_timeout_seconds, None => None }
}

pub open spec fn p_read_timeout(p: Option<ProviderDto>) -> Option<u64> {
    match p { Some(x) => x.read_timeout_seconds, None => None }
}

pub open spec fn p_max_history(p: Option<ProviderDto>) -> Option<usize> {
    match p { Some(x) => x.max_history_messages, None => None }
}

/// The child wins on conflict: in the merged `defaults:`, every field the
/// child sets (provider fields included) has the child's value, and every
/// field it leaves unset has the base's; the merged block is absent only
/// when both are.
pub proof fn lemma_merge_defaults_child_wins(b: Option<DefaultsDto>, c: Option<DefaultsDto>)
    ensures
        merged_defaults(b, c) is None <==> (b is None && c is None),
        child_wins(d_model(merged_defaults(b, c)), d_model(c), d_model(b)),
        child_wins(d_timeout(merged_defaults(b, c)), d_timeout(c), d_timeout(b)),
        child_wins(d_tools(merged_defaults(b, c)), d_tools(c), d_tools(b)),
        child_wins(d_max_concurrency(merged_defaults(b, c)), d_max_concurrency(c), d_max_concurrency(b)),
        child_wins(
            p_model(d_provider(merged_defaults(b, c))),
            p_model(d_provider(c)),
            p_model(d_provider(b)),
        ),
        child_wins(
            p_base_url(d_provider(merged_defaults(b, c))),
            p_base_url(d_provider(c)),
            p_base_url(d_provider(b)),
        ),
        child_wins(
            p_auth_token(d_provider(merged_defaults(b, c))),
            p_auth_token(d_provider(c)),
            p_auth_token(d_provider(b)),
        ),
        child_wins(
            p_connect_timeout(d_provider(merged_defaults(b, c))),
            p_connect_timeout(d_provider(c)),
            p_connect_timeout(d_provider(b)),
        ),
        child_wins(
            p_read_timeout(d_provider(merged_defaults(b, c))),
            p_read_timeout(d_provider(c)),
            p_read_timeout(d_provider(b)),
        ),
        child_wins(
            p_max_history(d_provider(merged_defaults(b, c))),
            p_max_history(d_provider(c)),
            p_max_history(d_provider(b)),
        ),
{
}

/// The steps of an optional list.
pub open spec fn steps_or_empty(o: Option<Vec<StepDto>>) -> Seq<StepDto> {
    match o {
        Some(v) => v@,
        None => Seq::empty(),
    }
}

/// Merge a base file and a child file: the child's version and defaults
/// win, the child's hooks apply to the base's steps, `FROM` is consumed and
/// named pipelines are not inherited.
pub fn merge_dtos(base: PipelineFileDto, child: PipelineFileDto, child_path: &str) -> (r: Result<PipelineFileDto, AilError>)
    ensures
        match r {
            Ok(d) => {
                &&& hooks_valid(steps_or_empty(base.pipeline), steps_or_empty(child.pipeline))
                &&& d.version == or_else(child.version, base.version)
                &&& d.from is None
                &&& d.defaults == merged_defaults(base.defaults, child.defaults)
                &&& d.pipelines is None
                &&& steps_or_empty(d.pipeline) == hooked(
                    steps_or_empty(base.pipeline),
                    steps_or_empty(child.pipeline),
                )
                &&& (d.pipeline is None <==> hooked(
                    steps_or_empty(base.pipeline),
                    steps_or_empty(child.pipeline),
                ).len() == 0)
            },
            Err(e) => !hooks_valid(steps_or_empty(base.pipeline), steps_or_empty(child.pipeline))
                && e.kind() == ErrorKind::ConfigValidationFailed,
        },
{
    let PipelineFileDto { version: bv, from: _, defaults: bd, pipeline: bp, pipelines: _ } = base;
    let PipelineFileDto { version: cv, from: _, defaults: cd, pipeline: cp, pipelines: _ } = child;
    let version = or_else_opt(cv, bv);
    let defaults = merge_defaults(bd, cd);
    let base_steps = match bp {
        Some(v) => v,
        None => Vec::new(),
    };
    let child_steps = match cp {
        Some(v) => v,
        None => Vec::new(),
    };
    let merged = match apply_hooks(base_steps, child_steps, child_path) {
        Ok(v) => v,
        Err(e) => {
            return Err(e);
        },
    };
    let pipeline = if merged.len() == 0 {
        None
    } else {
        Some(merged)
    };
    Ok(PipelineFileDto { version, from: None, defaults, pipeline, pipelines: None })
}

// ── Implementation: the inheritance chain ───────────────────────────────────

/// Fail when `new_canonical` (a canonical path) is already in the chain of
/// canonical paths; the message shows the whole chain.
pub fn check_cycle(chain: &Vec<String>, new_canonical: &str) -> (r: Result<(), AilError>)
    ensures
        r is Ok <==> !views(chain@).contains(new_canonical@),
        r matches Err(e) ==> e.is_fresh(
            ErrorKind::CircularInheritance,
            cycle_chain_message(views(chain@), new_canonical@),
        ),
{
    if !contains_string(chain, new_canonical) {
        return Ok(());
    }
    let ghost all = views(chain@).push(new_canonical@);
    let mut text = String::new();
    let mut i: usize = 0;
    while i < chain.len()
        invariant
            i <= chain.len(),
            all == views(chain@).push(new_canonical@),
            text@ == joined(all.take(i as int), " \u{2192} "@),
        decreases chain.len() - i,
    {
        if i > 0 {
            text.append(" \u{2192} ");
        }
        text.append(chain[i].as_str());
        proof {
            let t = all.take(i + 1);
            assert(t.drop_last() =~= all.take(i as int));
            assert(t.last() == chain@[i as int]@);
            if i == 0 {
                assert(all.take(0) =~= Seq::<Seq<char>>::empty());
                assert(text@ =~= t[0]);
            }
        }
        i += 1;
    }
    if chain.len() > 0 {
        text.append(" \u{2192} ");
    }
    text.append(new_canonical);
    proof {
        let n = chain.len() as int;
        assert(all.take(n + 1) =~= all);
        assert(all.drop_last() =~= all.take(n));
        if n == 0 {
            assert(all.take(0) =~= Seq::<Seq<char>>::empty());
            assert(text@ =~= all[0]);
        }
    }
    let mut d = String::from_str("circular inheritance detected\n  ");
    d.append(text.as_str());
    d.append("\n  ail cannot resolve a pipeline that inherits from itself.");
    Err(AilError::CircularInheritance { detail: d, context: None })
}

// ── `FROM:` paths ───────────────────────────────────────────────────────────

/// The path `rel` joined onto `base`, as `Path::join` builds it.
pub uninterp spec fn path_join(base: Seq<char>, rel: Seq<char>) -> Seq<char>;

/// The parent of `p`, as `Path::parent` gives it.
pub uninterp spec fn path_parent(p: Seq<char>) -> Option<Seq<char>>;

/// The path starts at the root (Unix: with `/`).
pub open spec fn is_absolute(p: Seq<char>) -> bool {
    p.len() > 0 && p[0] == '/'
}

/// Calls `Path::join`; the result is named by [`path_join`]. std documents
/// that joining an absolute path replaces the base.
#[verifier::external_body]
pub(crate) fn join_path(base: &str, rel: &str) -> (r: String)
    ensures
        r@ == path_join(base@, rel@),
        is_absolute(rel@) ==> r@ == rel@,
{
    std::path::Path::new(base).join(rel).to_string_lossy().into_owned()
}

/// Calls `Path::parent`; the result is named by [`path_parent`].
#[verifier::external_body]
pub(crate) fn parent_path(p: &str) -> (r: Option<String>)
    ensures
        opt_view(r) == path_parent(p@),
{
    match std::path::Path::new(p).parent() {
        Some(q) => Some(q.to_string_lossy().into_owned()),
        None => None,
    }
}

/// Calls `dirs::home_dir`, which reads the environment (or the password
/// database); nothing is stated of what it returns.
#[verifier::external_body]
pub(crate) fn home_dir() -> (r: Option<String>) {
    match dirs::home_dir() {
        Some(p) => Some(p.to_string_lossy().into_owned()),
        None => None,
    }
}

/// The `FROM:` value with a leading `~` expanded against `home`; `None` when
/// it needs a home directory and there is none.
pub open spec fn expanded_from(from: Seq<char>, home: Option<Seq<char>>) -> Option<Seq<char>> {
    if from.len() > 0 && from[0] == '~' {
        match home {
            None => None,
            Some(h) => {
                let st = from.drop_first();
                Some(path_join(h, if st.len() > 0 && st[0] == '/' { st.drop_first() } else { st }))
            },
        }
    } else {
        Some(from)
    }
}

/// Where a `FROM:` value in `file` points, given the home directory.
pub open spec fn resolved_from(from: Seq<char>, file: Seq<char>, home: Option<Seq<char>>) -> Option<Seq<char>> {
    match expanded_from(from, home) {
        None => None,
        Some(e) => if is_absolute(e) {
            Some(e)
        } else {
            Some(
                path_join(
                    match path_parent(file) {
                        Some(p) => p,
                        None => "."@,
                    },
                    e,
                ),
            )
        },
    }
}

/// Resolve a `FROM:` value relative to the directory of the file that holds
/// it; `~` stands for `home`.
pub fn resolve_from_path_with_home(from_value: &str, referencing_file: &str, home: Option<String>) -> (r: Result<String, AilError>)
    ensures
        match r {
            Ok(p) => resolved_from(from_value@, referencing_file@, opt_view(home)) == Some(p@),
            Err(e) => resolved_from(from_value@, referencing_file@, opt_view(home)) is None && e.is_fresh(
                ErrorKind::ConfigValidationFailed,
                "FROM path '"@ + from_value@ + "' uses ~ but home directory could not be determined"@,
            ),
        },
{
    let cs = to_chars(from_value);
    let expanded = if cs.len() > 0 && cs[0] == '~' {
        match &home {
            None => {
                let mut d = String::from_str("FROM path '");
                d.append(from_value);
                d.append("' uses ~ but home directory could not be determined");
                return Err(AilError::ConfigValidationFailed { detail: d, context: None });
            },
            Some(h) => {
                let start: usize = if cs.len() > 1 && cs[1] == '/' {
                    2
                } else {
                    1
                };
                let suffix = string_of(&cs, start, cs.len());
                proof {
                    let st = from_value@.drop_first();
                    if st.len() > 0 && st[0] == '/' {
                        assert(suffix@ =~= st.drop_first());
                    } else {
                        assert(suffix@ =~= st);
                    }
                }
                join_path(h.as_str(), suffix.as_str())
            },
        }
    } else {
        String::from_str(from_value)
    };
    let ev = to_chars(expanded.as_str());
    if ev.len() > 0 && ev[0] == '/' {
        return Ok(expanded);
    }
    let dir = match parent_path(referencing_file) {
        Some(p) => p,
        None => String::from_str("."),
    };
    Ok(join_path(dir.as_str(), expanded.as_str()))
}

/// Resolve a `FROM:` value relative to the directory of the file that holds
/// it, `~` standing for the user's home directory.
pub fn resolve_from_path(from_value: &str, referencing_file: &str) -> (r: Result<String, AilError>)
    ensures
        !(from_value@.len() > 0 && from_value@[0] == '~') ==> (r matches Ok(p) && resolved_from(
            from_value@,
            referencing_file@,
            None,
        ) == Some(p@)),
{
    let cs = to_chars(from_value);
    let home = if cs.len() > 0 && cs[0] == '~' {
        home_dir()
    } else {
        None
    };
    resolve_from_path_with_home(from_value, referencing_file, home)
}

} // verus!
