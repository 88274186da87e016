//! Whole-file validation: defaults, the main step list, named pipelines,
//! references to them, and cycles among them.
use vstd::prelude::*;
use vstd::string::*;

use crate::config::domain::{or_else, Pipeline, ProviderConfig, Step, StepBody, ToolPolicy};
use crate::config::dto::{DefaultsDto, PipelineFileDto, ProviderDto, StepDto};
use crate::config::validation::cycles::{adj_closed, adj_edge, cyclic, find_cycle, walk};
use crate::config::validation::step_body::{lemma_steps_agree_from, repeats_id_first, validate_steps};
use crate::config::validation::{
    body_agrees, cfg_err, do_while_agrees, opt_tools, schema_in_steps_from, step_agrees,
    step_fields_agree, steps_agree_from, steps_valid, tools_agree,
};
use crate::error::{opt_view, AilError, ErrorKind};
use crate::text::{clone_opt, contains_string, index_of_string, str_eq, to_chars, trim, trim_bounds, views};

verus! {

// ── Specification ───────────────────────────────────────────────────────────

/// The provider settings a `defaults:` block gives.
pub open spec fn provider_of(d: Option<DefaultsDto>) -> ProviderConfig {
    match d {
        None => ProviderConfig {
            model: None,
            base_url: None,
            auth_token: None,
            connect_timeout_seconds: None,
            read_timeout_seconds: None,
            max_history_messages: None,
        },
        Some(d) => match d.provider {
            None => ProviderConfig {
                model: d.model,
                base_url: None,
                auth_token: None,
                connect_timeout_seconds: None,
                read_timeout_seconds: None,
                max_history_messages: None,
            },
            Some(p) => ProviderConfig {
                model: or_else(p.model, d.model),
                base_url: p.base_url,
                auth_token: p.auth_token,
                connect_timeout_seconds: p.connect_timeout_seconds,
                read_timeout_seconds: p.read_timeout_seconds,
                max_history_messages: p.max_history_messages,
            },
        },
    }
}

/// The named pipelines a file declares, in order.
pub open spec fn named_of(o: Option<Vec<(String, Vec<StepDto>)>>) -> Seq<(String, Vec<StepDto>)> {
    match o {
        Some(v) => v@,
        None => Seq::empty(),
    }
}

/// The names of named pipelines.
pub open spec fn names_of(np: Seq<(String, Vec<StepDto>)>) -> Seq<Seq<char>> {
    np.map_values(|e: (String, Vec<StepDto>)| e.0@)
}

/// The step is the `invocation` step.
pub open spec fn is_invocation(d: StepDto) -> bool {
    d.id is Some && d.id->0@ == "invocation"@
}

/// An `invocation` step, if any, comes first.
pub open spec fn invocation_first(s: Seq<StepDto>) -> bool {
    (s.len() > 0 && is_invocation(s[0])) || forall|k: int| 0 <= k < s.len() ==> !is_invocation(#[trigger] s[k])
}

/// Every named pipeline has a name, at least one step, and valid steps.
pub open spec fn named_valid(np: Seq<(String, Vec<StepDto>)>) -> bool {
    forall|k: int|
        0 <= k < np.len() ==> (#[trigger] np[k]).0@.len() > 0 && np[k].1.len() > 0 && steps_valid(np[k].1@)
}

/// Some top-level step of `ds` names `name` in its `pipeline:` field.
pub open spec fn refers_to(ds: Seq<StepDto>, name: Seq<char>) -> bool {
    exists|k: int| 0 <= k < ds.len() && (#[trigger] ds[k]).pipeline is Some && ds[k].pipeline->0@ == name
}

/// Named pipeline `i` refers to named pipeline `j`.
pub open spec fn named_edge(np: Seq<(String, Vec<StepDto>)>) -> spec_fn(int, int) -> bool {
    |i: int, j: int| 0 <= i < np.len() && 0 <= j < np.len() && refers_to(np[i].1@, np[j].0@)
}

/// Everything the file must satisfy apart from the absence of cycles.
pub open spec fn file_shape_valid(dto: PipelineFileDto) -> bool {
    &&& dto.version is Some && trim(dto.version->0@).len() > 0
    &&& dto.pipeline is Some && dto.pipeline->0.len() > 0
    &&& invocation_first(dto.pipeline->0@)
    &&& steps_valid(dto.pipeline->0@)
    &&& named_valid(named_of(dto.pipelines))
}

/// The file is valid.
pub open spec fn file_valid(dto: PipelineFileDto) -> bool {
    file_shape_valid(dto) && !cyclic(named_edge(named_of(dto.pipelines)))
}

/// Some step declares an output schema that does not compile.
pub open spec fn schema_in_file(dto: PipelineFileDto) -> bool {
    ||| (dto.pipeline is Some && schema_in_steps_from(dto.pipeline->0@, 0))
    ||| exists|k: int|
        0 <= k < named_of(dto.pipelines).len() && schema_in_steps_from(
            #[trigger] named_of(dto.pipelines)[k].1@,
            0,
        )
}

/// The top-level body after references to named pipelines are recognised.
pub open spec fn reclassified_body(b: StepBody, names: Seq<Seq<char>>) -> StepBody {
    match b {
        StepBody::SubPipeline { path, prompt } => if names.contains(path@) {
            StepBody::NamedPipeline { name: path, prompt }
        } else {
            StepBody::SubPipeline { path, prompt }
        },
        _ => b,
    }
}

/// A top-level step corresponds to its file step, `pipeline:` references to
/// named pipelines being recognised as such.
pub open spec fn step_agrees_named(d: StepDto, s: Step, names: Seq<Seq<char>>) -> bool {
    &&& step_fields_agree(d, s)
    &&& if d.pipeline is Some && names.contains(d.pipeline->0@) {
        s.body matches StepBody::NamedPipeline { name, prompt } && name@ == d.pipeline->0@
            && opt_view(prompt) == opt_view(d.prompt)
    } else {
        body_agrees(d, s.body)
    }
}

/// Steps correspond one to one, named-pipeline references recognised.
pub open spec fn steps_agree_named(ds: Seq<StepDto>, ss: Seq<Step>, names: Seq<Seq<char>>) -> bool {
    ds.len() == ss.len() && forall|k: int| 0 <= k < ds.len() ==> step_agrees_named(#[trigger] ds[k], ss[k], names)
}

/// The validated pipeline corresponds to the file.
pub open spec fn pipeline_agrees(dto: PipelineFileDto, source: String, p: Pipeline) -> bool {
    let np = named_of(dto.pipelines);
    let names = names_of(np);
    &&& steps_agree_named(dto.pipeline->0@, p.steps@, names)
    &&& p.named_pipelines.len() == np.len()
    &&& forall|k: int|
        0 <= k < np.len() ==> (#[trigger] p.named_pipelines@[k]).0@ == np[k].0@ && steps_agree_named(
            np[k].1@,
            p.named_pipelines@[k].1@,
            names,
        )
    &&& p.source == Some(source)
    &&& p.defaults == provider_of(dto.defaults)
    &&& p.timeout_seconds == match dto.defaults {
        Some(d) => d.timeout_seconds,
        None => None,
    }
    &&& p.max_concurrency == match dto.defaults {
        Some(d) => d.max_concurrency,
        None => None,
    }
    &&& tools_agree(
        match dto.defaults {
            Some(d) => d.tools,
            None => None,
        },
        p.default_tools,
    )
}

/// Top-level steps of `ss` that refer to the named pipeline `name`.
pub open spec fn step_refers(ss: Seq<Step>, name: Seq<char>) -> bool {
    exists|k: int|
        0 <= k < ss.len() && (#[trigger] ss[k]).body is NamedPipeline && ss[k].body->NamedPipeline_name@
            == name
}

/// Validated named pipeline `i` refers to named pipeline `j`.
pub open spec fn named_step_edge(named: Seq<(String, Vec<Step>)>) -> spec_fn(int, int) -> bool {
    |i: int, j: int| 0 <= i < named.len() && 0 <= j < named.len() && step_refers(named[i].1@, named[j].0@)
}

/// The message for a cycle through `name -> dep`.
pub open spec fn cycle_message(name: Seq<char>, dep: Seq<char>) -> Seq<char> {
    "Circular reference detected among named pipelines: '"@ + name + "' references '"@ + dep
        + "' which forms a cycle"@
}

// ── Lemmas ──────────────────────────────────────────────────────────────────

/// A file body never agrees with a named-pipeline reference before references
/// are recognised.
proof fn lemma_body_not_named(d: StepDto, b: StepBody)
    requires
        body_agrees(d, b),
    ensures
        !(b is NamedPipeline),
        d.pipeline is Some ==> (b matches StepBody::SubPipeline { path, prompt } && path@
            == d.pipeline->0@ && opt_view(prompt) == opt_view(d.prompt)),
{
    if d.do_while is Some && d.pipeline is None && d.prompt is None && d.skill is None && d.action is None
        && d.context is None {
        assert(do_while_agrees(d.do_while->0, b));
    }
}

/// Recognising named-pipeline references keeps a step's agreement.
proof fn lemma_reclassified_agrees(d: StepDto, s: Step, names: Seq<Seq<char>>)
    requires
        step_agrees(d, s),
    ensures
        step_agrees_named(d, Step { body: reclassified_body(s.body, names), ..s }, names),
{
    lemma_body_not_named(d, s.body);
    let r = Step { body: reclassified_body(s.body, names), ..s };
    assert(step_fields_agree(d, s));
    assert(step_fields_agree(d, r));
}

/// References among validated named pipelines are the file's references.
proof fn lemma_named_edges_agree(np: Seq<(String, Vec<StepDto>)>, named: Seq<(String, Vec<Step>)>)
    requires
        np.len() == named.len(),
        forall|k: int|
            0 <= k < np.len() ==> (#[trigger] named[k]).0@ == np[k].0@ && steps_agree_named(
                np[k].1@,
                named[k].1@,
                names_of(np),
            ),
    ensures
        named_step_edge(named) == named_edge(np),
{
    let names = names_of(np);
    assert forall|i: int, j: int| #[trigger] named_step_edge(named)(i, j) == named_edge(np)(i, j) by {
        if 0 <= i < np.len() && 0 <= j < np.len() {
            let ds = np[i].1@;
            let ss = named[i].1@;
            assert(steps_agree_named(ds, ss, names));
            assert(names[j] == np[j].0@);
            if step_refers(ss, named[j].0@) {
                let k = choose|k: int|
                    0 <= k < ss.len() && (#[trigger] ss[k]).body is NamedPipeline
                        && ss[k].body->NamedPipeline_name@ == named[j].0@;
                assert(step_agrees_named(ds[k], ss[k], names));
                if !(ds[k].pipeline is Some && names.contains(ds[k].pipeline->0@)) {
                    lemma_body_not_named(ds[k], ss[k].body);
                }
                assert(refers_to(ds, np[j].0@));
            }
            if refers_to(ds, np[j].0@) {
                let k = choose|k: int|
                    0 <= k < ds.len() && (#[trigger] ds[k]).pipeline is Some && ds[k].pipeline->0@ == np[j].0@;
                assert(step_agrees_named(ds[k], ss[k], names));
                assert(names.contains(ds[k].pipeline->0@));
                assert(step_refers(ss, named[j].0@));
            }
        }
    }
    assert(named_step_edge(named) =~= named_edge(np));
}

// ── Implementation ──────────────────────────────────────────────────────────

/// The body with a reference to a named pipeline recognised.
fn reclassify_body(b: StepBody, names: &Vec<String>) -> (r: StepBody)
    ensures
        r == reclassified_body(b, views(names@)),
{
    match b {
        StepBody::SubPipeline { path, prompt } => {
            if contains_string(names, path.as_str()) {
                StepBody::NamedPipeline { name: path, prompt }
            } else {
                StepBody::SubPipeline { path, prompt }
            }
        },
        other => other,
    }
}

/// Turn `pipeline:` references whose path is the name of a named pipeline
/// into references to that named pipeline.
pub fn reclassify_named_pipeline_refs(steps: Vec<Step>, names: &Vec<String>) -> (r: Vec<Step>)
    ensures
        r.len() == steps.len(),
        forall|k: int|
            0 <= k < r.len() ==> #[trigger] r@[k] == (Step {
                body: reclassified_body(steps@[k].body, views(names@)),
                ..steps@[k]
            }),
{
    let ghost s0 = steps@;
    let mut out: Vec<Step> = Vec::new();
    for st in it: steps
        invariant
            it.seq() == s0,
            out.len() == it.index(),
            forall|k: int|
                0 <= k < out.len() ==> #[trigger] out@[k] == (Step {
                    body: reclassified_body(s0[k].body, views(names@)),
                    ..s0[k]
                }),
    {
        let ghost st0 = st;
        let mut st = st;
        let mut b = StepBody::Prompt(String::new());
        std::mem::swap(&mut b, &mut st.body);
        st.body = reclassify_body(b, names);
        assert(st == (Step { body: reclassified_body(st0.body, views(names@)), ..st0 }));
        out.push(st);
    }
    out
}

/// The adjacency lists of references among validated named pipelines.
fn named_adjacency(named: &Vec<(String, Vec<Step>)>, names: &Vec<String>) -> (g: Vec<Vec<usize>>)
    requires
        names.len() == named.len(),
        views(names@).no_duplicates(),
        forall|k: int| 0 <= k < names.len() ==> (#[trigger] names@[k])@ == named@[k].0@,
    ensures
        g.len() == named.len(),
        adj_closed(g@),
        adj_edge(g@) == named_step_edge(named@),
{
    let n = named.len();
    let mut g: Vec<Vec<usize>> = Vec::new();
    let mut i: usize = 0;
    while i < n
        invariant
            n == named.len(),
            names.len() == n,
            views(names@).no_duplicates(),
            forall|k: int| 0 <= k < names.len() ==> (#[trigger] names@[k])@ == named@[k].0@,
            i <= n,
            g.len() == i,
            forall|a: int, k: int| 0 <= a < i && 0 <= k < g@[a]@.len() ==> #[trigger] g@[a]@[k] < n,
            forall|a: int, j: int|
                0 <= a < i && 0 <= j < n ==> (#[trigger] g@[a]@.contains(j as usize) <==> step_refers(
                    named@[a].1@,
                    named@[j].0@,
                )),
        decreases n - i,
    {
        let steps = &named[i].1;
        let mut row: Vec<usize> = Vec::new();
        let mut k: usize = 0;
        while k < steps.len()
            invariant
                n == named.len(),
                names.len() == n,
                views(names@).no_duplicates(),
                forall|t: int| 0 <= t < names.len() ==> (#[trigger] names@[t])@ == named@[t].0@,
                i < n,
                *steps == named@[i as int].1,
                k <= steps.len(),
                forall|t: int| 0 <= t < row@.len() ==> #[trigger] row@[t] < n,
                forall|j: int|
                    0 <= j < n ==> (#[trigger] row@.contains(j as usize) <==> exists|t: int|
                        0 <= t < k && (#[trigger] steps@[t]).body is NamedPipeline
                            && steps@[t].body->NamedPipeline_name@ == named@[j].0@),
            decreases steps.len() - k,
        {
            let ghost row0 = row@;
            if let StepBody::NamedPipeline { name, .. } = &steps[k].body {
                match index_of_string(names, name.as_str()) {
                    Some(j) => {
                        row.push(j);
                        assert(name@ == steps@[k as int].body->NamedPipeline_name@);
                        assert forall|j2: int| 0 <= j2 < n implies (#[trigger] row@.contains(j2 as usize)
                            <==> exists|t: int|
                            0 <= t < k + 1 && (#[trigger] steps@[t]).body is NamedPipeline
                                && steps@[t].body->NamedPipeline_name@ == named@[j2].0@) by {
                            if row@.contains(j2 as usize) {
                                let p = choose|p: int| 0 <= p < row@.len() && row@[p] == j2 as usize;
                                if p < row0.len() {
                                    assert(row0[p] == j2 as usize);
                                    assert(row0.contains(j2 as usize));
                                } else {
                                    assert(steps@[k as int].body->NamedPipeline_name@ == named@[j2].0@);
                                }
                            }
                            if exists|t: int|
                                0 <= t < k + 1 && (#[trigger] steps@[t]).body is NamedPipeline
                                    && steps@[t].body->NamedPipeline_name@ == named@[j2].0@ {
                                let t = choose|t: int|
                                    0 <= t < k + 1 && (#[trigger] steps@[t]).body is NamedPipeline
                                        && steps@[t].body->NamedPipeline_name@ == named@[j2].0@;
                                if t < k {
                                    assert(row0.contains(j2 as usize));
                                    let p = choose|p: int| 0 <= p < row0.len() && row0[p] == j2 as usize;
                                    assert(row@[p] == j2 as usize);
                                } else {
                                    assert(views(names@)[j2] == views(names@)[j as int]);
                                    assert(row@[row0.len() as int] == j2 as usize);
                                }
                            }
                        }
                    },
                    None => {
                        assert forall|j2: int| 0 <= j2 < n implies steps@[k as int].body->NamedPipeline_name@
                            != named@[j2].0@ by {
                            assert(views(names@)[j2] == names@[j2]@);
                            assert(name@ == steps@[k as int].body->NamedPipeline_name@);
                        }
                        assert forall|j2: int| 0 <= j2 < n implies (#[trigger] row@.contains(j2 as usize)
                            <==> exists|t: int|
                            0 <= t < k + 1 && (#[trigger] steps@[t]).body is NamedPipeline
                                && steps@[t].body->NamedPipeline_name@ == named@[j2].0@) by {
                            if exists|t: int|
                                0 <= t < k + 1 && (#[trigger] steps@[t]).body is NamedPipeline
                                    && steps@[t].body->NamedPipeline_name@ == named@[j2].0@ {
                                let t = choose|t: int|
                                    0 <= t < k + 1 && (#[trigger] steps@[t]).body is NamedPipeline
                                        && steps@[t].body->NamedPipeline_name@ == named@[j2].0@;
                                assert(t != k);
                            }
                        }
                    },
                }
            }
            k += 1;
        }
        g.push(row);
        i += 1;
    }
    assert(adj_edge(g@) =~= named_step_edge(named@));
    g
}

/// Fail when named pipelines refer to each other in a cycle.
fn detect_named_pipeline_cycles(named: &Vec<(String, Vec<Step>)>, names: &Vec<String>) -> (r: Result<(), AilError>)
    requires
        names.len() == named.len(),
        views(names@).no_duplicates(),
        forall|k: int| 0 <= k < names.len() ==> (#[trigger] names@[k])@ == named@[k].0@,
    ensures
        r is Ok <==> !cyclic(named_step_edge(named@)),
        r matches Err(e) ==> e.kind() == ErrorKind::PipelineCircularReference && exists|a: int, b: int|
            #[trigger] named_step_edge(named@)(a, b) && (exists|k: nat| walk(named_step_edge(named@), b, a, k))
                && e.is_fresh(ErrorKind::PipelineCircularReference, cycle_message(named@[a].0@, named@[b].0@)),
{
    let g = named_adjacency(named, names);
    match find_cycle(&g) {
        None => Ok(()),
        Some((a, b)) => {
            let mut d = String::from_str("Circular reference detected among named pipelines: '");
            d.append(names[a].as_str());
            d.append("' references '");
            d.append(names[b].as_str());
            d.append("' which forms a cycle");
            let e = AilError::PipelineCircularReference { detail: d, context: None };
            assert(named_step_edge(named@)(a as int, b as int));
            Err(e)
        },
    }
}

/// A validated named pipeline corresponds to its file entry.
pub open spec fn named_entry_ok(e: (String, Vec<StepDto>), r: (String, Vec<Step>)) -> bool {
    &&& r.0@ == e.0@
    &&& e.0@.len() > 0
    &&& e.1.len() > 0
    &&& steps_valid(e.1@)
    &&& steps_agree_from(e.1@, r.1@, 0)
    &&& e.1.len() == r.1.len()
}

/// Recognising references keeps the agreement of a step list.
proof fn lemma_reclassified_steps(ds: Seq<StepDto>, pre: Seq<Step>, post: Seq<Step>, names: Seq<Seq<char>>)
    requires
        ds.len() == pre.len(),
        steps_agree_from(ds, pre, 0),
        post.len() == pre.len(),
        forall|k: int|
            0 <= k < post.len() ==> #[trigger] post[k] == (Step {
                body: reclassified_body(pre[k].body, names),
                ..pre[k]
            }),
    ensures
        steps_agree_named(ds, post, names),
{
    lemma_steps_agree_from(ds, pre, 0);
    assert forall|k: int| 0 <= k < ds.len() implies step_agrees_named(#[trigger] ds[k], post[k], names) by {
        assert(step_agrees(ds[k], pre[k]));
        lemma_reclassified_agrees(ds[k], pre[k], names);
    }
}

/// The provider settings of a `defaults:` block.
fn provider_config(d: Option<DefaultsDto>) -> (r: (ProviderConfig, Option<u64>, Option<ToolPolicy>, Option<u64>))
    ensures
        r.0 == provider_of(d),
        r.1 == match d {
            Some(d) => d.timeout_seconds,
            None => None,
        },
        tools_agree(
            match d {
                Some(d) => d.tools,
                None => None,
            },
            r.2,
        ),
        r.3 == match d {
            Some(d) => d.max_concurrency,
            None => None,
        },
{
    match d {
        None => (
            ProviderConfig {
                model: None,
                base_url: None,
                auth_token: None,
                connect_timeout_seconds: None,
                read_timeout_seconds: None,
                max_history_messages: None,
            },
            None,
            None,
            None,
        ),
        Some(d) => {
            let DefaultsDto { model, provider, timeout_seconds, tools, max_concurrency } = d;
            let pc = match provider {
                None => ProviderConfig {
                    model,
                    base_url: None,
                    auth_token: None,
                    connect_timeout_seconds: None,
                    read_timeout_seconds: None,
                    max_history_messages: None,
                },
                Some(p) => {
                    let ProviderDto {
                        model: pm,
                        base_url,
                        auth_token,
                        connect_timeout_seconds,
                        read_timeout_seconds,
                        max_history_messages,
                    } = p;
                    ProviderConfig {
                        model: match pm {
                            Some(m) => Some(m),
                            None => model,
                        },
                        base_url,
                        auth_token,
                        connect_timeout_seconds,
                        read_timeout_seconds,
                        max_history_messages,
                    }
                },
            };
            (pc, timeout_seconds, opt_tools(tools), max_concurrency)
        },
    }
}

/// Validate a parsed pipeline file into a pipeline; `source` is the path it
/// was read from. Named pipelines are given in file order with distinct
/// names, as a YAML mapping holds them.
pub fn validate(dto: PipelineFileDto, source: String) -> (r: Result<Pipeline, AilError>)
    requires
        names_of(named_of(dto.pipelines)).no_duplicates(),
    ensures
        match r {
            Ok(p) => file_valid(dto) && pipeline_agrees(dto, source, p),
            Err(e) => (e.kind() == ErrorKind::ConfigValidationFailed && (!file_shape_valid(dto)
                || schema_in_file(dto))) || (e.kind() == ErrorKind::PipelineCircularReference
                && file_shape_valid(dto) && cyclic(named_edge(named_of(dto.pipelines)))),
        },
        dto.version is None ==> (r matches Err(e) && e.is_fresh(
            ErrorKind::ConfigValidationFailed,
            "The 'version' field is required"@,
        )),
        (dto.version is Some && trim(dto.version->0@).len() == 0) ==> (r matches Err(e) && e.is_fresh(
            ErrorKind::ConfigValidationFailed,
            "The 'version' field must not be empty"@,
        )),
        (dto.version is Some && trim(dto.version->0@).len() > 0 && dto.pipeline is None) ==> (r matches Err(e)
            && e.is_fresh(
            ErrorKind::ConfigValidationFailed,
            "The 'pipeline' array is required and must contain at least one step"@,
        )),
        (dto.version is Some && trim(dto.version->0@).len() > 0 && dto.pipeline is Some
            && dto.pipeline->0.len() == 0) ==> (r matches Err(e) && e.is_fresh(
            ErrorKind::ConfigValidationFailed,
            "The 'pipeline' array must contain at least one step"@,
        )),
        (dto.version is Some && trim(dto.version->0@).len() > 0 && dto.pipeline is Some
            && dto.pipeline->0.len() > 0 && !invocation_first(dto.pipeline->0@)) ==> (r matches Err(e)
            && e.is_fresh(
            ErrorKind::ConfigValidationFailed,
            "The 'invocation' step, if declared, must be the first step in the pipeline"@,
        )),
        forall|k: int|
            (dto.version is Some && trim(dto.version->0@).len() > 0 && dto.pipeline is Some && dto.pipeline->0.len() > 0
                && invocation_first(dto.pipeline->0@) && #[trigger] repeats_id_first(dto.pipeline->0@, k)) ==> (r matches Err(
                e,
            ) && e.detail_view() == "Step id '"@ + dto.pipeline->0@[k].id->0@ + "' appears more than once in "@ + "pipeline"@),
{
    let ghost dto0 = dto;
    let ghost np = named_of(dto.pipelines);
    let PipelineFileDto { version, from: _, defaults, pipeline, pipelines } = dto;
    let (provider, timeout_seconds, default_tools, max_concurrency) = provider_config(defaults);
    match &version {
        None => {
            return Err(cfg_err(String::from_str("The 'version' field is required")));
        },
        Some(v) => {
            let cs = to_chars(v.as_str());
            let (lo, hi) = trim_bounds(&cs);
            if lo == hi {
                return Err(cfg_err(String::from_str("The 'version' field must not be empty")));
            }
        },
    }
    let step_dtos = match pipeline {
        None => {
            return Err(cfg_err(String::from_str("The 'pipeline' array is required and must contain at least one step")));
        },
        Some(v) => v,
    };
    if step_dtos.len() == 0 {
        return Err(cfg_err(String::from_str("The 'pipeline' array must contain at least one step")));
    }
    let ghost ds = step_dtos@;
    let mut first: Option<usize> = None;
    let mut k: usize = 0;
    while k < step_dtos.len() && first.is_none()
        invariant
            ds == step_dtos@,
            k <= step_dtos.len(),
            first is None ==> forall|t: int| 0 <= t < k ==> !is_invocation(#[trigger] ds[t]),
            first matches Some(p) ==> p < ds.len() && is_invocation(ds[p as int]) && forall|t: int|
                0 <= t < p ==> !is_invocation(#[trigger] ds[t]),
        decreases step_dtos.len() - k,
    {
        if let Some(id) = &step_dtos[k].id {
            if str_eq(id.as_str(), "invocation") {
                first = Some(k);
            }
        }
        k += 1;
    }
    if let Some(p) = first {
        if p != 0 {
            assert(!is_invocation(ds[0]));
            return Err(cfg_err(String::from_str("The 'invocation' step, if declared, must be the first step in the pipeline")));
        }
    }
    assert(invocation_first(ds));
    proof {
        reveal_strlit("pipeline");
    }
    let main = match validate_steps(step_dtos, "pipeline") {
        Ok(v) => v,
        Err(e) => {
            return Err(e);
        },
    };
    let mut named: Vec<(String, Vec<Step>)> = Vec::new();
    let mut names: Vec<String> = Vec::new();
    if let Some(v) = pipelines {
        assert(np == v@);
        for entry in it: v
            invariant
                it.seq() == np,
                np == named_of(dto.pipelines),
                dto.version is Some && trim(dto.version->0@).len() > 0,
                dto.pipeline is Some && dto.pipeline->0.len() > 0,
                invocation_first(dto.pipeline->0@),
                steps_valid(dto.pipeline->0@),
                names_of(np).no_duplicates(),
                named.len() == it.index(),
                names.len() == it.index(),
                forall|t: int| 0 <= t < named.len() ==> named_entry_ok(np[t], #[trigger] named@[t]),
                forall|t: int| 0 <= t < names.len() ==> (#[trigger] names@[t])@ == np[t].0@,
        {
            let ghost idx = names.len() as int;
            assert(entry == np[idx]);
            let (name, np_dtos) = entry;
            if name.as_str().is_empty() {
                assert(!named_valid(np)) by {
                    assert(np[idx].0@.len() == 0);
                }
                return Err(cfg_err(String::from_str("Named pipeline names must not be empty")));
            }
            if np_dtos.len() == 0 {
                assert(!named_valid(np)) by {
                    assert(np[idx].1.len() == 0);
                }
                let mut m = String::from_str("Named pipeline '");
                m.append(name.as_str());
                m.append("' must contain at least one step");
                return Err(cfg_err(m));
            }
            let mut label = String::from_str("named pipeline '");
            label.append(name.as_str());
            label.append("'");
            let ghost nd = np_dtos@;
            let steps = match validate_steps(np_dtos, label.as_str()) {
                Ok(s) => s,
                Err(e) => {
                    proof {
                        if !steps_valid(nd) {
                            assert(!named_valid(np)) by {
                                assert(np[idx].1@ == nd);
                            }
                        } else {
                            assert(schema_in_steps_from(named_of(dto.pipelines)[idx].1@, 0));
                        }
                    }
                    return Err(e);
                },
            };
            let ghost named0 = named@;
            let ghost names0 = names@;
            assert(np[idx].0 == name);
            assert(np[idx].1 == np_dtos);
            assert(np[idx].0@.len() > 0);
            assert(np[idx].1.len() > 0);
            assert(steps_valid(np[idx].1@));
            assert(steps_agree_from(np[idx].1@, steps@, 0));
            assert(np[idx].1.len() == steps.len());
            names.push(name.clone());
            named.push((name, steps));
            assert forall|t: int| 0 <= t < named.len() implies named_entry_ok(np[t], #[trigger] named@[t]) by {
                if t < idx {
                    assert(named@[t] == named0[t]);
                } else {
                    assert(np[idx].1@ == nd);
                }
            }
            assert forall|t: int| 0 <= t < names.len() implies (#[trigger] names@[t])@ == np[t].0@ by {
                if t < idx {
                    assert(names@[t] == names0[t]);
                }
            }
        }
    }
    assert forall|k: int| 0 <= k < np.len() implies (#[trigger] np[k]).0@.len() > 0 && np[k].1.len() > 0
        && steps_valid(np[k].1@) by {
        assert(named_entry_ok(np[k], named@[k]));
    }
    assert(named_valid(np));
    assert(views(names@) =~= names_of(np));
    let steps = reclassify_named_pipeline_refs(main, &names);
    proof {
        lemma_reclassified_steps(ds, main@, steps@, views(names@));
    }
    let ghost named_pre = named@;
    let mut named2: Vec<(String, Vec<Step>)> = Vec::new();
    for entry in it: named
        invariant
            it.seq() == named_pre,
            named_pre.len() == np.len(),
            views(names@) == names_of(np),
            forall|t: int|
                0 <= t < named_pre.len() ==> (#[trigger] named_pre[t]).0@ == np[t].0@ && steps_agree_from(
                    np[t].1@,
                    named_pre[t].1@,
                    0,
                ) && np[t].1.len() == named_pre[t].1.len(),
            named2.len() == it.index(),
            forall|t: int|
                0 <= t < named2.len() ==> (#[trigger] named2@[t]).0@ == np[t].0@ && steps_agree_named(
                    np[t].1@,
                    named2@[t].1@,
                    names_of(np),
                ),
    {
        let ghost idx = named2.len() as int;
        assert(entry == named_pre[idx]);
        let (name, st) = entry;
        let ghost pre = st@;
        let re = reclassify_named_pipeline_refs(st, &names);
        proof {
            lemma_reclassified_steps(np[idx].1@, pre, re@, views(names@));
        }
        named2.push((name, re));
    }
    assert forall|t: int| 0 <= t < names.len() implies (#[trigger] names@[t])@ == named2@[t].0@ by {}
    proof {
        lemma_named_edges_agree(np, named2@);
    }
    match detect_named_pipeline_cycles(&named2, &names) {
        Ok(()) => {},
        Err(e) => {
            return Err(e);
        },
    }
    Ok(
        Pipeline {
            steps,
            source: Some(source),
            defaults: provider,
            timeout_seconds,
            default_tools,
            named_pipelines: named2,
            max_concurrency,
        },
    )
}

} // verus!
