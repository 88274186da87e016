//! Pipeline discovery: display names of pipeline files and the choice among
//! the discovery rungs.
use vstd::prelude::*;
use vstd::string::*;

use crate::text::{ends_with, ends_with_exec, eq_chars, str_eq, string_of, to_chars};

verus! {

/// A discovered pipeline file with a display name derived from its location
/// under `.ail/`.
#[derive(Debug, Clone, PartialEq, Eq)]
pub struct PipelineEntry {
    /// Display name shown in the picker.
    pub name: String,
    /// Absolute path used to load the pipeline.
    pub path: String,
}

/// Outcome of pipeline discovery.
#[derive(Debug, Clone, PartialEq, Eq)]
pub enum DiscoveryResult {
    /// A single pipeline path resolved unambiguously.
    Resolved(String),
    /// Multiple candidate pipelines and no recorded preference.
    Ambiguous(Vec<PipelineEntry>),
    /// No pipeline found anywhere on the search path.
    NotFound,
}

// ── Path pieces ──────────────────────────────────────────────────────────────

/// The index just after the last `/` in `p` (0 when there is none).
pub open spec fn name_start(p: Seq<char>) -> int
    decreases p.len(),
{
    if p.len() == 0 {
        0
    } else if p.last() == '/' {
        p.len() as int
    } else {
        name_start(p.drop_last())
    }
}

/// The last segment of `p` (after its last `/`); `None` when that segment is
/// empty or `..`.
pub open spec fn file_name(p: Seq<char>) -> Option<Seq<char>> {
    let n = p.subrange(name_start(p), p.len() as int);
    if n.len() == 0 || n == ".."@ {
        None
    } else {
        Some(n)
    }
}

/// The index of the last `.` in `n`, if any.
pub open spec fn last_dot(n: Seq<char>) -> Option<int>
    decreases n.len(),
{
    if n.len() == 0 {
        None
    } else if n.last() == '.' {
        Some(n.len() - 1)
    } else {
        last_dot(n.drop_last())
    }
}

/// The stem of a file name: all of it when it has no embedded `.` (a leading
/// `.` alone does not count), else the part before the final `.`.
pub open spec fn stem_of(n: Seq<char>) -> Seq<char> {
    match last_dot(n) {
        Some(i) => if i == 0 { n } else { n.subrange(0, i) },
        None => n,
    }
}

/// The extension of a file name: the part after the final `.`, when the name
/// has an embedded `.`.
pub open spec fn extension_of(n: Seq<char>) -> Option<Seq<char>> {
    match last_dot(n) {
        Some(i) => if i == 0 { None } else { Some(n.subrange(i + 1, n.len() as int)) },
        None => None,
    }
}

/// The display stem of a path: the file stem with one trailing `.ail` removed.
pub open spec fn display_stem_spec(p: Seq<char>) -> Seq<char> {
    let stem = match file_name(p) {
        Some(n) => stem_of(n),
        None => Seq::empty(),
    };
    if ends_with(stem, ".ail"@) {
        stem.subrange(0, stem.len() - 4)
    } else {
        stem
    }
}

/// Whether the path names a `.yaml` or `.yml` file.
pub open spec fn is_yaml_spec(p: Seq<char>) -> bool {
    match file_name(p) {
        Some(n) => extension_of(n) == Some("yaml"@) || extension_of(n) == Some("yml"@),
        None => false,
    }
}

fn name_start_exec(p: &Vec<char>) -> (i: usize)
    ensures
        i as int == name_start(p@),
        i <= p.len(),
{
    let mut n = p.len();
    assert(p@.subrange(0, n as int) =~= p@);
    loop
        invariant
            n <= p.len(),
            name_start(p@) == name_start(p@.subrange(0, n as int)),
        decreases n,
    {
        let ghost pre = p@.subrange(0, n as int);
        if n == 0 {
            return 0;
        }
        if p[n - 1] == '/' {
            return n;
        }
        assert(pre.drop_last() =~= p@.subrange(0, n - 1));
        n -= 1;
    }
}

fn last_dot_exec(n: &Vec<char>) -> (r: Option<usize>)
    ensures
        match r {
            Some(i) => last_dot(n@) == Some(i as int) && i < n.len(),
            None => last_dot(n@) is None,
        },
{
    let mut k = n.len();
    assert(n@.subrange(0, k as int) =~= n@);
    loop
        invariant
            k <= n.len(),
            last_dot(n@) == last_dot(n@.subrange(0, k as int)),
        decreases k,
    {
        let ghost pre = n@.subrange(0, k as int);
        if k == 0 {
            return None;
        }
        if n[k - 1] == '.' {
            return Some(k - 1);
        }
        assert(pre.drop_last() =~= n@.subrange(0, k - 1));
        k -= 1;
    }
}

/// The file name of `p`, as characters (`None` as for [`file_name`]).
fn file_name_exec(p: &Vec<char>) -> (r: Option<Vec<char>>)
    ensures
        match r {
            Some(v) => file_name(p@) == Some(v@),
            None => file_name(p@) is None,
        },
{
    let start = name_start_exec(p);
    let mut v: Vec<char> = Vec::new();
    let mut i = start;
    while i < p.len()
        invariant
            start <= i <= p.len(),
            v@ == p@.subrange(start as int, i as int),
        decreases p.len() - i,
    {
        v.push(p[i]);
        assert(p@.subrange(start as int, i + 1) == p@.subrange(start as int, i as int).push(p@[i as int]));
        i += 1;
    }
    let dots = to_chars("..");
    if v.len() == 0 || eq_chars(&v, &dots) {
        None
    } else {
        Some(v)
    }
}

/// Strip `.yaml`/`.yml` (the extension), then a trailing `.ail` if present,
/// so `code-review.ail.yaml` → `code-review`.
pub fn display_stem(p: &str) -> (s: String)
    ensures
        s@ == display_stem_spec(p@),
{
    let pv = to_chars(p);
    let stem: Vec<char> = match file_name_exec(&pv) {
        Some(n) => match last_dot_exec(&n) {
            Some(i) => if i == 0 {
                n
            } else {
                let mut t: Vec<char> = Vec::new();
                let mut k: usize = 0;
                while k < i
                    invariant
                        k <= i < n.len(),
                        t@ == n@.subrange(0, k as int),
                    decreases i - k,
                {
                    t.push(n[k]);
                    assert(n@.subrange(0, k + 1) == n@.subrange(0, k as int).push(n@[k as int]));
                    k += 1;
                }
                t
            },
            None => n,
        },
        None => Vec::new(),
    };
    let ail = to_chars(".ail");
    proof {
        reveal_strlit(".ail");
    }
    if ends_with_exec(&stem, &ail) {
        string_of(&stem, 0, stem.len() - 4)
    } else {
        string_of(&stem, 0, stem.len())
    }
}

/// Whether the path names a `.yaml` or `.yml` file.
pub fn is_yaml(p: &str) -> (b: bool)
    ensures
        b == is_yaml_spec(p@),
{
    let pv = to_chars(p);
    match file_name_exec(&pv) {
        Some(n) => match last_dot_exec(&n) {
            Some(i) => {
                if i == 0 {
                    return false;
                }
                let mut ext: Vec<char> = Vec::new();
                let mut k: usize = i + 1;
                while k < n.len()
                    invariant
                        i + 1 <= k <= n.len(),
                        ext@ == n@.subrange(i + 1, k as int),
                    decreases n.len() - k,
                {
                    ext.push(n[k]);
                    assert(n@.subrange(i + 1, k + 1) == n@.subrange(i + 1, k as int).push(n@[k as int]));
                    k += 1;
                }
                let yaml = to_chars("yaml");
                let yml = to_chars("yml");
                eq_chars(&ext, &yaml) || eq_chars(&ext, &yml)
            },
            None => false,
        },
        None => false,
    }
}

// ── Entries and the discovery decision ───────────────────────────────────────

/// The picker name of a pipeline file found at `.ail/<sub>/<file>`:
/// `<sub>` for `default.yaml`, else `<sub>/<stem>`.
pub open spec fn entry_name(sub_name: Seq<char>, path: Seq<char>) -> Seq<char> {
    if display_stem_spec(path) == "default"@ {
        sub_name
    } else {
        sub_name + "/"@ + display_stem_spec(path)
    }
}

/// The picker entry for the pipeline file `path` inside subdirectory `sub_name`.
pub fn subdir_entry(sub_name: &str, path: &str) -> (e: PipelineEntry)
    ensures
        e.name@ == entry_name(sub_name@, path@),
        e.path@ == path@,
{
    let stem = display_stem(path);
    let name = if str_eq(stem.as_str(), "default") {
        String::from_str(sub_name)
    } else {
        let mut n = String::from_str(sub_name);
        n.append("/");
        n.append(stem.as_str());
        n
    };
    PipelineEntry { name, path: String::from_str(path) }
}

/// The discovery rungs in order: an explicit path, the last-used pointer, the
/// project marker, the project's subdirectory candidates (one resolves, several
/// are ambiguous), then the user-global default; otherwise nothing.
pub open spec fn discovery_choice(
    explicit: Option<Seq<char>>,
    last_used: Option<Seq<char>>,
    marker: Option<Seq<char>>,
    candidates: Seq<PipelineEntry>,
    user_default: Option<Seq<char>>,
) -> Option<Seq<char>> {
    if explicit is Some {
        explicit
    } else if last_used is Some {
        last_used
    } else if marker is Some {
        marker
    } else if candidates.len() == 1 {
        Some(candidates[0].path@)
    } else if candidates.len() > 1 {
        None
    } else {
        user_default
    }
}

/// Choose the discovery outcome from what each rung found. `marker`,
/// `candidates` and `user_default` are what the project directory and the
/// user's home hold (`marker` already resolved to an existing file,
/// `user_default` only when the file exists).
pub fn decide_discovery(
    explicit: Option<String>,
    last_used: Option<String>,
    marker: Option<String>,
    candidates: Vec<PipelineEntry>,
    user_default: Option<String>,
) -> (r: DiscoveryResult)
    ensures
        ({
            let choice = discovery_choice(
                crate::error::opt_view(explicit),
                crate::error::opt_view(last_used),
                crate::error::opt_view(marker),
                candidates@,
                crate::error::opt_view(user_default),
            );
            &&& explicit is None && last_used is None && marker is None && candidates.len() > 1
                ==> r == DiscoveryResult::Ambiguous(candidates)
            &&& !(explicit is None && last_used is None && marker is None && candidates.len() > 1)
                ==> match r {
                DiscoveryResult::Resolved(p) => choice == Some(p@),
                DiscoveryResult::NotFound => choice is None,
                DiscoveryResult::Ambiguous(_) => false,
            }
        }),
{
    if let Some(p) = explicit {
        return DiscoveryResult::Resolved(p);
    }
    if let Some(p) = last_used {
        return DiscoveryResult::Resolved(p);
    }
    if let Some(p) = marker {
        return DiscoveryResult::Resolved(p);
    }
    if candidates.len() == 1 {
        let p = candidates[0].path.clone();
        return DiscoveryResult::Resolved(p);
    }
    if candidates.len() > 1 {
        return DiscoveryResult::Ambiguous(candidates);
    }
    match user_default {
        Some(p) => DiscoveryResult::Resolved(p),
        None => DiscoveryResult::NotFound,
    }
}

} // verus!
