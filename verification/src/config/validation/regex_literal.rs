//! `/PATTERN/FLAGS` regex literals: a leading `/`, the pattern, a closing
//! `/` and zero or more of the flags `i`, `m`, `s`. The pattern is compiled
//! when the literal is parsed, so a bad pattern fails at load time.
use vstd::prelude::*;
use vstd::string::*;

use crate::text::{string_of, to_chars, trim, trim_str};

verus! {

/// A parsed regex literal: the literal as written and its compiled form.
#[derive(Debug, Clone)]
pub struct ParsedRegex {
    /// The literal, trimmed, e.g. `/warn|error/i`.
    pub source: String,
    pub regex: regex::Regex,
    /// The pattern between the slashes, `\/` read as `/`.
    pub pattern: String,
    /// The `i`, `m` and `s` flags.
    pub case_insensitive: bool,
    pub multi_line: bool,
    pub dot_all: bool,
}

// ── Specification ───────────────────────────────────────────────────────────

pub open spec fn is_flag(c: char) -> bool {
    c == 'i' || c == 'm' || c == 's'
}

pub open spec fn is_ascii_letter(c: char) -> bool {
    ('a' <= c && c <= 'z') || ('A' <= c && c <= 'Z')
}

pub open spec fn all_flags(s: Seq<char>) -> bool {
    forall|k: int| 0 <= k < s.len() ==> is_flag(#[trigger] s[k])
}

pub open spec fn all_letters(s: Seq<char>) -> bool {
    forall|k: int| 0 <= k < s.len() ==> is_ascii_letter(#[trigger] s[k])
}

/// What the backward scan for the closing `/` finds.
pub enum ClosingScan {
    /// The closing `/` is at this position.
    At(int),
    /// The trailing letters include `g`.
    GlobalFlag,
    /// The trailing letters include these unsupported ones.
    BadFlags(Seq<char>),
    NotTerminated,
}

/// Scan `t` backward from position `i` (down to 1) for the last `/` whose
/// tail is all flags. A tail of letters that are not all flags is an error.
pub open spec fn scan_closing(t: Seq<char>, i: int) -> ClosingScan
    decreases i,
{
    if i < 1 || i >= t.len() {
        ClosingScan::NotTerminated
    } else if t[i] == '/' {
        let tail = t.subrange(i + 1, t.len() as int);
        if all_flags(tail) {
            ClosingScan::At(i)
        } else if tail.len() > 0 && all_letters(tail) {
            if tail.contains('g') {
                ClosingScan::GlobalFlag
            } else {
                ClosingScan::BadFlags(tail.filter(|c: char| !is_flag(c)))
            }
        } else {
            scan_closing(t, i - 1)
        }
    } else {
        scan_closing(t, i - 1)
    }
}

/// `s` with each `\/` replaced by `/`.
pub open spec fn unescaped(s: Seq<char>) -> Seq<char>
    decreases s.len(),
{
    if s.len() == 0 {
        Seq::empty()
    } else if s.len() >= 2 && s[0] == '\\' && s[1] == '/' {
        seq!['/'] + unescaped(s.skip(2))
    } else {
        seq![s[0]] + unescaped(s.skip(1))
    }
}

/// The error message of compiling `pattern` with the given flags, or `None`
/// when it compiles.
pub uninterp spec fn regex_build_error(pattern: Seq<char>, case_insensitive: bool, multi_line: bool, dot_all: bool) -> Option<Seq<char>>;

/// Whether the regex compiled from `pattern` with the given flags matches
/// somewhere in `text` (for a pattern that compiles).
pub uninterp spec fn regex_matches(pattern: Seq<char>, case_insensitive: bool, multi_line: bool, dot_all: bool, text: Seq<char>) -> bool;

/// What parsing `raw` gives: `Ok((pattern, flags))` for a well-formed
/// literal (the compile step aside), or the error message.
pub open spec fn literal_parts(raw: Seq<char>) -> Result<(Seq<char>, Seq<char>), Seq<char>> {
    let t = trim(raw);
    if !(t.len() > 0 && t[0] == '/') {
        Err("regex literal must start with '/', got '"@ + raw + "'"@)
    } else if t.len() < 2 {
        Err("regex literal '"@ + raw + "' is unterminated (missing closing '/')"@)
    } else {
        match scan_closing(t, t.len() - 1) {
            ClosingScan::GlobalFlag => Err(global_flag_message(raw)),
            ClosingScan::BadFlags(bad) => Err(bad_flags_message(raw, bad)),
            ClosingScan::NotTerminated => Err("regex literal '"@ + raw + "' is not terminated (missing closing '/')"@),
            ClosingScan::At(end) => if end == 1 {
                Err("regex literal '"@ + raw + "' has an empty pattern"@)
            } else {
                Ok((unescaped(t.subrange(1, end)), t.subrange(end + 1, t.len() as int)))
            },
        }
    }
}

pub open spec fn global_flag_message(raw: Seq<char>) -> Seq<char> {
    "regex '"@ + raw
        + "' uses the 'g' flag, which is not meaningful for boolean matching in ail — matching is match/no-match, not iterative. Remove the flag."@
}

pub open spec fn bad_flags_message(raw: Seq<char>, bad: Seq<char>) -> Seq<char> {
    "regex '"@ + raw + "' uses unsupported flag(s): '"@ + bad
        + "'. Only 'i', 'm', 's' are accepted as trailing flags. Use inline flag syntax like (?x) inside the pattern for other modes."@
}

// ── Implementation ──────────────────────────────────────────────────────────

/// Calls `regex::RegexBuilder` on `pattern` with the three flags set as
/// given and `build`; a failure gives the builder's error message. The
/// outcome is named, not stated: the regex syntax is the crate's to define.
#[verifier::external_body]
fn build_regex(pattern: &str, case_insensitive: bool, multi_line: bool, dot_all: bool) -> (r: Result<regex::Regex, String>)
    ensures
        match r {
            Ok(_) => regex_build_error(pattern@, case_insensitive, multi_line, dot_all) is None,
            Err(m) => regex_build_error(pattern@, case_insensitive, multi_line, dot_all) == Some(m@),
        },
{
    regex::RegexBuilder::new(pattern)
        .case_insensitive(case_insensitive)
        .multi_line(multi_line)
        .dot_matches_new_line(dot_all)
        .build()
        .map_err(|e| e.to_string())
}

/// Calls `regex::RegexBuilder` on `pattern` with the three flags set as
/// given, `build`, and `Regex::is_match` on `text`: `None` when the pattern
/// does not compile. What matches is named, not stated: the regex syntax is
/// the crate's to define.
#[verifier::external_body]
pub(crate) fn regex_match_text(pattern: &str, case_insensitive: bool, multi_line: bool, dot_all: bool, text: &str) -> (r: Option<bool>)
    ensures
        match r {
            None => regex_build_error(pattern@, case_insensitive, multi_line, dot_all) is Some,
            Some(b) => regex_build_error(pattern@, case_insensitive, multi_line, dot_all) is None
                && b == regex_matches(pattern@, case_insensitive, multi_line, dot_all, text@),
        },
{
    regex::RegexBuilder::new(pattern)
        .case_insensitive(case_insensitive)
        .multi_line(multi_line)
        .dot_matches_new_line(dot_all)
        .build()
        .ok()
        .map(|re| re.is_match(text))
}

fn all_flags_exec(t: &Vec<char>, from: usize) -> (b: bool)
    requires
        from <= t@.len(),
    ensures
        b == all_flags(t@.subrange(from as int, t@.len() as int)),
{
    let mut k = from;
    while k < t.len()
        invariant
            from <= k <= t@.len(),
            forall|j: int| from <= j < k ==> is_flag(#[trigger] t@[j]),
        decreases t@.len() - k,
    {
        let c = t[k];
        if !(c == 'i' || c == 'm' || c == 's') {
            assert(t@.subrange(from as int, t@.len() as int)[k - from] == c);
            return false;
        }
        k += 1;
    }
    assert(forall|j: int| 0 <= j < t@.len() - from ==> t@.subrange(from as int, t@.len() as int)[j] == t@[j + from]);
    true
}

fn all_letters_exec(t: &Vec<char>, from: usize) -> (b: bool)
    requires
        from <= t@.len(),
    ensures
        b == all_letters(t@.subrange(from as int, t@.len() as int)),
{
    let mut k = from;
    while k < t.len()
        invariant
            from <= k <= t@.len(),
            forall|j: int| from <= j < k ==> is_ascii_letter(#[trigger] t@[j]),
        decreases t@.len() - k,
    {
        let c = t[k];
        if !(('a' <= c && c <= 'z') || ('A' <= c && c <= 'Z')) {
            assert(t@.subrange(from as int, t@.len() as int)[k - from] == c);
            return false;
        }
        k += 1;
    }
    assert(forall|j: int| 0 <= j < t@.len() - from ==> t@.subrange(from as int, t@.len() as int)[j] == t@[j + from]);
    true
}

/// The characters of `t` from `from` on that are not flags, in order, and
/// whether `g` is among them.
fn non_flags(t: &Vec<char>, from: usize) -> (r: (Vec<char>, bool))
    requires
        from <= t@.len(),
    ensures
        r.0@ == t@.subrange(from as int, t@.len() as int).filter(|c: char| !is_flag(c)),
        r.1 == t@.subrange(from as int, t@.len() as int).contains('g'),
{
    let ghost tail = t@.subrange(from as int, t@.len() as int);
    let mut out: Vec<char> = Vec::new();
    let mut has_g = false;
    let mut k = from;
    while k < t.len()
        invariant
            from <= k <= t@.len(),
            tail == t@.subrange(from as int, t@.len() as int),
            out@ == tail.take(k - from).filter(|c: char| !is_flag(c)),
            has_g == tail.take(k - from).contains('g'),
        decreases t@.len() - k,
    {
        let c = t[k];
        proof {
            let pre = tail.take(k - from);
            let next = tail.take(k + 1 - from);
            assert(next =~= pre.push(c));
            pre.lemma_filter_push(c, |c: char| !is_flag(c));
            vstd::seq_lib::lemma_seq_contains_after_push(pre, c, 'g');
        }
        if !(c == 'i' || c == 'm' || c == 's') {
            out.push(c);
        }
        if c == 'g' {
            has_g = true;
        }
        k += 1;
    }
    assert(tail.take(tail.len() as int) =~= tail);
    (out, has_g)
}

/// Replace `\/` with `/` in a pattern body; other escapes stay as they are
/// for the regex engine.
fn unescape_forward_slashes(s: &Vec<char>, lo: usize, hi: usize) -> (r: String)
    requires
        lo <= hi <= s@.len(),
    ensures
        r@ == unescaped(s@.subrange(lo as int, hi as int)),
{
    let mut out = String::new();
    let mut k = lo;
    while k < hi
        invariant
            lo <= k <= hi <= s@.len(),
            out@ + unescaped(s@.subrange(k as int, hi as int)) == unescaped(s@.subrange(lo as int, hi as int)),
        decreases hi - k,
    {
        let ghost rest = s@.subrange(k as int, hi as int);
        let ghost before = out@;
        if k + 1 < hi && s[k] == '\\' && s[k + 1] == '/' {
            crate::text::push_char(&mut out, '/');
            proof {
                assert(rest.skip(2) =~= s@.subrange(k + 2, hi as int));
                assert(unescaped(rest) == seq!['/'] + unescaped(rest.skip(2)));
                assert(out@ + unescaped(rest.skip(2)) =~= before + (seq!['/'] + unescaped(rest.skip(2))));
            }
            k += 2;
        } else {
            let c = s[k];
            crate::text::push_char(&mut out, c);
            proof {
                assert(rest.skip(1) =~= s@.subrange(k + 1, hi as int));
                assert(unescaped(rest) == seq![c] + unescaped(rest.skip(1)));
                assert(out@ + unescaped(rest.skip(1)) =~= before + (seq![c] + unescaped(rest.skip(1))));
            }
            k += 1;
        }
    }
    assert(s@.subrange(hi as int, hi as int) =~= Seq::<char>::empty());
    out
}

fn message3(a: &str, raw: &str, b: &str) -> (m: String)
    ensures
        m@ == a@ + raw@ + b@,
{
    let mut m = String::from_str(a);
    m.append(raw);
    m.append(b);
    m
}

/// Parse a `/PATTERN/FLAGS` literal. The closing `/` is the last `/` that
/// only flag characters follow; `g` and other trailing letters are refused;
/// `\/` in the pattern stands for `/`. Errors are human-readable messages.
pub fn parse_regex_literal(raw: &str) -> (r: Result<ParsedRegex, String>)
    ensures
        match literal_parts(raw@) {
            Err(m) => r matches Err(e) && e@ == m,
            Ok((pattern, flags)) => match regex_build_error(pattern, flags.contains('i'), flags.contains('m'), flags.contains('s')) {
                Some(m) => r matches Err(e) && e@ == "regex '"@ + raw@ + "' failed to compile: "@ + m,
                None => r matches Ok(p) && p.source@ == trim(raw@) && p.pattern@ == pattern && p.case_insensitive
                    == flags.contains('i') && p.multi_line == flags.contains('m') && p.dot_all == flags.contains('s'),
            },
        },
{
    let trimmed = trim_str(raw);
    let t = to_chars(trimmed.as_str());
    if !(t.len() > 0 && t[0] == '/') {
        return Err(message3("regex literal must start with '/', got '", raw, "'"));
    }
    if t.len() < 2 {
        return Err(message3("regex literal '", raw, "' is unterminated (missing closing '/')"));
    }
    let mut end: Option<usize> = None;
    let mut i = t.len() - 1;
    while i >= 1 && end.is_none()
        invariant
            t@ == trim(raw@),
            t@.len() >= 2,
            t@[0] == '/',
            i < t.len(),
            end matches Some(e) ==> scan_closing(t@, t@.len() - 1) == ClosingScan::At(e as int) && 1 <= e < t@.len(),
            end is None ==> scan_closing(t@, t@.len() - 1) == scan_closing(t@, i as int),
        decreases i + (if end is None { 1int } else { 0int }),
    {
        if t[i] == '/' {
            if all_flags_exec(&t, i + 1) {
                end = Some(i);
            } else if i + 1 < t.len() && all_letters_exec(&t, i + 1) {
                let (bad, has_g) = non_flags(&t, i + 1);
                let ghost tail = t@.subrange(i + 1, t@.len() as int);
                assert(tail.len() > 0);
                if has_g {
                    let mut m = String::from_str("regex '");
                    m.append(raw);
                    m.append("' uses the 'g' flag, which is not meaningful for boolean matching in ail — matching is match/no-match, not iterative. Remove the flag.");
                    assert(scan_closing(t@, i as int) == ClosingScan::GlobalFlag);
                    assert(literal_parts(raw@) == Err::<(Seq<char>, Seq<char>), Seq<char>>(global_flag_message(raw@)));
                    assert(m@ =~= global_flag_message(raw@));
                    return Err(m);
                }
                let mut m = String::from_str("regex '");
                m.append(raw);
                m.append("' uses unsupported flag(s): '");
                m.append(string_of(&bad, 0, bad.len()).as_str());
                m.append("'. Only 'i', 'm', 's' are accepted as trailing flags. Use inline flag syntax like (?x) inside the pattern for other modes.");
                proof {
                    assert(bad@.subrange(0, bad@.len() as int) =~= bad@);
                    assert(scan_closing(t@, i as int) == ClosingScan::BadFlags(bad@));
                    assert(literal_parts(raw@) == Err::<(Seq<char>, Seq<char>), Seq<char>>(bad_flags_message(raw@, bad@)));
                    assert(m@ =~= bad_flags_message(raw@, bad@));
                }
                return Err(m);
            }
        }
        if end.is_none() {
            i -= 1;
        }
    }
    let end = match end {
        Some(e) => e,
        None => {
            proof {
                assert(scan_closing(t@, 0) == ClosingScan::NotTerminated);
            }
            return Err(message3("regex literal '", raw, "' is not terminated (missing closing '/')"));
        },
    };
    if end == 1 {
        return Err(message3("regex literal '", raw, "' has an empty pattern"));
    }
    let pattern = unescape_forward_slashes(&t, 1, end);
    let mut ci = false;
    let mut ml = false;
    let mut da = false;
    let mut k = end + 1;
    while k < t.len()
        invariant
            end + 1 <= k <= t@.len(),
            ci == t@.subrange(end + 1, k as int).contains('i'),
            ml == t@.subrange(end + 1, k as int).contains('m'),
            da == t@.subrange(end + 1, k as int).contains('s'),
        decreases t@.len() - k,
    {
        let c = t[k];
        proof {
            assert(t@.subrange(end + 1, k + 1) =~= t@.subrange(end + 1, k as int).push(c));
            vstd::seq_lib::lemma_seq_contains_after_push(t@.subrange(end + 1, k as int), c, 'i');
            vstd::seq_lib::lemma_seq_contains_after_push(t@.subrange(end + 1, k as int), c, 'm');
            vstd::seq_lib::lemma_seq_contains_after_push(t@.subrange(end + 1, k as int), c, 's');
        }
        if c == 'i' {
            ci = true;
        }
        if c == 'm' {
            ml = true;
        }
        if c == 's' {
            da = true;
        }
        k += 1;
    }
    match build_regex(pattern.as_str(), ci, ml, da) {
        Ok(regex) => Ok(ParsedRegex { source: trimmed, regex, pattern, case_insensitive: ci, multi_line: ml, dot_all: da }),
        Err(e) => {
            let mut m = String::from_str("regex '");
            m.append(raw);
            m.append("' failed to compile: ");
            m.append(e.as_str());
            Err(m)
        },
    }
}

} // verus!
