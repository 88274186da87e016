//! Character-level string helpers with their mathematical meaning.
//!
//! Strings are handled as sequences of `char` (`Seq<char>` in specifications,
//! `Vec<char>` in executable code). Positions are character positions.
use vstd::prelude::*;
use vstd::string::*;
use crate::error::opt_view;

verus! {

// ── Specifications ────────────────────────────────────────────────────────────

/// `needle` occurs in `hay` starting at position `i`.
pub open spec fn matches_at(hay: Seq<char>, needle: Seq<char>, i: int) -> bool {
    &&& 0 <= i
    &&& i + needle.len() <= hay.len()
    &&& forall|k: int| 0 <= k < needle.len() ==> #[trigger] hay[i + k] == needle[k]
}

/// The first position `>= from` at which `needle` occurs in `hay`.
pub open spec fn find_from(hay: Seq<char>, needle: Seq<char>, from: int) -> Option<int>
    decreases hay.len() - from,
{
    if from < 0 || from + needle.len() > hay.len() {
        None
    } else if matches_at(hay, needle, from) {
        Some(from)
    } else {
        find_from(hay, needle, from + 1)
    }
}

/// The last position `i` with `i + needle.len() <= end` at which `needle`
/// occurs in `hay`.
pub open spec fn rfind_before(hay: Seq<char>, needle: Seq<char>, end: int) -> Option<int>
    decreases end,
{
    if end < needle.len() || end > hay.len() {
        None
    } else if matches_at(hay, needle, end - needle.len()) {
        Some(end - needle.len())
    } else if end <= 0 {
        None
    } else {
        rfind_before(hay, needle, end - 1)
    }
}

/// `needle` occurs somewhere in `hay`.
pub open spec fn contains(hay: Seq<char>, needle: Seq<char>) -> bool {
    find_from(hay, needle, 0) is Some
}

/// `s` begins with `p`.
pub open spec fn starts_with(s: Seq<char>, p: Seq<char>) -> bool {
    p.len() <= s.len() && s.subrange(0, p.len() as int) == p
}

/// `s` ends with `p`.
pub open spec fn ends_with(s: Seq<char>, p: Seq<char>) -> bool {
    p.len() <= s.len() && s.subrange(s.len() - p.len(), s.len() as int) == p
}

/// The characters with the Unicode `White_Space` property (what
/// `char::is_whitespace` tests).
pub open spec fn is_white_space(c: char) -> bool {
    let u = c as u32;
    ||| 0x09 <= u <= 0x0d
    ||| u == 0x20
    ||| u == 0x85
    ||| u == 0xa0
    ||| u == 0x1680
    ||| 0x2000 <= u <= 0x200a
    ||| u == 0x2028
    ||| u == 0x2029
    ||| u == 0x202f
    ||| u == 0x205f
    ||| u == 0x3000
}

/// ASCII whitespace as `u8::is_ascii_whitespace` defines it.
pub open spec fn is_ascii_white_space(c: char) -> bool {
    c == ' ' || c == '\t' || c == '\n' || c == '\x0C' || c == '\r'
}

/// `s` without its leading whitespace.
pub open spec fn trim_start(s: Seq<char>) -> Seq<char>
    decreases s.len(),
{
    if s.len() > 0 && is_white_space(s[0]) {
        trim_start(s.drop_first())
    } else {
        s
    }
}

/// `s` without its trailing whitespace.
pub open spec fn trim_end(s: Seq<char>) -> Seq<char>
    decreases s.len(),
{
    if s.len() > 0 && is_white_space(s.last()) {
        trim_end(s.drop_last())
    } else {
        s
    }
}

/// `s` without leading and trailing whitespace (what `str::trim` returns).
pub open spec fn trim(s: Seq<char>) -> Seq<char> {
    trim_end(trim_start(s))
}

/// The decimal digit character of `d` (for `d < 10`).
pub open spec fn digit_char(d: nat) -> char {
    if d == 0 { '0' }
    else if d == 1 { '1' }
    else if d == 2 { '2' }
    else if d == 3 { '3' }
    else if d == 4 { '4' }
    else if d == 5 { '5' }
    else if d == 6 { '6' }
    else if d == 7 { '7' }
    else if d == 8 { '8' }
    else { '9' }
}

/// The decimal representation of `n`, without leading zeros.
pub open spec fn decimal(n: nat) -> Seq<char>
    decreases n,
{
    if n < 10 {
        seq![digit_char(n)]
    } else {
        decimal(n / 10).push(digit_char(n % 10))
    }
}

/// `n` in decimal, left-padded with `'0'` to at least `width` characters.
pub open spec fn zero_padded(n: nat, width: nat) -> Seq<char> {
    let d = decimal(n);
    if d.len() >= width {
        d
    } else {
        Seq::new((width - d.len()) as nat, |i: int| '0') + d
    }
}

/// The decimal representation of a signed integer.
pub open spec fn signed_decimal(n: int) -> Seq<char> {
    if n < 0 {
        seq!['-'] + decimal((-n) as nat)
    } else {
        decimal(n as nat)
    }
}

/// What `str::to_lowercase` returns for the characters `s`.
pub uninterp spec fn lowercase(s: Seq<char>) -> Seq<char>;

// ── Lemmas ───────────────────────────────────────────────────────────────────

/// A found position is a real occurrence at or after `from`.
pub proof fn lemma_find_from_sound(hay: Seq<char>, needle: Seq<char>, from: int)
    ensures
        find_from(hay, needle, from) matches Some(i) ==> from <= i && matches_at(hay, needle, i),
        find_from(hay, needle, from) is None && 0 <= from ==> forall|j: int|
            from <= j ==> !#[trigger] matches_at(hay, needle, j),
    decreases hay.len() - from,
{
    if from < 0 || from + needle.len() > hay.len() {
    } else if matches_at(hay, needle, from) {
    } else {
        lemma_find_from_sound(hay, needle, from + 1);
    }
}

/// No occurrence lies between `from` and the found position.
pub proof fn lemma_find_from_first(hay: Seq<char>, needle: Seq<char>, from: int, j: int)
    requires
        0 <= from <= j,
        find_from(hay, needle, from) matches Some(i) && j < i,
    ensures
        !matches_at(hay, needle, j),
    decreases j - from,
{
    if j == from {
    } else {
        lemma_find_from_first(hay, needle, from + 1, j);
    }
}

/// A found position (backwards) is a real occurrence ending before `end`.
pub proof fn lemma_rfind_before_sound(hay: Seq<char>, needle: Seq<char>, end: int)
    ensures
        rfind_before(hay, needle, end) matches Some(i) ==> i + needle.len() <= end
            && matches_at(hay, needle, i),
    decreases end,
{
    if end < needle.len() || end > hay.len() {
    } else if matches_at(hay, needle, end - needle.len()) {
    } else if end <= 0 {
    } else {
        lemma_rfind_before_sound(hay, needle, end - 1);
    }
}

// ── Trusted conversions from std ─────────────────────────────────────────────

/// Calls `String::push`; std documents that it appends `c` to the end.
#[verifier::external_body]
pub fn push_char(s: &mut String, c: char)
    ensures
        final(s)@ == old(s)@.push(c),
{
    s.push(c);
}

/// Calls `str::to_lowercase`; the result is named by [`lowercase`].
#[verifier::external_body]
pub fn to_lowercase(s: &str) -> (r: String)
    ensures
        r@ == lowercase(s@),
{
    s.to_lowercase()
}

// ── Executable helpers ───────────────────────────────────────────────────────

/// The views of a list of strings.
pub open spec fn views(v: Seq<String>) -> Seq<Seq<char>> {
    v.map_values(|s: String| s@)
}

/// Whether some string of `v` equals `s`.
pub fn contains_string(v: &Vec<String>, s: &str) -> (b: bool)
    ensures
        b == views(v@).contains(s@),
{
    let mut i: usize = 0;
    while i < v.len()
        invariant
            i <= v.len(),
            forall|k: int| 0 <= k < i ==> (#[trigger] v@[k])@ != s@,
        decreases v.len() - i,
    {
        if str_eq(v[i].as_str(), s) {
            assert(views(v@)[i as int] == s@);
            return true;
        }
        i += 1;
    }
    assert forall|k: int| 0 <= k < views(v@).len() implies views(v@)[k] != s@ by {
        assert(v@[k]@ != s@);
    }
    false
}

/// The index of the first string of `v` equal to `s`.
pub fn index_of_string(v: &Vec<String>, s: &str) -> (r: Option<usize>)
    ensures
        match r {
            Some(j) => j < v.len() && v@[j as int]@ == s@,
            None => !views(v@).contains(s@),
        },
{
    let mut i: usize = 0;
    while i < v.len()
        invariant
            i <= v.len(),
            forall|k: int| 0 <= k < i ==> (#[trigger] v@[k])@ != s@,
        decreases v.len() - i,
    {
        if str_eq(v[i].as_str(), s) {
            return Some(i);
        }
        i += 1;
    }
    assert forall|k: int| 0 <= k < views(v@).len() implies views(v@)[k] != s@ by {
        assert(v@[k]@ != s@);
    }
    None
}

/// A found last dot lies within the text.
pub proof fn lemma_last_dot_bounds(v: Seq<char>)
    ensures
        crate::template::last_dot(v) matches Some(d) ==> 0 <= d < v.len() && v[d] == '.',
    decreases v.len(),
{
    if v.len() > 0 && v.last() != '.' {
        lemma_last_dot_bounds(v.drop_last());
    }
}

/// A copy of an optional string.
pub fn clone_opt(o: &Option<String>) -> (r: Option<String>)
    ensures
        opt_view(r) == opt_view(*o),
{
    match o {
        Some(s) => Some(s.clone()),
        None => None,
    }
}

/// Equality of character vectors.
pub fn eq_chars(a: &Vec<char>, b: &Vec<char>) -> (r: bool)
    ensures
        r == (a@ == b@),
{
    if a.len() != b.len() {
        return false;
    }
    let mut i: usize = 0;
    while i < a.len()
        invariant
            a.len() == b.len(),
            i <= a.len(),
            forall|k: int| 0 <= k < i ==> a@[k] == b@[k],
        decreases a.len() - i,
    {
        if a[i] != b[i] {
            return false;
        }
        i += 1;
    }
    assert(a@ =~= b@);
    true
}

/// Equality of string slices.
pub fn str_eq(a: &str, b: &str) -> (r: bool)
    ensures
        r == (a@ == b@),
{
    let av = to_chars(a);
    let bv = to_chars(b);
    eq_chars(&av, &bv)
}


/// The characters of `s`.
pub fn to_chars(s: &str) -> (v: Vec<char>)
    ensures
        v@ == s@,
{
    let mut v: Vec<char> = Vec::new();
    for c in it: s.chars()
        invariant
            v@ == it.seq().take(it.index() as int),
            it.seq() == s@,
    {
        v.push(c);
    }
    v
}

/// The string made of `v[lo..hi]`.
pub fn string_of(v: &Vec<char>, lo: usize, hi: usize) -> (s: String)
    requires
        lo <= hi <= v.len(),
    ensures
        s@ == v@.subrange(lo as int, hi as int),
{
    let mut s = String::new();
    let mut i = lo;
    while i < hi
        invariant
            lo <= i <= hi <= v.len(),
            s@ == v@.subrange(lo as int, i as int),
        decreases hi - i,
    {
        push_char(&mut s, v[i]);
        assert(v@.subrange(lo as int, i + 1) == v@.subrange(lo as int, i as int).push(v@[i as int]));
        i += 1;
    }
    s
}

/// The string made of all of `v`.
pub fn string_of_all(v: &Vec<char>) -> (s: String)
    ensures
        s@ == v@,
{
    let s = string_of(v, 0, v.len());
    assert(v@.subrange(0, v@.len() as int) == v@);
    s
}

/// Whether `needle` occurs in `hay` at position `i`.
pub fn matches_at_exec(hay: &Vec<char>, needle: &Vec<char>, i: usize) -> (b: bool)
    ensures
        b == matches_at(hay@, needle@, i as int),
{
    if i > hay.len() || needle.len() > hay.len() - i {
        return false;
    }
    let mut k: usize = 0;
    while k < needle.len()
        invariant
            i + needle.len() <= hay.len(),
            k <= needle.len(),
            forall|m: int| 0 <= m < k ==> #[trigger] hay@[i + m] == needle@[m],
        decreases needle.len() - k,
    {
        if hay[i + k] != needle[k] {
            assert(hay@[i + k as int] != needle@[k as int]);
            return false;
        }
        k += 1;
    }
    true
}

/// The first position `>= from` at which `needle` occurs in `hay`.
pub fn find_from_exec(hay: &Vec<char>, needle: &Vec<char>, from: usize) -> (r: Option<usize>)
    ensures
        match r {
            Some(i) => find_from(hay@, needle@, from as int) == Some(i as int),
            None => find_from(hay@, needle@, from as int) is None,
        },
{
    let mut i = from;
    while i <= hay.len() && needle.len() <= hay.len() - i
        invariant
            from <= i,
            find_from(hay@, needle@, from as int) == find_from(hay@, needle@, i as int),
        decreases hay.len() - i,
    {
        if matches_at_exec(hay, needle, i) {
            return Some(i);
        }
        i += 1;
    }
    None
}

/// The last position `i` with `i + needle.len() <= end` at which `needle`
/// occurs in `hay`.
pub fn rfind_before_exec(hay: &Vec<char>, needle: &Vec<char>, end: usize) -> (r: Option<usize>)
    requires
        end <= hay.len(),
    ensures
        match r {
            Some(i) => rfind_before(hay@, needle@, end as int) == Some(i as int),
            None => rfind_before(hay@, needle@, end as int) is None,
        },
{
    let mut e = end;
    loop
        invariant
            e <= end <= hay.len(),
            rfind_before(hay@, needle@, end as int) == rfind_before(hay@, needle@, e as int),
        decreases e,
    {
        if e < needle.len() {
            return None;
        }
        if matches_at_exec(hay, needle, e - needle.len()) {
            return Some(e - needle.len());
        }
        if e == 0 {
            return None;
        }
        e -= 1;
    }
}

/// Whether `needle` occurs in `hay`.
pub fn contains_exec(hay: &Vec<char>, needle: &Vec<char>) -> (b: bool)
    ensures
        b == contains(hay@, needle@),
{
    find_from_exec(hay, needle, 0).is_some()
}

/// Whether `s` begins with `p`.
pub fn starts_with_exec(s: &Vec<char>, p: &Vec<char>) -> (b: bool)
    ensures
        b == starts_with(s@, p@),
{
    let b = matches_at_exec(s, p, 0);
    proof {
        if b {
            assert forall|k: int| 0 <= k < p@.len() implies s@.subrange(0, p@.len() as int)[k]
                == p@[k] by {
                assert(s@[0 + k] == p@[k]);
            }
            assert(s@.subrange(0, p@.len() as int) =~= p@);
        } else if p@.len() <= s@.len() {
            if s@.subrange(0, p@.len() as int) == p@ {
                assert forall|k: int| 0 <= k < p@.len() implies #[trigger] s@[0 + k] == p@[k] by {
                    assert(s@.subrange(0, p@.len() as int)[k] == s@[k]);
                }
            }
        }
    }
    b
}

/// Whether `s` ends with `p`.
pub fn ends_with_exec(s: &Vec<char>, p: &Vec<char>) -> (b: bool)
    ensures
        b == ends_with(s@, p@),
{
    if p.len() > s.len() {
        return false;
    }
    let start = s.len() - p.len();
    let b = matches_at_exec(s, p, start);
    proof {
        if b {
            assert forall|k: int| 0 <= k < p@.len() implies s@.subrange(
                start as int,
                s@.len() as int,
            )[k] == p@[k] by {
                assert(s@[start + k] == p@[k]);
            }
            assert(s@.subrange(start as int, s@.len() as int) =~= p@);
        } else {
            if s@.subrange(start as int, s@.len() as int) == p@ {
                assert forall|k: int| 0 <= k < p@.len() implies #[trigger] s@[start + k] == p@[k] by {
                    assert(s@.subrange(start as int, s@.len() as int)[k] == s@[start + k]);
                }
            }
        }
    }
    b
}

/// `char::is_whitespace`.
pub fn is_white_space_exec(c: char) -> (b: bool)
    ensures
        b == is_white_space(c),
{
    let u = c as u32;
    (0x09 <= u && u <= 0x0d) || u == 0x20 || u == 0x85 || u == 0xa0 || u == 0x1680 || (0x2000
        <= u && u <= 0x200a) || u == 0x2028 || u == 0x2029 || u == 0x202f || u == 0x205f || u
        == 0x3000
}

/// `u8::is_ascii_whitespace`, on a character.
pub fn is_ascii_white_space_exec(c: char) -> (b: bool)
    ensures
        b == is_ascii_white_space(c),
{
    c == ' ' || c == '\t' || c == '\n' || c == '\x0C' || c == '\r'
}

/// Trimming from position `lo` onward is trimming the suffix.
proof fn lemma_trim_start_step(s: Seq<char>, lo: int)
    requires
        0 <= lo < s.len(),
        is_white_space(s[lo]),
    ensures
        trim_start(s.subrange(lo, s.len() as int)) == trim_start(s.subrange(lo + 1, s.len() as int)),
{
    let t = s.subrange(lo, s.len() as int);
    assert(t.drop_first() =~= s.subrange(lo + 1, s.len() as int));
}

proof fn lemma_trim_end_step(s: Seq<char>, hi: int)
    requires
        0 < hi <= s.len(),
        is_white_space(s[hi - 1]),
    ensures
        trim_end(s.subrange(0, hi)) == trim_end(s.subrange(0, hi - 1)),
{
    let t = s.subrange(0, hi);
    assert(t.drop_last() =~= s.subrange(0, hi - 1));
}

/// The bounds `(lo, hi)` such that `v[lo..hi]` is `trim(v)`.
pub fn trim_bounds(v: &Vec<char>) -> (r: (usize, usize))
    ensures
        r.0 <= r.1 <= v.len(),
        v@.subrange(r.0 as int, r.1 as int) == trim(v@),
{
    let mut lo: usize = 0;
    assert(v@.subrange(0, v@.len() as int) =~= v@);
    while lo < v.len() && is_white_space_exec(v[lo])
        invariant
            lo <= v.len(),
            trim_start(v@) == trim_start(v@.subrange(lo as int, v@.len() as int)),
        decreases v.len() - lo,
    {
        proof {
            lemma_trim_start_step(v@, lo as int);
        }
        lo += 1;
    }
    let ghost ts = v@.subrange(lo as int, v@.len() as int);
    assert(trim_start(ts) == ts);
    let mut hi: usize = v.len();
    assert(ts.subrange(0, ts.len() as int) =~= ts);
    while hi > lo && is_white_space_exec(v[hi - 1])
        invariant
            lo <= hi <= v.len(),
            ts == v@.subrange(lo as int, v@.len() as int),
            trim_end(ts) == trim_end(ts.subrange(0, hi - lo)),
        decreases hi,
    {
        proof {
            assert(ts[hi - lo - 1] == v@[hi - 1]);
            lemma_trim_end_step(ts, hi - lo);
        }
        hi -= 1;
    }
    let ghost tt = ts.subrange(0, hi - lo);
    assert(trim_end(tt) == tt);
    assert(tt =~= v@.subrange(lo as int, hi as int));
    (lo, hi)
}

/// `str::trim`, on characters.
pub fn trim_chars(v: &Vec<char>) -> (r: Vec<char>)
    ensures
        r@ == trim(v@),
{
    let (lo, hi) = trim_bounds(v);
    sub_chars(v, lo, hi)
}

/// The characters `v[lo..hi]`.
pub fn sub_chars(v: &Vec<char>, lo: usize, hi: usize) -> (r: Vec<char>)
    requires
        lo <= hi <= v.len(),
    ensures
        r@ == v@.subrange(lo as int, hi as int),
{
    let mut r: Vec<char> = Vec::new();
    let mut i = lo;
    while i < hi
        invariant
            lo <= i <= hi <= v.len(),
            r@ == v@.subrange(lo as int, i as int),
        decreases hi - i,
    {
        r.push(v[i]);
        assert(v@.subrange(lo as int, i + 1) == v@.subrange(lo as int, i as int).push(v@[i as int]));
        i += 1;
    }
    r
}

/// `str::trim`, returning an owned string.
pub fn trim_str(s: &str) -> (r: String)
    ensures
        r@ == trim(s@),
{
    let v = to_chars(s);
    let (lo, hi) = trim_bounds(&v);
    string_of(&v, lo, hi)
}

/// The character of decimal digit `d`.
pub fn digit_char_exec(d: u64) -> (c: char)
    requires
        d < 10,
    ensures
        c == digit_char(d as nat),
{
    if d == 0 { '0' }
    else if d == 1 { '1' }
    else if d == 2 { '2' }
    else if d == 3 { '3' }
    else if d == 4 { '4' }
    else if d == 5 { '5' }
    else if d == 6 { '6' }
    else if d == 7 { '7' }
    else if d == 8 { '8' }
    else { '9' }
}

/// Append the decimal representation of `n` to `s`.
pub fn push_decimal(s: &mut String, n: u64)
    ensures
        final(s)@ == old(s)@ + decimal(n as nat),
    decreases n,
{
    if n >= 10 {
        push_decimal(s, n / 10);
    }
    push_char(s, digit_char_exec(n % 10));
    assert(n < 10 ==> decimal(n as nat) == seq![digit_char(n as nat)]);
}

/// Append the decimal representation of the signed `n` to `s`.
pub fn push_signed_decimal(s: &mut String, n: i32)
    ensures
        final(s)@ == old(s)@ + signed_decimal(n as int),
{
    if n < 0 {
        push_char(s, '-');
        let m: u64 = (-(n as i64)) as u64;
        push_decimal(s, m);
        assert(final(s)@ =~= old(s)@ + signed_decimal(n as int));
    } else {
        push_decimal(s, n as u64);
    }
}

/// Append the decimal representation of the signed 64-bit `n` to `s`.
pub fn push_signed_decimal_i64(s: &mut String, n: i64)
    ensures
        final(s)@ == old(s)@ + signed_decimal(n as int),
{
    if n < 0 {
        push_char(s, '-');
        let m: u64 = (-(n as i128)) as u64;
        push_decimal(s, m);
        assert(final(s)@ =~= old(s)@ + signed_decimal(n as int));
    } else {
        push_decimal(s, n as u64);
    }
}

/// The length of the decimal representation of `n`.
pub proof fn lemma_decimal_len(n: nat)
    ensures
        1 <= decimal(n).len(),
        n < 10 ==> decimal(n).len() == 1,
        10 <= n < 100 ==> decimal(n).len() == 2,
        100 <= n < 1000 ==> decimal(n).len() == 3,
        1000 <= n < 10000 ==> decimal(n).len() == 4,
    decreases n,
{
    if n >= 10 {
        lemma_decimal_len(n / 10);
    }
}

/// Append `n` in decimal, left-padded with zeros to `width` characters.
pub fn push_zero_padded(s: &mut String, n: u64, width: u64)
    requires
        width <= 20,
    ensures
        final(s)@ == old(s)@ + zero_padded(n as nat, width as nat),
{
    let mut digits: u64 = 1;
    let mut m = n;
    proof {
        lemma_u64_decimal_len(n as nat);
    }
    while m >= 10
        invariant
            1 <= digits,
            decimal(n as nat).len() <= 20,
            decimal(n as nat).len() == decimal(m as nat).len() + digits - 1,
        decreases m,
    {
        assert(decimal(m as nat) == decimal((m / 10) as nat).push(digit_char((m % 10) as nat)));
        m = m / 10;
        proof {
            lemma_decimal_len(m as nat);
        }
        digits = digits + 1;
    }
    assert(decimal(m as nat).len() == 1);
    let ghost before = s@;
    let mut pad: u64 = 0;
    while digits + pad < width
        invariant
            s@ == before + Seq::new(pad as nat, |i: int| '0'),
            digits + pad <= width || pad == 0,
            width <= 20,
            digits <= 20,
        decreases width - pad,
    {
        push_char(s, '0');
        assert(Seq::new((pad + 1) as nat, |i: int| '0') =~= Seq::new(pad as nat, |i: int| '0').push('0'));
        pad = pad + 1;
    }
    push_decimal(s, n);
    proof {
        let d = decimal(n as nat);
        if d.len() >= width {
            assert(pad == 0);
            assert(Seq::new(0nat, |i: int| '0') + d =~= d);
            assert(s@ =~= before + d);
        } else {
            assert(pad == width - d.len());
            assert(s@ =~= before + (Seq::new(pad as nat, |i: int| '0') + d));
        }
    }
}

/// A `u64` has at most twenty decimal digits.
proof fn lemma_u64_decimal_len(n: nat)
    requires
        n <= u64::MAX,
    ensures
        decimal(n).len() <= 20,
{
    reveal_with_fuel(pow10, 21);
    lemma_decimal_len_bound(n, 20);
}

proof fn lemma_decimal_len_bound(n: nat, k: nat)
    requires
        1 <= k,
        n < pow10(k),
    ensures
        decimal(n).len() <= k,
    decreases k,
{
    if n >= 10 {
        assert(k > 1) by {
            if k == 1 {
                assert(pow10(1) == 10 * pow10(0));
            }
        }
        assert(n / 10 < pow10((k - 1) as nat)) by {
            assert(pow10(k) == 10 * pow10((k - 1) as nat));
        }
        lemma_decimal_len_bound(n / 10, (k - 1) as nat);
    }
}

/// `10^k`.
pub open spec fn pow10(k: nat) -> nat
    decreases k,
{
    if k == 0 { 1 } else { 10 * pow10((k - 1) as nat) }
}

// ── Lexicographic order ─────────────────────────────────────────────────────

/// `a` sorts strictly before `b`, character by character (the order of
/// `str`'s `Ord`, as UTF-8 bytes compare as code points do).
pub open spec fn lex_lt(a: Seq<char>, b: Seq<char>) -> bool
    decreases a.len(),
{
    if b.len() == 0 {
        false
    } else if a.len() == 0 {
        true
    } else if a[0] != b[0] {
        (a[0] as u32) < (b[0] as u32)
    } else {
        lex_lt(a.drop_first(), b.drop_first())
    }
}

/// No string sorts before itself.
pub proof fn lemma_lex_irreflexive(a: Seq<char>)
    ensures
        !lex_lt(a, a),
    decreases a.len(),
{
    if a.len() > 0 {
        lemma_lex_irreflexive(a.drop_first());
    }
}

/// The order is transitive.
pub proof fn lemma_lex_transitive(a: Seq<char>, b: Seq<char>, c: Seq<char>)
    requires
        lex_lt(a, b),
        lex_lt(b, c),
    ensures
        lex_lt(a, c),
    decreases a.len(),
{
    if a.len() > 0 && b.len() > 0 && c.len() > 0 && a[0] == b[0] && b[0] == c[0] {
        lemma_lex_transitive(a.drop_first(), b.drop_first(), c.drop_first());
    }
}

/// Two different strings are ordered one way or the other.
pub proof fn lemma_lex_total(a: Seq<char>, b: Seq<char>)
    ensures
        a == b || lex_lt(a, b) || lex_lt(b, a),
    decreases a.len(),
{
    if a.len() > 0 && b.len() > 0 && a[0] == b[0] {
        lemma_lex_total(a.drop_first(), b.drop_first());
        if a.drop_first() == b.drop_first() {
            assert(a =~= seq![a[0]] + a.drop_first());
            assert(b =~= seq![b[0]] + b.drop_first());
        }
    } else if a.len() > 0 && b.len() > 0 {
        vstd::utf8::char_u32_cast(a[0], a[0] as u32);
        vstd::utf8::char_u32_cast(b[0], b[0] as u32);
        assert((a[0] as u32) != (b[0] as u32));
    } else if a.len() == 0 && b.len() == 0 {
        assert(a =~= b);
    }
}

proof fn lemma_lex_skip(a: Seq<char>, b: Seq<char>, i: int)
    requires
        0 <= i <= a.len(),
        i <= b.len(),
        a.take(i) == b.take(i),
    ensures
        lex_lt(a, b) == lex_lt(a.skip(i), b.skip(i)),
    decreases i,
{
    if i > 0 {
        assert(a[0] == a.take(i)[0]);
        assert(b[0] == b.take(i)[0]);
        assert(a.drop_first().take(i - 1) =~= a.take(i).drop_first());
        assert(b.drop_first().take(i - 1) =~= b.take(i).drop_first());
        lemma_lex_skip(a.drop_first(), b.drop_first(), i - 1);
        assert(a.drop_first().skip(i - 1) =~= a.skip(i));
        assert(b.drop_first().skip(i - 1) =~= b.skip(i));
    } else {
        assert(a.skip(0) =~= a);
        assert(b.skip(0) =~= b);
    }
}

/// Whether `a` sorts strictly before `b`.
pub fn lex_less(a: &str, b: &str) -> (r: bool)
    ensures
        r == lex_lt(a@, b@),
{
    let av = to_chars(a);
    let bv = to_chars(b);
    let mut i: usize = 0;
    while i < av.len() && i < bv.len() && av[i] == bv[i]
        invariant
            i <= av.len(),
            i <= bv.len(),
            av@.take(i as int) == bv@.take(i as int),
        decreases av.len() - i,
    {
        assert(av@.take(i + 1) =~= av@.take(i as int).push(av@[i as int]));
        assert(bv@.take(i + 1) =~= bv@.take(i as int).push(bv@[i as int]));
        i += 1;
    }
    proof {
        lemma_lex_skip(av@, bv@, i as int);
    }
    if i == bv.len() {
        assert(bv@.skip(i as int).len() == 0);
        false
    } else if i == av.len() {
        assert(av@.skip(i as int).len() == 0);
        true
    } else {
        let ca = av[i];
        let cb = bv[i];
        assert(ca != cb);
        assert(av@.skip(i as int)[0] == ca);
        assert(bv@.skip(i as int)[0] == cb);
        (ca as u32) < (cb as u32)
    }
}

/// The `Debug` text of a list of strings.
pub uninterp spec fn debug_list(items: Seq<Seq<char>>) -> Seq<char>;

/// Calls `format!("{:?}", items)`, std's `Debug` for a list of strings; the
/// text is named by [`debug_list`].
#[verifier::external_body]
pub fn debug_strings(items: &Vec<String>) -> (r: String)
    ensures
        r@ == debug_list(views(items@)),
{
    format!("{:?}", items)
}

/// Each string sorts strictly before the next ones.
pub open spec fn strictly_sorted(s: Seq<Seq<char>>) -> bool {
    forall|i: int, j: int| 0 <= i < j < s.len() ==> lex_lt(#[trigger] s[i], #[trigger] s[j])
}

/// The strings of `v`, each once, in order.
pub fn sorted_unique(v: &Vec<String>) -> (r: Vec<String>)
    ensures
        strictly_sorted(views(r@)),
        forall|x: Seq<char>| views(r@).contains(x) <==> views(v@).contains(x),
{
    let mut out: Vec<String> = Vec::new();
    let mut i: usize = 0;
    while i < v.len()
        invariant
            i <= v.len(),
            strictly_sorted(views(out@)),
            forall|x: Seq<char>| views(out@).contains(x) <==> views(v@).take(i as int).contains(x),
        decreases v.len() - i,
    {
        let x = &v[i];
        let ghost o = views(out@);
        let mut p: usize = 0;
        while p < out.len() && lex_less(out[p].as_str(), x.as_str())
            invariant
                p <= out.len(),
                o == views(out@),
                forall|q: int| 0 <= q < p ==> lex_lt(#[trigger] o[q], x@),
            decreases out.len() - p,
        {
            p += 1;
        }
        let ghost vt = views(v@).take(i as int);
        let ghost vt1 = views(v@).take(i + 1);
        assert(vt1 =~= vt.push(x@));
        if p < out.len() && str_eq(out[p].as_str(), x.as_str()) {
            assert forall|y: Seq<char>| views(out@).contains(y) <==> vt1.contains(y) by {
                if vt1.contains(y) {
                    let q = choose|q: int| 0 <= q < i + 1 && vt1[q] == y;
                    if q < i {
                        assert(vt[q] == y);
                    } else {
                        assert(o[p as int] == y);
                    }
                }
                if views(out@).contains(y) {
                    assert(vt.contains(y));
                    let q = choose|q: int| 0 <= q < i && vt[q] == y;
                    assert(vt1[q] == y);
                }
            }
        } else {
            proof {
                if p < out.len() {
                    lemma_lex_total(o[p as int], x@);
                    assert(lex_lt(x@, o[p as int]));
                    assert forall|q: int| p <= q < o.len() implies lex_lt(x@, #[trigger] o[q]) by {
                        if q > p {
                            lemma_lex_transitive(x@, o[p as int], o[q]);
                        }
                    }
                }
            }
            out.insert(p, x.clone());
            let ghost n = views(out@);
            assert(n =~= o.insert(p as int, x@));
            assert forall|a: int, b: int| 0 <= a < b < n.len() implies lex_lt(#[trigger] n[a], #[trigger] n[b]) by {
                if b < p {
                    assert(n[a] == o[a] && n[b] == o[b]);
                } else if b == p {
                    assert(n[a] == o[a]);
                } else if a < p {
                    assert(n[a] == o[a] && n[b] == o[b - 1]);
                    lemma_lex_transitive(o[a], x@, o[b - 1]);
                } else if a == p {
                    assert(n[b] == o[b - 1]);
                } else {
                    assert(n[a] == o[a - 1] && n[b] == o[b - 1]);
                }
            }
            assert forall|y: Seq<char>| n.contains(y) <==> vt1.contains(y) by {
                if n.contains(y) {
                    let q = choose|q: int| 0 <= q < n.len() && n[q] == y;
                    if q < p {
                        assert(o[q] == y);
                    } else if q > p {
                        assert(o[q - 1] == y);
                    }
                    if y != x@ {
                        assert(o.contains(y));
                        let t = choose|t: int| 0 <= t < i && vt[t] == y;
                        assert(vt1[t] == y);
                    } else {
                        assert(vt1[i as int] == y);
                    }
                }
                if vt1.contains(y) {
                    let q = choose|q: int| 0 <= q < i + 1 && vt1[q] == y;
                    if q < i {
                        assert(vt[q] == y);
                        assert(o.contains(y));
                        let t = choose|t: int| 0 <= t < o.len() && o[t] == y;
                        if t < p {
                            assert(n[t] == y);
                        } else {
                            assert(n[t + 1] == y);
                        }
                    } else {
                        assert(n[p as int] == y);
                    }
                }
            }
        }
        i += 1;
    }
    assert(views(v@).take(v.len() as int) =~= views(v@));
    out
}

// ── Occurrence of a text in another ─────────────────────────────────────────

/// `needle` occurs somewhere in `hay`, at some position.
pub open spec fn occurs_in(hay: Seq<char>, needle: Seq<char>) -> bool {
    exists|i: int| #[trigger] matches_at(hay, needle, i)
}

/// A text occurs in any text built around it.
pub proof fn lemma_occurs_in_middle(a: Seq<char>, p: Seq<char>, b: Seq<char>)
    ensures
        occurs_in(a + p + b, p),
{
    let h = a + p + b;
    assert forall|k: int| 0 <= k < p.len() implies #[trigger] h[a.len() + k] == p[k] by {
        assert((a + p)[a.len() + k] == p[k]);
    }
    assert(matches_at(h, p, a.len() as int));
}

/// What occurs in `x` occurs in any text built around `x`.
pub proof fn lemma_occurs_in_extend(a: Seq<char>, x: Seq<char>, b: Seq<char>, p: Seq<char>)
    requires
        occurs_in(x, p),
    ensures
        occurs_in(a + x + b, p),
{
    let i = choose|i: int| #[trigger] matches_at(x, p, i);
    let h = a + x + b;
    assert forall|k: int| 0 <= k < p.len() implies #[trigger] h[a.len() + i + k] == p[k] by {
        assert(x[i + k] == p[k]);
        assert((a + x)[a.len() + i + k] == x[i + k]);
    }
    assert(matches_at(h, p, a.len() + i));
}

} // verus!
