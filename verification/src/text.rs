//! Character-level text helpers with exact specifications.
//!
//! Strings are specified through their view, the sequence of Unicode
//! scalar values (`Seq<char>`). Each helper states the std behaviour it
//! reproduces (`str::trim`, `str::find`, `u32::from_str`, ...).

use vstd::prelude::*;

verus! {

broadcast use vstd::string::group_string_axioms;

/// Append one character to a `String` (wraps `String::push`).
#[verifier::external_body]
pub fn push_char(s: &mut String, c: char)
    ensures
        final(s)@ == old(s)@.push(c),
{
    s.push(c);
}

/// The characters of a string slice, in order.
pub fn chars_of(s: &str) -> (res: Vec<char>)
    ensures
        res@ == s@,
{
    let mut out: Vec<char> = Vec::new();
    for c in it: s.chars()
        invariant
            out@ == it.seq().take(it.index() as int),
            it.seq() == s@,
    {
        out.push(c);
    }
    out
}

/// Build a `String` from a sequence of characters.
pub fn string_of(cs: &[char]) -> (res: String)
    ensures
        res@ == cs@,
{
    let mut out = String::new();
    let mut i: usize = 0;
    while i < cs.len()
        invariant
            i <= cs@.len(),
            out@ == cs@.take(i as int),
        decreases cs@.len() - i,
    {
        push_char(&mut out, cs[i]);
        i = i + 1;
    }
    out
}

/// Build a `String` from a sub-range `[from, to)` of a character slice.
pub fn string_of_range(cs: &[char], from: usize, to: usize) -> (res: String)
    requires
        from <= to <= cs@.len(),
    ensures
        res@ == cs@.subrange(from as int, to as int),
{
    let mut out = String::new();
    let mut i: usize = from;
    while i < to
        invariant
            from <= i <= to <= cs@.len(),
            out@ == cs@.subrange(from as int, i as int),
        decreases to - i,
    {
        push_char(&mut out, cs[i]);
        i = i + 1;
    }
    out
}

/// A copy of an optional string.
pub fn clone_opt(o: &Option<String>) -> (res: Option<String>)
    ensures
        res == *o,
{
    match o {
        Some(s) => Some(s.clone()),
        None => None,
    }
}

/// A copy of a list of strings.
pub fn clone_strings(v: &[String]) -> (res: Vec<String>)
    ensures
        res@ == v@,
{
    let mut out: Vec<String> = Vec::new();
    let mut i: usize = 0;
    while i < v.len()
        invariant
            i <= v@.len(),
            out@ == v@.take(i as int),
        decreases v@.len() - i,
    {
        out.push(v[i].clone());
        assert(out@ =~= v@.take(i + 1));
        i = i + 1;
    }
    assert(v@.take(v@.len() as int) =~= v@);
    out
}

/// `a + b` as a new `String`.
pub fn concat2(a: &str, b: &str) -> (res: String)
    ensures
        res@ == a@ + b@,
{
    let mut s = String::from_str(a);
    s.append(b);
    s
}

/// `a + b + c` as a new `String`.
pub fn concat3(a: &str, b: &str, c: &str) -> (res: String)
    ensures
        res@ == a@ + b@ + c@,
{
    let mut s = String::from_str(a);
    s.append(b);
    s.append(c);
    s
}

/// Copy of a string slice.
pub fn owned(a: &str) -> (res: String)
    ensures
        res@ == a@,
{
    String::from_str(a)
}

/// Character-wise equality of two string slices.
pub fn str_eq(a: &str, b: &str) -> (res: bool)
    ensures
        res == (a@ == b@),
{
    let x = chars_of(a);
    let y = chars_of(b);
    if x.len() != y.len() {
        return false;
    }
    let mut i: usize = 0;
    while i < x.len()
        invariant
            x@ == a@,
            y@ == b@,
            x@.len() == y@.len(),
            i <= x@.len(),
            forall|k: int| 0 <= k < i ==> x@[k] == y@[k],
        decreases x@.len() - i,
    {
        if x[i] != y[i] {
            return false;
        }
        i = i + 1;
    }
    assert(x@ =~= y@);
    true
}

// ---------------------------------------------------------------------------
// Character classes
// ---------------------------------------------------------------------------

/// `char::is_whitespace`: the Unicode `White_Space` property.
pub open spec fn is_ws(c: char) -> bool {
    ||| ('\u{9}' <= c && c <= '\u{d}')
    ||| c == ' '
    ||| c == '\u{85}'
    ||| c == '\u{a0}'
    ||| c == '\u{1680}'
    ||| ('\u{2000}' <= c && c <= '\u{200a}')
    ||| c == '\u{2028}'
    ||| c == '\u{2029}'
    ||| c == '\u{202f}'
    ||| c == '\u{205f}'
    ||| c == '\u{3000}'
}

pub fn is_ws_char(c: char) -> (res: bool)
    ensures
        res == is_ws(c),
{
    ('\u{9}' <= c && c <= '\u{d}') || c == ' ' || c == '\u{85}' || c == '\u{a0}' || c
        == '\u{1680}' || ('\u{2000}' <= c && c <= '\u{200a}') || c == '\u{2028}' || c
        == '\u{2029}' || c == '\u{202f}' || c == '\u{205f}' || c == '\u{3000}'
}

pub open spec fn is_digit(c: char) -> bool {
    '0' <= c && c <= '9'
}

pub open spec fn is_ascii_lower(c: char) -> bool {
    'a' <= c && c <= 'z'
}

pub open spec fn is_ascii_upper(c: char) -> bool {
    'A' <= c && c <= 'Z'
}

pub open spec fn is_ascii_alnum(c: char) -> bool {
    is_digit(c) || is_ascii_lower(c) || is_ascii_upper(c)
}

/// `char::to_ascii_lowercase`.
pub open spec fn lower_char(c: char) -> char {
    if is_ascii_upper(c) {
        ((c as u32) + 32) as char
    } else {
        c
    }
}

pub fn lower_char_exec(c: char) -> (res: char)
    ensures
        res == lower_char(c),
{
    if 'A' <= c && c <= 'Z' {
        let v: u32 = (c as u32) + 32;
        assert(v == (c as u32) + 32);
        assert(('a' as u32) <= v <= ('z' as u32));
        char_from_ascii(v)
    } else {
        c
    }
}

/// The character whose scalar value is `v`, for an ASCII `v`.
fn char_from_ascii(v: u32) -> (res: char)
    requires
        v < 128,
    ensures
        res == v as char,
{
    let b: u8 = v as u8;
    b as char
}

/// `str::to_ascii_lowercase`, character by character.
pub open spec fn lower_seq(s: Seq<char>) -> Seq<char> {
    Seq::new(s.len(), |i: int| lower_char(s[i]))
}

pub fn to_ascii_lowercase(s: &str) -> (res: String)
    ensures
        res@ == lower_seq(s@),
{
    let cs = chars_of(s);
    let mut out: Vec<char> = Vec::new();
    let mut i: usize = 0;
    while i < cs.len()
        invariant
            cs@ == s@,
            i <= cs@.len(),
            out@.len() == i,
            forall|k: int| 0 <= k < i ==> out@[k] == lower_char(cs@[k]),
        decreases cs@.len() - i,
    {
        out.push(lower_char_exec(cs[i]));
        i = i + 1;
    }
    assert(out@ =~= lower_seq(s@));
    string_of(out.as_slice())
}

// ---------------------------------------------------------------------------
// Trimming (`str::trim`)
// ---------------------------------------------------------------------------

/// Number of leading whitespace characters.
pub open spec fn leading_ws(s: Seq<char>) -> nat
    decreases s.len(),
{
    if s.len() > 0 && is_ws(s[0]) {
        1 + leading_ws(s.drop_first())
    } else {
        0
    }
}

/// Number of trailing whitespace characters.
pub open spec fn trailing_ws(s: Seq<char>) -> nat
    decreases s.len(),
{
    if s.len() > 0 && is_ws(s.last()) {
        1 + trailing_ws(s.drop_last())
    } else {
        0
    }
}

/// `str::trim_start`.
pub open spec fn trim_start(s: Seq<char>) -> Seq<char> {
    s.subrange(leading_ws(s) as int, s.len() as int)
}

/// `str::trim_end`.
pub open spec fn trim_end(s: Seq<char>) -> Seq<char> {
    s.subrange(0, s.len() - trailing_ws(s))
}

/// `str::trim`: both ends stripped of whitespace.
pub open spec fn trim(s: Seq<char>) -> Seq<char> {
    trim_end(trim_start(s))
}

/// The leading whitespace ends at the first non-whitespace character.
pub proof fn lemma_leading_ws(s: Seq<char>, i: int)
    requires
        0 <= i <= s.len(),
        forall|k: int| 0 <= k < i ==> is_ws(#[trigger] s[k]),
        i == s.len() || !is_ws(s[i]),
    ensures
        leading_ws(s) == i,
    decreases i,
{
    if i > 0 {
        let t = s.drop_first();
        assert forall|k: int| 0 <= k < i - 1 implies is_ws(#[trigger] t[k]) by {
            assert(t[k] == s[k + 1]);
        }
        if i - 1 < t.len() {
            assert(t[i - 1] == s[i]);
        }
        lemma_leading_ws(t, i - 1);
    }
}

/// The trailing whitespace starts after the last non-whitespace character.
pub proof fn lemma_trailing_ws(s: Seq<char>, j: int)
    requires
        0 <= j <= s.len(),
        forall|k: int| j <= k < s.len() ==> is_ws(#[trigger] s[k]),
        j == 0 || !is_ws(s[j - 1]),
    ensures
        trailing_ws(s) == s.len() - j,
    decreases s.len() - j,
{
    if j < s.len() {
        let t = s.drop_last();
        assert forall|k: int| j <= k < t.len() implies is_ws(#[trigger] t[k]) by {
            assert(t[k] == s[k]);
        }
        if j > 0 {
            assert(t[j - 1] == s[j - 1]);
        }
        lemma_trailing_ws(t, j);
    }
}

/// The leading whitespace is a prefix of whitespace characters followed
/// by a non-whitespace one, or the whole string.
pub proof fn lemma_leading_ws_bound(s: Seq<char>)
    ensures
        leading_ws(s) <= s.len(),
        forall|k: int| 0 <= k < leading_ws(s) ==> is_ws(#[trigger] s[k]),
        leading_ws(s) == s.len() || !is_ws(s[leading_ws(s) as int]),
    decreases s.len(),
{
    if s.len() > 0 && is_ws(s[0]) {
        let t = s.drop_first();
        lemma_leading_ws_bound(t);
        assert forall|k: int| 0 <= k < leading_ws(s) implies is_ws(#[trigger] s[k]) by {
            if k > 0 {
                assert(s[k] == t[k - 1]);
            }
        }
        if leading_ws(s) < s.len() {
            assert(s[leading_ws(s) as int] == t[leading_ws(t) as int]);
        }
    }
}

/// Start and end of `trim(s)` inside `s`.
pub fn trim_bounds(cs: &[char]) -> (res: (usize, usize))
    ensures
        res.0 <= res.1 <= cs@.len(),
        cs@.subrange(res.0 as int, res.1 as int) == trim(cs@),
{
    let n = cs.len();
    let mut i: usize = 0;
    while i < n && is_ws_char(cs[i])
        invariant
            n == cs@.len(),
            i <= n,
            forall|k: int| 0 <= k < i ==> is_ws(#[trigger] cs@[k]),
        decreases n - i,
    {
        i = i + 1;
    }
    proof {
        lemma_leading_ws(cs@, i as int);
    }
    let ghost t = trim_start(cs@);
    let mut j: usize = n;
    while j > i && is_ws_char(cs[j - 1])
        invariant
            n == cs@.len(),
            i <= j <= n,
            forall|k: int| j <= k < n ==> is_ws(#[trigger] cs@[k]),
        decreases j,
    {
        j = j - 1;
    }
    proof {
        assert(t =~= cs@.subrange(i as int, n as int));
        assert forall|k: int| (j - i) <= k < t.len() implies is_ws(#[trigger] t[k]) by {
            assert(t[k] == cs@[k + i]);
        }
        if j > i {
            assert(t[(j - i) - 1] == cs@[j - 1]);
        }
        lemma_trailing_ws(t, (j - i) as int);
        assert(trim(cs@) =~= cs@.subrange(i as int, j as int));
    }
    (i, j)
}

/// `str::trim`, as an owned `String`.
pub fn trim_str(s: &str) -> (res: String)
    ensures
        res@ == trim(s@),
{
    let cs = chars_of(s);
    let (a, b) = trim_bounds(cs.as_slice());
    string_of_range(cs.as_slice(), a, b)
}

// ---------------------------------------------------------------------------
// Searching (`str::find`, `str::starts_with`, ...)
// ---------------------------------------------------------------------------

/// `needle` occurs in `hay` at position `i`.
pub open spec fn occurs_at(hay: Seq<char>, needle: Seq<char>, i: int) -> bool {
    0 <= i && i + needle.len() <= hay.len() && hay.subrange(i, i + needle.len()) == needle
}

/// `str::find`: the first position where `needle` occurs.
pub open spec fn find_spec(hay: Seq<char>, needle: Seq<char>) -> Option<int> {
    if exists|i: int| occurs_at(hay, needle, i) {
        Some(choose|i: int| occurs_at(hay, needle, i) && forall|j: int| 0 <= j < i ==> !occurs_at(hay, needle, j))
    } else {
        None
    }
}

/// `needle` occurs at `i` and nowhere before it.
pub open spec fn first_occurrence(hay: Seq<char>, needle: Seq<char>, i: int) -> bool {
    occurs_at(hay, needle, i) && forall|j: int| 0 <= j < i ==> !occurs_at(hay, needle, j)
}

/// `find_spec` reports the first occurrence.
pub proof fn lemma_find_spec_some(hay: Seq<char>, needle: Seq<char>, i: int)
    requires
        first_occurrence(hay, needle, i),
    ensures
        find_spec(hay, needle) == Some(i),
{
    let k = choose|k: int| occurs_at(hay, needle, k) && forall|j: int| 0 <= j < k ==> !occurs_at(hay, needle, j);
    assert(occurs_at(hay, needle, k));
    if k < i {
        assert(!occurs_at(hay, needle, k));
    }
    if i < k {
        assert(!occurs_at(hay, needle, i));
    }
}

/// Does `needle` occur in `cs` at `i`?
pub fn matches_at(cs: &[char], needle: &[char], i: usize) -> (res: bool)
    ensures
        res == occurs_at(cs@, needle@, i as int),
{
    if i > cs.len() || needle.len() > cs.len() - i {
        return false;
    }
    let n = cs.len();
    let mut k: usize = 0;
    while k < needle.len()
        invariant
            n == cs@.len(),
            i + needle@.len() <= cs@.len(),
            k <= needle@.len(),
            forall|m: int| 0 <= m < k ==> cs@[i + m] == needle@[m],
        decreases needle@.len() - k,
    {
        assert(i + k < n);
        let idx: usize = i + k;
        if cs[idx] != needle[k] {
            assert(cs@.subrange(i as int, i + needle@.len())[k as int] != needle@[k as int]);
            return false;
        }
        k = k + 1;
    }
    assert(cs@.subrange(i as int, i + needle@.len()) =~= needle@);
    true
}

/// `str::find` from position `from`: the first occurrence at or after `from`.
pub fn find_from(cs: &[char], needle: &[char], from: usize) -> (res: Option<usize>)
    requires
        from <= cs@.len(),
    ensures
        match res {
            Some(i) => from <= i && occurs_at(cs@, needle@, i as int) && forall|j: int|
                from <= j < i ==> !occurs_at(cs@, needle@, j),
            None => forall|j: int| from <= j ==> !occurs_at(cs@, needle@, j),
        },
{
    let mut i: usize = from;
    while i < cs.len()
        invariant
            from <= i <= cs@.len(),
            forall|j: int| from <= j < i ==> !occurs_at(cs@, needle@, j),
        decreases cs@.len() - i,
    {
        if matches_at(cs, needle, i) {
            return Some(i);
        }
        i = i + 1;
    }
    if matches_at(cs, needle, i) {
        return Some(i);
    }
    assert forall|j: int| from <= j implies !occurs_at(cs@, needle@, j) by {
        if j > cs@.len() {
        }
    }
    None
}

/// `str::find` on character sequences.
pub fn find(cs: &[char], needle: &[char]) -> (res: Option<usize>)
    ensures
        res matches Some(i) ==> find_spec(cs@, needle@) == Some(i as int) && first_occurrence(
            cs@,
            needle@,
            i as int,
        ),
        res is None ==> find_spec(cs@, needle@) is None,
{
    let r = find_from(cs, needle, 0);
    proof {
        match r {
            Some(i) => lemma_find_spec_some(cs@, needle@, i as int),
            None => {},
        }
    }
    r
}

/// `s` begins with `p`.
pub open spec fn starts_with(s: Seq<char>, p: Seq<char>) -> bool {
    p.len() <= s.len() && s.subrange(0, p.len() as int) == p
}

/// `s` ends with `p`.
pub open spec fn ends_with(s: Seq<char>, p: Seq<char>) -> bool {
    p.len() <= s.len() && s.subrange(s.len() - p.len(), s.len() as int) == p
}

pub fn starts_with_exec(cs: &[char], p: &[char]) -> (res: bool)
    ensures
        res == starts_with(cs@, p@),
{
    matches_at(cs, p, 0)
}

pub fn ends_with_exec(cs: &[char], p: &[char]) -> (res: bool)
    ensures
        res == ends_with(cs@, p@),
{
    if p.len() > cs.len() {
        false
    } else {
        matches_at(cs, p, cs.len() - p.len())
    }
}

/// `s` contains `needle` somewhere.
pub open spec fn contains_seq(s: Seq<char>, needle: Seq<char>) -> bool {
    exists|i: int| occurs_at(s, needle, i)
}

pub fn contains_exec(cs: &[char], needle: &[char]) -> (res: bool)
    ensures
        res == contains_seq(cs@, needle@),
{
    match find_from(cs, needle, 0) {
        Some(i) => true,
        None => {
            assert forall|j: int| !occurs_at(cs@, needle@, j) by {
                if j < 0 {
                }
            }
            false
        },
    }
}

/// Position of the first occurrence of the character `c`.
pub open spec fn first_char_index(s: Seq<char>, c: char, i: int) -> bool {
    0 <= i < s.len() && s[i] == c && forall|j: int| 0 <= j < i ==> s[j] != c
}

pub fn find_char(cs: &[char], c: char) -> (res: Option<usize>)
    ensures
        res matches Some(i) ==> first_char_index(cs@, c, i as int),
        res is None ==> !cs@.contains(c),
{
    let mut i: usize = 0;
    while i < cs.len()
        invariant
            i <= cs@.len(),
            forall|j: int| 0 <= j < i ==> cs@[j] != c,
        decreases cs@.len() - i,
    {
        if cs[i] == c {
            return Some(i);
        }
        i = i + 1;
    }
    None
}

// ---------------------------------------------------------------------------
// Joining
// ---------------------------------------------------------------------------

/// `[String]::join(sep)`.
pub open spec fn join_seq(parts: Seq<Seq<char>>, sep: Seq<char>) -> Seq<char>
    decreases parts.len(),
{
    if parts.len() == 0 {
        Seq::empty()
    } else if parts.len() == 1 {
        parts[0]
    } else {
        join_seq(parts.drop_last(), sep) + sep + parts.last()
    }
}

/// The views of a vector of strings.
pub open spec fn views(v: Seq<String>) -> Seq<Seq<char>> {
    v.map_values(|s: String| s@)
}

pub fn join(parts: &[String], sep: &str) -> (res: String)
    ensures
        res@ == join_seq(views(parts@), sep@),
{
    let mut out = String::new();
    let mut i: usize = 0;
    while i < parts.len()
        invariant
            i <= parts@.len(),
            out@ == join_seq(views(parts@.take(i as int)), sep@),
        decreases parts@.len() - i,
    {
        let ghost before = views(parts@.take(i as int));
        if i > 0 {
            out.append(sep);
        }
        out.append(parts[i].as_str());
        proof {
            let now = views(parts@.take(i + 1));
            assert(now.drop_last() =~= before);
            assert(now.last() == parts@[i as int]@);
            if i == 0 {
                assert(now =~= seq![parts@[0]@]);
            }
        }
        i = i + 1;
    }
    assert(parts@.take(parts@.len() as int) =~= parts@);
    out
}

// ---------------------------------------------------------------------------
// Decimal numbers (`u32::from_str`, `u32::to_string`)
// ---------------------------------------------------------------------------

pub open spec fn digit_val(c: char) -> nat {
    ((c as int) - ('0' as int)) as nat
}

pub open spec fn all_digits(s: Seq<char>) -> bool {
    forall|i: int| 0 <= i < s.len() ==> is_digit(#[trigger] s[i])
}

/// The value of a string of decimal digits.
pub open spec fn decimal_value(s: Seq<char>) -> nat
    decreases s.len(),
{
    if s.len() == 0 {
        0
    } else {
        decimal_value(s.drop_last()) * 10 + digit_val(s.last())
    }
}

/// What `str::parse::<u32>` returns: an optional `+`, then one or more
/// decimal digits whose value fits in a `u32`.
pub open spec fn parse_u32_spec(s: Seq<char>) -> Option<u32> {
    let d = if s.len() > 0 && s[0] == '+' {
        s.drop_first()
    } else {
        s
    };
    if d.len() > 0 && all_digits(d) && decimal_value(d) <= u32::MAX {
        Some(decimal_value(d) as u32)
    } else {
        None
    }
}

proof fn lemma_decimal_prefix_le(s: Seq<char>, i: int)
    requires
        0 <= i <= s.len(),
    ensures
        decimal_value(s.take(i)) <= decimal_value(s),
    decreases s.len() - i,
{
    if i < s.len() {
        lemma_decimal_prefix_le(s, i + 1);
        assert(s.take(i + 1).drop_last() =~= s.take(i));
    } else {
        assert(s.take(i) =~= s);
    }
}

pub fn parse_u32(cs: &[char]) -> (res: Option<u32>)
    ensures
        res == parse_u32_spec(cs@),
{
    let start: usize = if cs.len() > 0 && cs[0] == '+' {
        1
    } else {
        0
    };
    let ghost d = if cs@.len() > 0 && cs@[0] == '+' {
        cs@.drop_first()
    } else {
        cs@
    };
    assert(d =~= cs@.subrange(start as int, cs@.len() as int));
    if start >= cs.len() {
        return None;
    }
    let mut acc: u64 = 0;
    let mut i: usize = start;
    while i < cs.len()
        invariant
            start <= i <= cs@.len(),
            d == cs@.subrange(start as int, cs@.len() as int),
            d == (if cs@.len() > 0 && cs@[0] == '+' {
                cs@.drop_first()
            } else {
                cs@
            }),
            acc == decimal_value(d.take(i - start)),
            acc <= u32::MAX,
            all_digits(d.take(i - start)),
        decreases cs@.len() - i,
    {
        let c = cs[i];
        if !('0' <= c && c <= '9') {
            assert(!is_digit(d[i - start]));
            return None;
        }
        let dv: u64 = ((c as u32) - ('0' as u32)) as u64;
        let next: u64 = acc * 10 + dv;
        proof {
            assert(d.take(i - start + 1).drop_last() =~= d.take(i - start));
            assert(d.take(i - start + 1).last() == c);
            assert(next == decimal_value(d.take(i - start + 1)));
            assert forall|k: int| 0 <= k < i - start + 1 implies is_digit(
                #[trigger] d.take(i - start + 1)[k],
            ) by {
                if k < i - start {
                    assert(d.take(i - start + 1)[k] == d.take(i - start)[k]);
                }
            }
        }
        if next > 0xffff_ffff {
            proof {
                lemma_decimal_prefix_le(d, i - start + 1);
            }
            return None;
        }
        acc = next;
        i = i + 1;
    }
    assert(d.take(i - start) =~= d);
    Some(acc as u32)
}

pub open spec fn digit_char(n: nat) -> char {
    (n + 48) as char
}

/// `n.to_string()` for a natural number.
pub open spec fn decimal_str(n: nat) -> Seq<char>
    decreases n,
{
    if n < 10 {
        seq![digit_char(n)]
    } else {
        decimal_str(n / 10).push(digit_char(n % 10))
    }
}

/// `u32::to_string`.
pub fn fmt_u32(n: u32) -> (res: String)
    ensures
        res@ == decimal_str(n as nat),
    decreases n,
{
    if n < 10 {
        let mut s = String::new();
        push_char(&mut s, char_from_ascii(n + 48));
        assert(s@ =~= seq![digit_char(n as nat)]);
        s
    } else {
        let mut s = fmt_u32(n / 10);
        push_char(&mut s, char_from_ascii(n % 10 + 48));
        s
    }
}

/// `usize::to_string`.
pub fn fmt_usize(n: usize) -> (res: String)
    ensures
        res@ == decimal_str(n as nat),
    decreases n,
{
    if n < 10 {
        let mut s = String::new();
        push_char(&mut s, char_from_ascii(n as u32 + 48));
        assert(s@ =~= seq![digit_char(n as nat)]);
        s
    } else {
        let mut s = fmt_usize(n / 10);
        let d: u32 = (n % 10) as u32;
        push_char(&mut s, char_from_ascii(d + 48));
        s
    }
}

/// The decimal text of a number is a non-empty run of digits that reads
/// back as the number.
pub proof fn lemma_decimal_str_digits(n: nat)
    ensures
        all_digits(decimal_str(n)),
        decimal_str(n).len() > 0,
        decimal_value(decimal_str(n)) == n,
    decreases n,
{
    assert((digit_char(n % 10) as int) == n % 10 + 48);
    if n < 10 {
        let s = decimal_str(n);
        assert(s.drop_last() =~= Seq::<char>::empty());
        assert(digit_val(s.last()) == n);
        assert(decimal_value(s.drop_last()) == 0);
        assert(decimal_value(s) == decimal_value(s.drop_last()) * 10 + digit_val(s.last()));
    } else {
        lemma_decimal_str_digits(n / 10);
        let s = decimal_str(n);
        assert(digit_val(s.last()) == n % 10);
        assert(s.drop_last() =~= decimal_str(n / 10));
        assert(decimal_value(s) == decimal_value(s.drop_last()) * 10 + digit_val(s.last()));
        assert((n / 10) * 10 + n % 10 == n);
        assert(s.drop_last() =~= decimal_str(n / 10));
        assert forall|i: int| 0 <= i < s.len() implies is_digit(#[trigger] s[i]) by {
            if i < s.len() - 1 {
                assert(s[i] == decimal_str(n / 10)[i]);
            }
        }
    }
}

/// Printing a `u32` and parsing it back gives the same number.
pub proof fn lemma_parse_fmt_u32(n: u32)
    ensures
        parse_u32_spec(decimal_str(n as nat)) == Some(n),
{
    lemma_decimal_str_digits(n as nat);
}

// ---------------------------------------------------------------------------
// Ordering and sorting
// ---------------------------------------------------------------------------

/// Lexicographic order on character sequences (the order of `str`, which
/// is also the byte order of their UTF-8 encodings).
pub open spec fn lex_le(a: Seq<char>, b: Seq<char>) -> bool
    decreases a.len(),
{
    if a.len() == 0 {
        true
    } else if b.len() == 0 {
        false
    } else if a[0] != b[0] {
        a[0] < b[0]
    } else {
        lex_le(a.drop_first(), b.drop_first())
    }
}

pub fn lex_le_exec(a: &str, b: &str) -> (res: bool)
    ensures
        res == lex_le(a@, b@),
{
    let x = chars_of(a);
    let y = chars_of(b);
    let mut i: usize = 0;
    assert(a@.skip(0) =~= a@);
    assert(b@.skip(0) =~= b@);
    while i < x.len() && i < y.len() && x[i] == y[i]
        invariant
            x@ == a@,
            y@ == b@,
            i <= x@.len(),
            i <= y@.len(),
            lex_le(a@, b@) == lex_le(a@.skip(i as int), b@.skip(i as int)),
        decreases x@.len() - i,
    {
        proof {
            let s = a@.skip(i as int);
            let t = b@.skip(i as int);
            assert(s.drop_first() =~= a@.skip(i + 1));
            assert(t.drop_first() =~= b@.skip(i + 1));
        }
        i = i + 1;
    }
    proof {
        let s = a@.skip(i as int);
        let t = b@.skip(i as int);
        if i < x@.len() && i < y@.len() {
            assert(s[0] == x@[i as int]);
            assert(t[0] == y@[i as int]);
        }
    }
    if i == x.len() {
        true
    } else if i == y.len() {
        false
    } else {
        x[i] < y[i]
    }
}

/// The lexicographic order is total.
pub proof fn lemma_lex_total(a: Seq<char>, b: Seq<char>)
    ensures
        lex_le(a, b) || lex_le(b, a),
    decreases a.len(),
{
    if a.len() > 0 && b.len() > 0 && a[0] == b[0] {
        lemma_lex_total(a.drop_first(), b.drop_first());
    }
}

/// The lexicographic order is transitive.
pub proof fn lemma_lex_trans(a: Seq<char>, b: Seq<char>, c: Seq<char>)
    requires
        lex_le(a, b),
        lex_le(b, c),
    ensures
        lex_le(a, c),
    decreases a.len(),
{
    if a.len() > 0 && b.len() > 0 && c.len() > 0 && a[0] == b[0] && b[0] == c[0] {
        lemma_lex_trans(a.drop_first(), b.drop_first(), c.drop_first());
    }
}

/// Insert `x` before the first element that is not below it.
pub open spec fn insert_sorted(x: Seq<char>, s: Seq<Seq<char>>) -> Seq<Seq<char>>
    decreases s.len(),
{
    if s.len() == 0 {
        seq![x]
    } else if lex_le(x, s[0]) {
        seq![x] + s
    } else {
        seq![s[0]] + insert_sorted(x, s.drop_first())
    }
}

/// Insertion sort in lexicographic order (what `Vec<String>::sort`
/// produces: a stable ascending order).
pub open spec fn sort_seqs(s: Seq<Seq<char>>) -> Seq<Seq<char>>
    decreases s.len(),
{
    if s.len() == 0 {
        s
    } else {
        insert_sorted(s.last(), sort_seqs(s.drop_last()))
    }
}

/// Every element is `lex_le` the next ones.
pub open spec fn sorted_seqs(s: Seq<Seq<char>>) -> bool {
    forall|i: int, j: int| 0 <= i < j < s.len() ==> lex_le(s[i], s[j])
}

proof fn lemma_insert_sorted_at(x: Seq<char>, s: Seq<Seq<char>>, i: int)
    requires
        0 <= i <= s.len(),
        forall|k: int| 0 <= k < i ==> !lex_le(x, #[trigger] s[k]),
        i == s.len() || lex_le(x, s[i]),
    ensures
        insert_sorted(x, s) == s.take(i) + seq![x] + s.skip(i),
    decreases i,
{
    if i == 0 {
        assert(s.skip(0) =~= s);
        assert(s.take(0) + seq![x] + s.skip(0) =~= seq![x] + s);
    } else {
        let t = s.drop_first();
        assert forall|k: int| 0 <= k < i - 1 implies !lex_le(x, #[trigger] t[k]) by {
            assert(t[k] == s[k + 1]);
        }
        if i < s.len() {
            assert(t[i - 1] == s[i]);
        }
        lemma_insert_sorted_at(x, t, i - 1);
        assert(s.take(i) + seq![x] + s.skip(i) =~= seq![s[0]] + (t.take(i - 1) + seq![x] + t.skip(i - 1)));
    }
}

/// Inserting into a sorted sequence keeps it sorted and adds exactly the
/// new element.
pub proof fn lemma_insert_sorted_sorted(x: Seq<char>, s: Seq<Seq<char>>)
    requires
        sorted_seqs(s),
    ensures
        sorted_seqs(insert_sorted(x, s)),
        insert_sorted(x, s).to_multiset() == s.to_multiset().insert(x),
    decreases s.len(),
{
    broadcast use vstd::seq_lib::group_to_multiset_ensures;
    if s.len() == 0 {
        assert(insert_sorted(x, s) =~= seq![x]);
        assert(seq![x] =~= Seq::<Seq<char>>::empty().push(x));
    } else if lex_le(x, s[0]) {
        let r = seq![x] + s;
        assert forall|i: int, j: int| 0 <= i < j < r.len() implies lex_le(r[i], r[j]) by {
            if i == 0 {
                if j > 1 {
                    lemma_lex_trans(x, s[0], s[j - 1]);
                }
            } else {
                assert(r[i] == s[i - 1] && r[j] == s[j - 1]);
            }
        }
        vstd::seq_lib::lemma_multiset_commutative(seq![x], s);
        assert(seq![x] =~= Seq::<Seq<char>>::empty().push(x));
    } else {
        let t = s.drop_first();
        assert(sorted_seqs(t)) by {
            assert forall|i: int, j: int| 0 <= i < j < t.len() implies lex_le(t[i], t[j]) by {
                assert(t[i] == s[i + 1] && t[j] == s[j + 1]);
            }
        }
        lemma_insert_sorted_sorted(x, t);
        let it = insert_sorted(x, t);
        let r = seq![s[0]] + it;
        lemma_lex_total(x, s[0]);
        assert forall|j: int| 0 <= j < it.len() implies lex_le(s[0], #[trigger] it[j]) by {
            assert(it.to_multiset().count(it[j]) > 0);
            assert(t.to_multiset().insert(x).count(it[j]) > 0);
            if it[j] != x {
                assert(t.to_multiset().count(it[j]) > 0);
                assert(t.contains(it[j]));
                let k = choose|k: int| 0 <= k < t.len() && t[k] == it[j];
                assert(s[k + 1] == t[k]);
            }
        }
        assert forall|i: int, j: int| 0 <= i < j < r.len() implies lex_le(r[i], r[j]) by {
            if i == 0 {
                assert(r[j] == it[j - 1]);
            } else {
                assert(r[i] == it[i - 1] && r[j] == it[j - 1]);
            }
        }
        vstd::seq_lib::lemma_multiset_commutative(seq![s[0]], it);
        vstd::seq_lib::lemma_multiset_commutative(seq![s[0]], t);
        assert(seq![s[0]] + t =~= s);
        assert(seq![s[0]] =~= Seq::<Seq<char>>::empty().push(s[0]));
    }
}

/// `sort_seqs` yields a sorted permutation of its input.
pub proof fn lemma_sort_seqs(s: Seq<Seq<char>>)
    ensures
        sorted_seqs(sort_seqs(s)),
        sort_seqs(s).to_multiset() == s.to_multiset(),
    decreases s.len(),
{
    broadcast use vstd::seq_lib::group_to_multiset_ensures;
    if s.len() > 0 {
        lemma_sort_seqs(s.drop_last());
        lemma_insert_sorted_sorted(s.last(), sort_seqs(s.drop_last()));
        assert(s.drop_last().push(s.last()) =~= s);
    }
}

/// Sort strings in ascending lexicographic order.
pub fn sort_strings(v: Vec<String>) -> (res: Vec<String>)
    ensures
        views(res@) == sort_seqs(views(v@)),
{
    let mut out: Vec<String> = Vec::new();
    let mut n: usize = 0;
    while n < v.len()
        invariant
            n <= v@.len(),
            views(out@) == sort_seqs(views(v@.take(n as int))),
        decreases v@.len() - n,
    {
        let x = &v[n];
        let ghost before = views(out@);
        let mut i: usize = 0;
        while i < out.len() && !lex_le_exec(x.as_str(), out[i].as_str())
            invariant
                i <= out@.len(),
                before == views(out@),
                forall|k: int| 0 <= k < i ==> !lex_le(x@, #[trigger] views(out@)[k]),
            decreases out@.len() - i,
        {
            i = i + 1;
        }
        proof {
            lemma_insert_sorted_at(x@, before, i as int);
        }
        out.insert(i, x.clone());
        proof {
            assert(views(out@) =~= before.take(i as int) + seq![x@] + before.skip(i as int));
            assert(views(v@.take(n + 1)).drop_last() =~= views(v@.take(n as int)));
            assert(views(v@.take(n + 1)).last() == x@);
        }
        n = n + 1;
    }
    assert(v@.take(v@.len() as int) =~= v@);
    out
}

// ---------------------------------------------------------------------------
// Lines and UTF-8
// ---------------------------------------------------------------------------

/// A character that occurs has a first occurrence.
pub proof fn lemma_first_char_exists(s: Seq<char>, c: char)
    requires
        s.contains(c),
    ensures
        exists|i: int| first_char_index(s, c, i),
    decreases s.len(),
{
    if s[0] == c {
        assert(first_char_index(s, c, 0));
    } else {
        let k = choose|k: int| 0 <= k < s.len() && s[k] == c;
        assert(s.drop_first()[k - 1] == c);
        lemma_first_char_exists(s.drop_first(), c);
        let i = choose|i: int| first_char_index(s.drop_first(), c, i);
        assert forall|j: int| 0 <= j < i + 1 implies s[j] != c by {
            if j > 0 {
                assert(s[j] == s.drop_first()[j - 1]);
            }
        }
        assert(first_char_index(s, c, i + 1));
    }
}

/// `str::split_inclusive('\n')`: the lines of `s`, each keeping its
/// newline; a last line without one is kept as is.
pub open spec fn lines_of(s: Seq<char>) -> Seq<Seq<char>>
    decreases s.len(),
{
    if s.len() == 0 {
        Seq::empty()
    } else if !s.contains('\n') {
        seq![s]
    } else {
        proof {
            lemma_first_char_exists(s, '\n');
        }
        let i = choose|i: int| first_char_index(s, '\n', i);
        seq![s.take(i + 1)] + lines_of(s.skip(i + 1))
    }
}

/// The lines of a text, each with its newline.
pub fn split_lines_inclusive(text: &str) -> (res: Vec<String>)
    ensures
        views(res@) == lines_of(text@),
{
    let cs = chars_of(text);
    let mut out: Vec<String> = Vec::new();
    let mut start: usize = 0;
    let mut i: usize = 0;
    proof {
        assert(text@.skip(0) =~= text@);
        assert(views(out@) + lines_of(text@) =~= lines_of(text@));
    }
    while i < cs.len()
        invariant
            start <= i <= cs@.len(),
            cs@ == text@,
            lines_of(text@) == views(out@) + lines_of(text@.skip(start as int)),
            forall|k: int| start <= k < i ==> cs@[k] != '\n',
        decreases cs@.len() - i,
    {
        if cs[i] == '\n' {
            let line = string_of_range(cs.as_slice(), start, i + 1);
            proof {
                let t = text@.skip(start as int);
                let j = (i - start) as int;
                assert(t[j] == '\n');
                assert(t.contains('\n'));
                assert(first_char_index(t, '\n', j));
                lemma_first_char_exists(t, '\n');
                let c = choose|c: int| first_char_index(t, '\n', c);
                assert(c == j);
                assert(t.take(j + 1) =~= cs@.subrange(start as int, i + 1));
                assert(t.skip(j + 1) =~= text@.skip(i + 1));
            }
            let ghost before = views(out@);
            out.push(line);
            proof {
                assert(views(out@) =~= before.push(cs@.subrange(start as int, i + 1)));
                assert(views(out@) + lines_of(text@.skip(i + 1)) =~= before + (seq![
                    cs@.subrange(start as int, i + 1),
                ] + lines_of(text@.skip(i + 1))));
            }
            start = i + 1;
        }
        i = i + 1;
    }
    if start < cs.len() {
        let line = string_of_range(cs.as_slice(), start, cs.len());
        proof {
            let t = text@.skip(start as int);
            assert(t =~= cs@.subrange(start as int, cs@.len() as int));
            assert(!t.contains('\n'));
        }
        let ghost before = views(out@);
        out.push(line);
        proof {
            assert(views(out@) =~= before.push(text@.skip(start as int)));
            assert(views(out@) =~= before + seq![text@.skip(start as int)]);
        }
    } else {
        proof {
            assert(text@.skip(start as int) =~= Seq::<char>::empty());
            assert(views(out@) + Seq::<Seq<char>>::empty() =~= views(out@));
        }
    }
    out
}

/// Wraps `std::str::from_utf8`: `Some` exactly when the bytes are valid
/// UTF-8, holding the characters they encode.
#[verifier::external_body]
pub(crate) fn utf8_text(bytes: &[u8]) -> (res: Option<String>)
    ensures
        res is Some <==> vstd::utf8::valid_utf8(bytes@),
        res matches Some(s) ==> s@ == vstd::utf8::decode_utf8(bytes@),
{
    match std::str::from_utf8(bytes) {
        Ok(s) => Some(s.to_string()),
        Err(_) => None,
    }
}

// ---------------------------------------------------------------------------
// Byte prefixes
// ---------------------------------------------------------------------------

/// Number of bytes `c` takes in UTF-8.
pub open spec fn utf8_width(c: char) -> nat {
    if (c as u32) < 0x80 {
        1
    } else if (c as u32) < 0x800 {
        2
    } else if (c as u32) < 0x10000 {
        3
    } else {
        4
    }
}

/// Number of bytes `s` takes in UTF-8.
pub open spec fn bytes_of(s: Seq<char>) -> nat
    decreases s.len(),
{
    if s.len() == 0 {
        0
    } else {
        bytes_of(s.drop_last()) + utf8_width(s.last())
    }
}

/// Slicing the first `n` bytes of `s` (all of it when shorter), as
/// `&s[..n.min(s.len())]` does, lands on a character boundary; otherwise
/// that slicing panics.
pub open spec fn byte_prefix_ok(s: Seq<char>, n: nat) -> bool {
    bytes_of(s) <= n || exists|k: int| 0 <= k <= s.len() && #[trigger] bytes_of(s.take(k)) == n
}

/// The characters making up the first `n` bytes of `s` (all of `s` when
/// it is shorter).
pub open spec fn byte_prefix(s: Seq<char>, n: nat) -> Seq<char> {
    if bytes_of(s) <= n {
        s
    } else {
        s.take(choose|k: int| 0 <= k <= s.len() && bytes_of(s.take(k)) == n)
    }
}

/// A longer prefix never takes fewer bytes, and a strictly longer one
/// takes strictly more.
pub proof fn lemma_bytes_of_prefix(s: Seq<char>, a: int, b: int)
    requires
        0 <= a <= b <= s.len(),
    ensures
        bytes_of(s.take(a)) <= bytes_of(s.take(b)),
        a < b ==> bytes_of(s.take(a)) < bytes_of(s.take(b)),
    decreases b - a,
{
    if a < b {
        lemma_bytes_of_prefix(s, a, b - 1);
        assert(s.take(b).drop_last() =~= s.take(b - 1));
    }
}

/// In an ASCII string every character is one byte.
pub proof fn lemma_bytes_of_ascii(s: Seq<char>)
    requires
        forall|i: int| 0 <= i < s.len() ==> (#[trigger] s[i] as u32) < 128,
    ensures
        bytes_of(s) == s.len(),
    decreases s.len(),
{
    if s.len() > 0 {
        let t = s.drop_last();
        assert forall|i: int| 0 <= i < t.len() implies (#[trigger] t[i] as u32) < 128 by {
            assert(t[i] == s[i]);
        }
        lemma_bytes_of_ascii(t);
        assert((s.last() as u32) < 128);
    }
}

/// In an ASCII string the first `n` bytes are the first `n` characters.
pub proof fn lemma_byte_prefix_ascii(s: Seq<char>, n: nat)
    requires
        forall|i: int| 0 <= i < s.len() ==> (#[trigger] s[i] as u32) < 128,
    ensures
        byte_prefix_ok(s, n),
        byte_prefix(s, n) == (if s.len() <= n { s } else { s.take(n as int) }),
{
    lemma_bytes_of_ascii(s);
    if s.len() > n {
        let t = s.take(n as int);
        assert forall|i: int| 0 <= i < t.len() implies (#[trigger] t[i] as u32) < 128 by {
            assert(t[i] == s[i]);
        }
        lemma_bytes_of_ascii(t);
        assert(bytes_of(s.take(n as int)) == n);
        let k = choose|k: int| 0 <= k <= s.len() && bytes_of(s.take(k)) == n;
        if k < n {
            lemma_bytes_of_prefix(s, k, n as int);
        } else if k > n {
            lemma_bytes_of_prefix(s, n as int, k);
        }
    }
}

fn utf8_width_exec(c: char) -> (res: usize)
    ensures
        res == utf8_width(c),
{
    let v = c as u32;
    if v < 0x80 {
        1
    } else if v < 0x800 {
        2
    } else if v < 0x10000 {
        3
    } else {
        4
    }
}

/// Number of characters making up the first `n` bytes of `cs`.
pub fn byte_prefix_len(cs: &[char], n: usize) -> (res: usize)
    requires
        byte_prefix_ok(cs@, n as nat),
        n <= 0x1000_0000,
    ensures
        res <= cs@.len(),
        cs@.take(res as int) == byte_prefix(cs@, n as nat),
{
    let mut i: usize = 0;
    let mut acc: usize = 0;
    while i < cs.len() && acc < n
        invariant
            i <= cs@.len(),
            n <= 0x1000_0000,
            acc == bytes_of(cs@.take(i as int)),
            acc <= n + 3,
            i > 0 ==> bytes_of(cs@.take(i - 1)) < n,
        decreases cs@.len() - i,
    {
        let w = utf8_width_exec(cs[i]);
        proof {
            assert(cs@.take(i + 1).drop_last() =~= cs@.take(i as int));
        }
        acc = acc + w;
        i = i + 1;
    }
    proof {
        let s = cs@;
        assert(s.take(s.len() as int) =~= s);
        if bytes_of(s) <= n {
            if i < s.len() {
                lemma_bytes_of_prefix(s, i as int, s.len() as int);
            }
            assert(s.take(i as int) =~= s);
        } else {
            let k = choose|k: int| 0 <= k <= s.len() && bytes_of(s.take(k)) == n;
            assert(acc >= n);
            if k < i {
                lemma_bytes_of_prefix(s, k, i - 1);
            } else if k > i {
                lemma_bytes_of_prefix(s, i as int, k);
            }
            assert(k == i);
        }
    }
    i
}

// ---------------------------------------------------------------------------
// Splitting at a character
// ---------------------------------------------------------------------------

/// `s` split at its first `c`: the parts before and after it.
pub open spec fn cut(s: Seq<char>, c: char) -> Option<(Seq<char>, Seq<char>)> {
    if s.contains(c) {
        let i = choose|i: int| first_char_index(s, c, i);
        Some((s.take(i), s.skip(i + 1)))
    } else {
        None
    }
}

/// `str::split_once(c)`, on characters.
pub fn cut_exec(cs: &[char], c: char) -> (res: Option<(Vec<char>, Vec<char>)>)
    ensures
        match res {
            Some(p) => cut(cs@, c) == Some((p.0@, p.1@)),
            None => cut(cs@, c) is None,
        },
{
    match find_char(cs, c) {
        None => None,
        Some(i) => {
            proof {
                let j = choose|j: int| first_char_index(cs@, c, j);
                assert(first_char_index(cs@, c, i as int));
                if j < i {
                    assert(cs@[j] != c);
                } else if j > i {
                    assert(cs@[i as int] != c);
                }
            }
            assert(i < cs.len());
            let a = vec_range(cs, 0, i);
            let b = vec_range(cs, i + 1, cs.len());
            assert(a@ =~= cs@.take(i as int));
            assert(b@ =~= cs@.skip(i + 1));
            Some((a, b))
        },
    }
}

pub fn vec_range(cs: &[char], a: usize, b: usize) -> (res: Vec<char>)
    requires
        a <= b <= cs@.len(),
    ensures
        res@ == cs@.subrange(a as int, b as int),
{
    let mut out: Vec<char> = Vec::new();
    let mut i: usize = a;
    while i < b
        invariant
            a <= i <= b,
            b <= cs@.len(),
            out@ == cs@.subrange(a as int, i as int),
        decreases b - i,
    {
        out.push(cs[i]);
        assert(cs@.subrange(a as int, i + 1) =~= cs@.subrange(a as int, i as int).push(cs@[i as int]));
        i = i + 1;
    }
    out
}

// ---------------------------------------------------------------------------
// Facts about framed text
// ---------------------------------------------------------------------------

/// Surrounding a text with newlines does not change what it trims to.
pub proof fn lemma_trim_newline_wrapped(s: Seq<char>)
    ensures
        trim(seq!['\n'] + s + seq!['\n']) == trim(s),
{
    let w = seq!['\n'] + s + seq!['\n'];
    assert(is_ws('\n'));
    lemma_leading_ws_bound(s);
    let l = leading_ws(s) as int;
    if l == s.len() {
        // all whitespace: both trim to nothing
        assert forall|k: int| 0 <= k < w.len() implies is_ws(#[trigger] w[k]) by {
            if 0 < k < w.len() - 1 {
                assert(w[k] == s[k - 1]);
            }
        }
        lemma_leading_ws(w, w.len() as int);
        assert(trim_start(w) =~= Seq::<char>::empty());
        assert(trim_start(s) =~= Seq::<char>::empty());
    } else {
        assert forall|k: int| 0 <= k < l + 1 implies is_ws(#[trigger] w[k]) by {
            if k > 0 {
                assert(w[k] == s[k - 1]);
            }
        }
        assert(w[l + 1] == s[l as int]);
        lemma_leading_ws(w, l + 1);
        let ts = trim_start(s);
        assert(trim_start(w) =~= ts.push('\n'));
        assert(ts.push('\n').drop_last() =~= ts);
        assert(trailing_ws(ts.push('\n')) == 1 + trailing_ws(ts));
        lemma_trailing_ws_le(ts);
        assert(trim_end(ts.push('\n')) =~= trim_end(ts));
    }
}

proof fn lemma_trailing_ws_le(s: Seq<char>)
    ensures
        trailing_ws(s) <= s.len(),
    decreases s.len(),
{
    if s.len() > 0 {
        lemma_trailing_ws_le(s.drop_last());
    }
}

/// A needle without newlines that occurs in neither `a` nor `b` does not
/// occur in `a`, a newline and `b`.
pub proof fn lemma_no_occurrence_across_newline(a: Seq<char>, b: Seq<char>, needle: Seq<char>)
    requires
        needle.len() > 0,
        !needle.contains('\n'),
        !contains_seq(a, needle),
        !contains_seq(b, needle),
    ensures
        !contains_seq(a + seq!['\n'] + b, needle),
{
    let h = a + seq!['\n'] + b;
    assert forall|i: int| !occurs_at(h, needle, i) by {
        if occurs_at(h, needle, i) {
            let n = needle.len() as int;
            if i + n <= a.len() {
                assert(a.subrange(i, i + n) =~= h.subrange(i, i + n));
                assert(occurs_at(a, needle, i));
            } else if i > a.len() {
                let j = i - a.len() - 1;
                assert(b.subrange(j, j + n) =~= h.subrange(i, i + n));
                assert(occurs_at(b, needle, j));
            } else {
                let k = a.len() - i;
                assert(h.subrange(i, i + n)[k] == h[a.len() as int]);
                assert(needle[k] == '\n');
            }
        }
    }
}

/// A text shorter than the needle does not contain it.
pub proof fn lemma_no_occurrence_short(a: Seq<char>, needle: Seq<char>)
    requires
        a.len() < needle.len(),
    ensures
        !contains_seq(a, needle),
{
}

/// An occurrence right after a newline, with none in the text before it,
/// is the first occurrence of a needle without newlines.
pub proof fn lemma_first_after_newline(hay: Seq<char>, needle: Seq<char>, p: int)
    requires
        occurs_at(hay, needle, p),
        needle.len() > 0,
        !needle.contains('\n'),
        p > 0,
        hay[p - 1] == '\n',
        !contains_seq(hay.take(p), needle),
    ensures
        first_occurrence(hay, needle, p),
{
    assert forall|j: int| 0 <= j < p implies !occurs_at(hay, needle, j) by {
        if occurs_at(hay, needle, j) {
            let n = needle.len() as int;
            if j + n <= p {
                assert(hay.take(p).subrange(j, j + n) =~= hay.subrange(j, j + n));
                assert(occurs_at(hay.take(p), needle, j));
            } else {
                let k = p - 1 - j;
                assert(hay.subrange(j, j + n)[k] == hay[p - 1]);
                assert(needle[k] == '\n');
            }
        }
    }
}

/// Whether `byte_prefix_ok(cs, n)` holds.
pub fn byte_prefix_ok_exec(cs: &[char], n: usize) -> (res: bool)
    requires
        n <= 0x1000_0000,
    ensures
        res == byte_prefix_ok(cs@, n as nat),
{
    let mut i: usize = 0;
    let mut acc: usize = 0;
    while i < cs.len() && acc < n
        invariant
            i <= cs@.len(),
            n <= 0x1000_0000,
            acc == bytes_of(cs@.take(i as int)),
            acc <= n + 3,
            i > 0 ==> bytes_of(cs@.take(i - 1)) < n,
        decreases cs@.len() - i,
    {
        let c = cs[i];
        let w: usize = if (c as u32) < 0x80 {
            1
        } else if (c as u32) < 0x800 {
            2
        } else if (c as u32) < 0x10000 {
            3
        } else {
            4
        };
        proof {
            assert(cs@.take(i + 1).drop_last() =~= cs@.take(i as int));
        }
        acc = acc + w;
        i = i + 1;
    }
    proof {
        let s = cs@;
        assert(s.take(s.len() as int) =~= s);
        if acc == n {
            assert(byte_prefix_ok(s, n as nat));
        } else if acc < n {
            assert(i == s.len());
        } else {
            // the prefix jumped over n: no prefix takes exactly n bytes,
            // and the whole text takes more
            assert forall|k: int| 0 <= k <= s.len() implies #[trigger] bytes_of(s.take(k)) != n by {
                if k < i {
                    lemma_bytes_of_prefix(s, k, i - 1);
                } else if k > i {
                    lemma_bytes_of_prefix(s, i as int, k);
                }
            }
            lemma_bytes_of_prefix(s, i as int, s.len() as int);
        }
    }
    acc <= n
}

} // verus!
