//! Character-level text primitives shared by every parser and formatter of the
//! crate. Each executable helper is tied to a spec function over `Seq<char>`
//! that states the same behaviour as the corresponding `str` method.
use vstd::prelude::*;

verus! {

/// `String::push` appends one character to the end of the string.
pub assume_specification[ String::push ](s: &mut String, ch: char)
    ensures
        final(s)@ == old(s)@.push(ch),
;

// ---------------------------------------------------------------------------
// Conversions between `str`/`String` and character vectors
// ---------------------------------------------------------------------------

/// The view of an optional string slice.
pub open spec fn opt_str(o: Option<&str>) -> Option<Seq<char>> {
    match o {
        Some(s) => Some(s@),
        None => None,
    }
}

/// The view of an optional string.
pub open spec fn opt_string(o: Option<String>) -> Option<Seq<char>> {
    match o {
        Some(s) => Some(s@),
        None => None,
    }
}

/// The characters of `s`, in order.
pub fn chars_of(s: &str) -> (v: Vec<char>)
    ensures
        v@ == s@,
{
    let mut v: Vec<char> = Vec::new();
    for c in it: s.chars()
        invariant
            v@ == it.seq().take(it.index() as int),
            it.seq() == s@,
    {
        v.push(c);
    }
    v
}

/// A `String` holding the characters `v[from..to]`.
pub fn string_of_range(v: &Vec<char>, from: usize, to: usize) -> (s: String)
    requires
        from <= to <= v@.len(),
    ensures
        s@ == v@.subrange(from as int, to as int),
{
    let mut s = String::new();
    let mut i = from;
    while i < to
        invariant
            from <= i <= to <= v@.len(),
            s@ == v@.subrange(from as int, i as int),
        decreases to - i,
    {
        s.push(v[i]);
        i = i + 1;
        proof {
            assert(s@ =~= v@.subrange(from as int, i as int));
        }
    }
    s
}

/// Appends `v[from..to]` to `out`.
pub fn push_range(out: &mut String, v: &Vec<char>, from: usize, to: usize)
    requires
        from <= to <= v@.len(),
    ensures
        final(out)@ == old(out)@ + v@.subrange(from as int, to as int),
{
    let ghost start = out@;
    let mut i = from;
    while i < to
        invariant
            from <= i <= to <= v@.len(),
            out@ == start + v@.subrange(from as int, i as int),
        decreases to - i,
    {
        out.push(v[i]);
        i = i + 1;
        proof {
            assert(out@ =~= start + v@.subrange(from as int, i as int));
        }
    }
}

/// Appends all of `s` to `out`.
pub fn push_str(out: &mut String, s: &str)
    ensures
        final(out)@ == old(out)@ + s@,
{
    let v = chars_of(s);
    push_range(out, &v, 0, v.len());
    proof {
        assert(v@.subrange(0, v@.len() as int) =~= s@);
    }
}

/// `a + b` as a new `String`.
pub fn concat2(a: &str, b: &str) -> (s: String)
    ensures
        s@ == a@ + b@,
{
    let mut s = String::new();
    push_str(&mut s, a);
    push_str(&mut s, b);
    proof {
        assert(s@ =~= a@ + b@);
    }
    s
}

/// A copy of `s` as an owned `String`.
pub fn to_owned(s: &str) -> (r: String)
    ensures
        r@ == s@,
{
    let mut r = String::new();
    push_str(&mut r, s);
    proof {
        assert(r@ =~= s@);
    }
    r
}

/// Equality of two strings, character by character.
pub fn str_eq(a: &str, b: &str) -> (r: bool)
    ensures
        r == (a@ == b@),
{
    let va = chars_of(a);
    let vb = chars_of(b);
    proof {
        assert(va@.subrange(0, va@.len() as int) =~= va@);
    }
    range_eq(&va, 0, va.len(), &vb)
}

// ---------------------------------------------------------------------------
// Comparisons on character ranges
// ---------------------------------------------------------------------------

/// Whether `v[from..to]` equals `p`.
pub fn range_eq(v: &Vec<char>, from: usize, to: usize, p: &Vec<char>) -> (r: bool)
    requires
        from <= to <= v@.len(),
    ensures
        r == (v@.subrange(from as int, to as int) == p@),
{
    if to - from != p.len() {
        proof {
            assert(v@.subrange(from as int, to as int).len() != p@.len());
        }
        return false;
    }
    let mut k: usize = 0;
    while k < p.len()
        invariant
            from <= to <= v@.len(),
            to - from == p@.len(),
            0 <= k <= p@.len(),
            forall|j: int| 0 <= j < k ==> v@[from + j] == p@[j],
        decreases p@.len() - k,
    {
        if v[from + k] != p[k] {
            proof {
                assert(v@.subrange(from as int, to as int)[k as int] != p@[k as int]);
            }
            return false;
        }
        k = k + 1;
    }
    proof {
        assert(v@.subrange(from as int, to as int) =~= p@);
    }
    true
}

/// `s` begins with `p`.
pub open spec fn starts_with(s: Seq<char>, p: Seq<char>) -> bool {
    p.len() <= s.len() && s.take(p.len() as int) == p
}

/// `s` ends with `p`.
pub open spec fn ends_with(s: Seq<char>, p: Seq<char>) -> bool {
    p.len() <= s.len() && s.skip(s.len() - p.len()) == p
}

/// Whether `v[from..to]` begins with `p`.
pub fn range_starts_with(v: &Vec<char>, from: usize, to: usize, p: &Vec<char>) -> (r: bool)
    requires
        from <= to <= v@.len(),
    ensures
        r == starts_with(v@.subrange(from as int, to as int), p@),
{
    if p.len() > to - from {
        return false;
    }
    let r = range_eq(v, from, from + p.len(), p);
    proof {
        assert(v@.subrange(from as int, to as int).take(p@.len() as int) =~= v@.subrange(
            from as int,
            from + p@.len(),
        ));
    }
    r
}

/// Whether `v[from..to]` ends with `p`.
pub fn range_ends_with(v: &Vec<char>, from: usize, to: usize, p: &Vec<char>) -> (r: bool)
    requires
        from <= to <= v@.len(),
    ensures
        r == ends_with(v@.subrange(from as int, to as int), p@),
{
    if p.len() > to - from {
        return false;
    }
    let r = range_eq(v, to - p.len(), to, p);
    proof {
        assert(v@.subrange(from as int, to as int).skip((to - from) - p@.len()) =~= v@.subrange(
            to - p@.len(),
            to as int,
        ));
    }
    r
}

/// Whether `c` occurs in `v[from..to]`.
pub fn range_contains(v: &Vec<char>, from: usize, to: usize, c: char) -> (r: bool)
    requires
        from <= to <= v@.len(),
    ensures
        r == v@.subrange(from as int, to as int).contains(c),
{
    let mut i = from;
    while i < to
        invariant
            from <= i <= to <= v@.len(),
            forall|j: int| from <= j < i ==> v@[j] != c,
        decreases to - i,
    {
        if v[i] == c {
            proof {
                assert(v@.subrange(from as int, to as int)[i - from] == c);
            }
            return true;
        }
        i = i + 1;
    }
    proof {
        if v@.subrange(from as int, to as int).contains(c) {
            let k = choose|k: int|
                0 <= k < v@.subrange(from as int, to as int).len() && v@.subrange(
                    from as int,
                    to as int,
                )[k] == c;
            assert(v@[from + k] == c);
        }
    }
    false
}

// ---------------------------------------------------------------------------
// Searching
// ---------------------------------------------------------------------------

/// Index of the first `c` in `s` at or after `i`, or `s.len()` when there is none.
pub open spec fn next_char(s: Seq<char>, c: char, i: int) -> int
    decreases s.len() - i,
{
    if i >= s.len() {
        s.len() as int
    } else if i < 0 {
        next_char(s, c, 0)
    } else if s[i] == c {
        i
    } else {
        next_char(s, c, i + 1)
    }
}

pub proof fn lemma_next_char(s: Seq<char>, c: char, i: int)
    requires
        0 <= i <= s.len(),
    ensures
        i <= next_char(s, c, i) <= s.len(),
        forall|j: int| i <= j < next_char(s, c, i) ==> s[j] != c,
        next_char(s, c, i) < s.len() ==> s[next_char(s, c, i)] == c,
    decreases s.len() - i,
{
    if i < s.len() && s[i] != c {
        lemma_next_char(s, c, i + 1);
    }
}

/// Executable [`next_char`] on `v[..to]`, starting at `from`.
pub fn find_char(v: &Vec<char>, c: char, from: usize) -> (r: usize)
    requires
        from <= v@.len(),
    ensures
        r == next_char(v@, c, from as int),
{
    let mut i = from;
    while i < v.len()
        invariant
            from <= i <= v@.len(),
            next_char(v@, c, i as int) == next_char(v@, c, from as int),
        decreases v@.len() - i,
    {
        if v[i] == c {
            return i;
        }
        i = i + 1;
    }
    i
}

/// Index of the first occurrence of `p` (non-empty) in `s` starting at or after `i`,
/// or `s.len()` when there is none.
pub open spec fn next_sub(s: Seq<char>, p: Seq<char>, i: int) -> int
    decreases s.len() + 1 - i,
{
    if i < 0 {
        next_sub(s, p, 0)
    } else if i + p.len() > s.len() {
        s.len() as int
    } else if s.subrange(i, i + p.len()) == p {
        i
    } else {
        next_sub(s, p, i + 1)
    }
}

pub proof fn lemma_next_sub(s: Seq<char>, p: Seq<char>, i: int)
    requires
        0 <= i <= s.len(),
        p.len() > 0,
    ensures
        i <= next_sub(s, p, i) <= s.len(),
        next_sub(s, p, i) < s.len() ==> next_sub(s, p, i) + p.len() <= s.len() && s.subrange(
            next_sub(s, p, i),
            next_sub(s, p, i) + p.len(),
        ) == p,
    decreases s.len() - i,
{
    if i + p.len() <= s.len() && s.subrange(i, i + p.len()) != p {
        lemma_next_sub(s, p, i + 1);
    }
}

/// Executable [`next_sub`].
pub fn find_sub(v: &Vec<char>, p: &Vec<char>, from: usize) -> (r: usize)
    requires
        from <= v@.len(),
        p@.len() > 0,
    ensures
        r == next_sub(v@, p@, from as int),
{
    let mut i = from;
    if p.len() > v.len() {
        return v.len();
    }
    while i <= v.len() - p.len()
        invariant
            0 < p@.len() <= v@.len(),
            from <= i <= v@.len(),
            next_sub(v@, p@, i as int) == next_sub(v@, p@, from as int),
        decreases v@.len() - i,
    {
        if range_eq(v, i, i + p.len(), p) {
            return i;
        }
        i = i + 1;
    }
    v.len()
}

// ---------------------------------------------------------------------------
// Whitespace and trimming
// ---------------------------------------------------------------------------

/// Unicode `White_Space`, the property behind `char::is_whitespace`.
pub open spec fn is_ws(c: char) -> bool {
    ||| ('\u{9}' <= c <= '\u{d}')
    ||| c == ' '
    ||| c == '\u{85}'
    ||| c == '\u{a0}'
    ||| c == '\u{1680}'
    ||| ('\u{2000}' <= c <= '\u{200a}')
    ||| c == '\u{2028}'
    ||| c == '\u{2029}'
    ||| c == '\u{202f}'
    ||| c == '\u{205f}'
    ||| c == '\u{3000}'
}

/// Executable [`is_ws`].
pub fn is_whitespace(c: char) -> (r: bool)
    ensures
        r == is_ws(c),
{
    ('\u{9}' <= c && c <= '\u{d}') || c == ' ' || c == '\u{85}' || c == '\u{a0}' || c
        == '\u{1680}' || ('\u{2000}' <= c && c <= '\u{200a}') || c == '\u{2028}' || c
        == '\u{2029}' || c == '\u{202f}' || c == '\u{205f}' || c == '\u{3000}'
}

/// Number of leading whitespace characters of `s`.
pub open spec fn lead_ws(s: Seq<char>) -> int
    decreases s.len(),
{
    if s.len() > 0 && is_ws(s[0]) {
        1 + lead_ws(s.drop_first())
    } else {
        0
    }
}

/// Number of trailing whitespace characters of `s`.
pub open spec fn trail_ws(s: Seq<char>) -> int
    decreases s.len(),
{
    if s.len() > 0 && is_ws(s.last()) {
        1 + trail_ws(s.drop_last())
    } else {
        0
    }
}

/// `str::trim_start`.
pub open spec fn trim_start(s: Seq<char>) -> Seq<char> {
    s.skip(lead_ws(s))
}

/// `str::trim_end`.
pub open spec fn trim_end(s: Seq<char>) -> Seq<char> {
    s.take(s.len() - trail_ws(s))
}

/// `str::trim`.
pub open spec fn trim(s: Seq<char>) -> Seq<char> {
    trim_end(trim_start(s))
}

pub proof fn lemma_lead_ws(s: Seq<char>)
    ensures
        0 <= lead_ws(s) <= s.len(),
        forall|j: int| 0 <= j < lead_ws(s) ==> is_ws(s[j]),
        lead_ws(s) < s.len() ==> !is_ws(s[lead_ws(s)]),
    decreases s.len(),
{
    if s.len() > 0 && is_ws(s[0]) {
        lemma_lead_ws(s.drop_first());
        assert forall|j: int| 0 <= j < lead_ws(s) implies is_ws(s[j]) by {
            if j > 0 {
                assert(s[j] == s.drop_first()[j - 1]);
            }
        }
    }
}

pub proof fn lemma_trail_ws(s: Seq<char>)
    ensures
        0 <= trail_ws(s) <= s.len(),
        forall|j: int| s.len() - trail_ws(s) <= j < s.len() ==> is_ws(s[j]),
        trail_ws(s) < s.len() ==> !is_ws(s[s.len() - trail_ws(s) - 1]),
    decreases s.len(),
{
    if s.len() > 0 && is_ws(s.last()) {
        lemma_trail_ws(s.drop_last());
        assert forall|j: int| s.len() - trail_ws(s) <= j < s.len() implies is_ws(s[j]) by {
            if j < s.len() - 1 {
                assert(s[j] == s.drop_last()[j]);
            }
        }
    }
}

/// `lead_ws` is determined by the first non-whitespace position.
pub proof fn lemma_lead_ws_unique(s: Seq<char>, k: int)
    requires
        0 <= k <= s.len(),
        forall|j: int| 0 <= j < k ==> is_ws(s[j]),
        k < s.len() ==> !is_ws(s[k]),
    ensures
        lead_ws(s) == k,
    decreases s.len(),
{
    if k > 0 {
        lemma_lead_ws_unique(s.drop_first(), k - 1);
    }
}

/// `trail_ws` is determined by the last non-whitespace position.
pub proof fn lemma_trail_ws_unique(s: Seq<char>, k: int)
    requires
        0 <= k <= s.len(),
        forall|j: int| s.len() - k <= j < s.len() ==> is_ws(s[j]),
        k < s.len() ==> !is_ws(s[s.len() - k - 1]),
    ensures
        trail_ws(s) == k,
    decreases s.len(),
{
    if k > 0 {
        lemma_trail_ws_unique(s.drop_last(), k - 1);
    }
}

/// The bounds of `trim(v[from..to])` inside `v`.
pub fn trim_range(v: &Vec<char>, from: usize, to: usize) -> (r: (usize, usize))
    requires
        from <= to <= v@.len(),
    ensures
        from <= r.0 <= r.1 <= to,
        v@.subrange(r.0 as int, r.1 as int) == trim(v@.subrange(from as int, to as int)),
{
    let ghost s = v@.subrange(from as int, to as int);
    let mut a = from;
    while a < to && is_whitespace(v[a])
        invariant
            from <= a <= to <= v@.len(),
            forall|j: int| from <= j < a ==> is_ws(v@[j]),
        decreases to - a,
    {
        a = a + 1;
    }
    proof {
        lemma_lead_ws_unique(s, a - from);
    }
    let ghost t = s.skip(a - from);
    let mut b = to;
    while b > a && is_whitespace(v[b - 1])
        invariant
            from <= a <= b <= to <= v@.len(),
            forall|j: int| b <= j < to ==> is_ws(v@[j]),
        decreases b - a,
    {
        b = b - 1;
    }
    proof {
        assert(t =~= v@.subrange(a as int, to as int));
        lemma_trail_ws_unique(t, to - b);
        assert(trim(s) =~= v@.subrange(a as int, b as int));
    }
    (a, b)
}

/// The end of `trim_end(v[from..to])` inside `v`.
pub fn trim_end_ws_range(v: &Vec<char>, from: usize, to: usize) -> (r: usize)
    requires
        from <= to <= v@.len(),
    ensures
        from <= r <= to,
        v@.subrange(from as int, r as int) == trim_end(v@.subrange(from as int, to as int)),
{
    let ghost s = v@.subrange(from as int, to as int);
    let mut b = to;
    while b > from && is_whitespace(v[b - 1])
        invariant
            from <= b <= to <= v@.len(),
            forall|j: int| b <= j < to ==> is_ws(v@[j]),
        decreases b - from,
    {
        b = b - 1;
    }
    proof {
        lemma_trail_ws_unique(s, to - b);
        assert(trim_end(s) =~= v@.subrange(from as int, b as int));
    }
    b
}

// ---------------------------------------------------------------------------
// Splitting into spans
// ---------------------------------------------------------------------------

/// The integer view of a vector of index pairs.
pub open spec fn spans_view(v: Seq<(usize, usize)>) -> Seq<(int, int)> {
    v.map_values(|p: (usize, usize)| (p.0 as int, p.1 as int))
}

/// The pieces `s[a..b]` named by `spans`.
pub open spec fn pieces(s: Seq<char>, spans: Seq<(int, int)>) -> Seq<Seq<char>> {
    spans.map_values(|p: (int, int)| s.subrange(p.0, p.1))
}

/// `str::lines` from position `i`: pieces split at `\n`, each losing one `\r`
/// that stood right before its `\n`; no empty piece after a final `\n`.
pub open spec fn line_spans(s: Seq<char>, i: int) -> Seq<(int, int)>
    decreases s.len() - i,
{
    if i < 0 || i >= s.len() {
        seq![]
    } else {
        let j = next_char(s, '\n', i);
        let e = if j < s.len() && j > i && s[j - 1] == '\r' {
            j - 1
        } else {
            j
        };
        if j < i {
            seq![]
        } else if j >= s.len() {
            seq![(i, e)]
        } else {
            seq![(i, e)] + line_spans(s, j + 1)
        }
    }
}

/// Every span of `line_spans(s, i)` lies inside `s`, ordered.
pub proof fn lemma_line_spans_bounds(s: Seq<char>, i: int)
    requires
        0 <= i,
    ensures
        forall|k: int|
            0 <= k < line_spans(s, i).len() ==> i <= #[trigger] line_spans(s, i)[k].0
                <= line_spans(s, i)[k].1 <= s.len(),
    decreases s.len() - i,
{
    if i < s.len() {
        lemma_next_char(s, '\n', i);
        let j = next_char(s, '\n', i);
        let e = if j < s.len() && j > i && s[j - 1] == '\r' {
            j - 1
        } else {
            j
        };
        if j < s.len() {
            lemma_line_spans_bounds(s, j + 1);
            let rest = line_spans(s, j + 1);
            assert(line_spans(s, i) == seq![(i, e)] + rest);
            assert forall|k: int| 0 <= k < line_spans(s, i).len() implies i
                <= #[trigger] line_spans(s, i)[k].0 <= line_spans(s, i)[k].1 <= s.len() by {
                if k > 0 {
                    assert(line_spans(s, i)[k] == rest[k - 1]);
                }
            }
        } else {
            assert(line_spans(s, i) == seq![(i, e)]);
        }
    }
}

/// The spans of `str::lines` over `v`.
pub fn lines_of(v: &Vec<char>) -> (r: Vec<(usize, usize)>)
    ensures
        spans_view(r@) == line_spans(v@, 0),
        forall|k: int| 0 <= k < r@.len() ==> #[trigger] r@[k].0 <= r@[k].1 <= v@.len(),
{
    let mut out: Vec<(usize, usize)> = Vec::new();
    let mut i: usize = 0;
    proof {
        lemma_line_spans_bounds(v@, 0);
    }
    while i < v.len()
        invariant
            0 <= i <= v@.len(),
            spans_view(out@) + line_spans(v@, i as int) == line_spans(v@, 0),
            forall|k: int| 0 <= k < out@.len() ==> #[trigger] out@[k].0 <= out@[k].1 <= v@.len(),
        decreases v@.len() - i,
    {
        let j = find_char(v, '\n', i);
        proof {
            lemma_next_char(v@, '\n', i as int);
        }
        let e = if j < v.len() && j > i && v[j - 1] == '\r' {
            j - 1
        } else {
            j
        };
        let ghost old_out = out@;
        out.push((i, e));
        proof {
            assert(spans_view(out@) =~= spans_view(old_out) + seq![(i as int, e as int)]);
            if j < v.len() {
                assert(line_spans(v@, i as int) == seq![(i as int, e as int)] + line_spans(
                    v@,
                    j + 1,
                ));
                assert(spans_view(out@) + line_spans(v@, j + 1) =~= spans_view(old_out)
                    + line_spans(v@, i as int));
            }
        }
        if j >= v.len() {
            proof {
                assert(line_spans(v@, i as int) == seq![(i as int, e as int)]);
                assert(spans_view(out@) =~= spans_view(old_out) + line_spans(v@, i as int));
            }
            return out;
        }
        i = j + 1;
    }
    proof {
        assert(spans_view(out@) =~= spans_view(out@) + line_spans(v@, i as int));
    }
    out
}

/// `str::split(c)` from position `i`; always at least one piece.
pub open spec fn split_spans(s: Seq<char>, c: char, i: int) -> Seq<(int, int)>
    decreases s.len() + 1 - i,
{
    if i < 0 || i > s.len() {
        seq![]
    } else {
        let j = next_char(s, c, i);
        if j >= s.len() || j < i {
            seq![(i, s.len() as int)]
        } else {
            seq![(i, j)] + split_spans(s, c, j + 1)
        }
    }
}

pub proof fn lemma_split_spans_bounds(s: Seq<char>, c: char, i: int)
    requires
        0 <= i <= s.len(),
    ensures
        split_spans(s, c, i).len() >= 1,
        forall|k: int|
            0 <= k < split_spans(s, c, i).len() ==> i <= #[trigger] split_spans(s, c, i)[k].0
                <= split_spans(s, c, i)[k].1 <= s.len(),
        forall|k: int|
            0 <= k < split_spans(s, c, i).len() ==> !s.subrange(
                #[trigger] split_spans(s, c, i)[k].0,
                split_spans(s, c, i)[k].1,
            ).contains(c),
    decreases s.len() + 1 - i,
{
    lemma_next_char(s, c, i);
    let j = next_char(s, c, i);
    let sp = split_spans(s, c, i);
    if j < s.len() {
        lemma_split_spans_bounds(s, c, j + 1);
        let rest = split_spans(s, c, j + 1);
        assert(sp == seq![(i, j)] + rest);
        assert forall|k: int| 0 <= k < sp.len() implies i <= #[trigger] sp[k].0 <= sp[k].1
            <= s.len() by {
            if k > 0 {
                assert(sp[k] == rest[k - 1]);
            }
        }
        assert forall|k: int| 0 <= k < sp.len() implies !s.subrange(
            #[trigger] sp[k].0,
            sp[k].1,
        ).contains(c) by {
            if k > 0 {
                assert(sp[k] == rest[k - 1]);
            } else {
                if s.subrange(i, j).contains(c) {
                    let m = choose|m: int| 0 <= m < s.subrange(i, j).len() && s.subrange(i, j)[m] == c;
                    assert(s[i + m] == c);
                }
            }
        }
    } else {
        assert forall|k: int| 0 <= k < sp.len() implies !s.subrange(
            #[trigger] sp[k].0,
            sp[k].1,
        ).contains(c) by {
            if s.subrange(i, s.len() as int).contains(c) {
                let m = choose|m: int|
                    0 <= m < s.subrange(i, s.len() as int).len() && s.subrange(
                        i,
                        s.len() as int,
                    )[m] == c;
                assert(s[i + m] == c);
            }
        }
    }
}

/// The spans of `str::split(c)` over `v[from..]`.
pub fn split_char(v: &Vec<char>, c: char, from: usize) -> (r: Vec<(usize, usize)>)
    requires
        from <= v@.len(),
    ensures
        spans_view(r@) == split_spans(v@, c, from as int),
        r@.len() >= 1,
        forall|k: int| 0 <= k < r@.len() ==> #[trigger] r@[k].0 <= r@[k].1 <= v@.len(),
{
    let mut out: Vec<(usize, usize)> = Vec::new();
    let mut i: usize = from;
    proof {
        lemma_split_spans_bounds(v@, c, from as int);
    }
    loop
        invariant
            from <= i <= v@.len(),
            spans_view(out@) + split_spans(v@, c, i as int) == split_spans(v@, c, from as int),
            forall|k: int| 0 <= k < out@.len() ==> #[trigger] out@[k].0 <= out@[k].1 <= v@.len(),
        decreases v@.len() - i,
    {
        let j = find_char(v, c, i);
        proof {
            lemma_next_char(v@, c, i as int);
        }
        let ghost old_out = out@;
        if j >= v.len() {
            out.push((i, v.len()));
            proof {
                assert(split_spans(v@, c, i as int) == seq![(i as int, v@.len() as int)]);
                assert(spans_view(out@) =~= spans_view(old_out) + split_spans(v@, c, i as int));
            }
            return out;
        }
        out.push((i, j));
        proof {
            assert(split_spans(v@, c, i as int) == seq![(i as int, j as int)] + split_spans(
                v@,
                c,
                j + 1,
            ));
            assert(spans_view(out@) =~= spans_view(old_out) + seq![(i as int, j as int)]);
            assert(spans_view(out@) + split_spans(v@, c, j + 1) =~= spans_view(old_out)
                + split_spans(v@, c, i as int));
        }
        i = j + 1;
    }
}

/// Index of the first whitespace character at or after `i` (or `s.len()`).
pub open spec fn next_ws(s: Seq<char>, i: int) -> int
    decreases s.len() - i,
{
    if i < 0 || i >= s.len() {
        s.len() as int
    } else if is_ws(s[i]) {
        i
    } else {
        next_ws(s, i + 1)
    }
}

/// Index of the first non-whitespace character at or after `i` (or `s.len()`).
pub open spec fn next_non_ws(s: Seq<char>, i: int) -> int
    decreases s.len() - i,
{
    if i < 0 || i >= s.len() {
        s.len() as int
    } else if !is_ws(s[i]) {
        i
    } else {
        next_non_ws(s, i + 1)
    }
}

pub proof fn lemma_next_ws(s: Seq<char>, i: int)
    requires
        0 <= i <= s.len(),
    ensures
        i <= next_ws(s, i) <= s.len(),
        i <= next_non_ws(s, i) <= s.len(),
        forall|j: int| i <= j < next_ws(s, i) ==> !is_ws(s[j]),
        forall|j: int| i <= j < next_non_ws(s, i) ==> is_ws(s[j]),
        next_ws(s, i) < s.len() ==> is_ws(s[next_ws(s, i)]),
        next_non_ws(s, i) < s.len() ==> !is_ws(s[next_non_ws(s, i)]),
    decreases s.len() - i,
{
    if i < s.len() {
        lemma_next_ws(s, i + 1);
    }
}

/// `str::split_whitespace` from position `i`.
pub open spec fn ws_spans(s: Seq<char>, i: int) -> Seq<(int, int)>
    decreases s.len() - i,
{
    if i < 0 || i >= s.len() {
        seq![]
    } else {
        let a = next_non_ws(s, i);
        if a >= s.len() || a < i {
            seq![]
        } else {
            let b = next_ws(s, a);
            if b <= a || b > s.len() {
                seq![]
            } else {
                seq![(a, b)] + ws_spans(s, b)
            }
        }
    }
}

pub proof fn lemma_ws_spans_bounds(s: Seq<char>, i: int)
    requires
        0 <= i <= s.len(),
    ensures
        forall|k: int|
            0 <= k < ws_spans(s, i).len() ==> i <= #[trigger] ws_spans(s, i)[k].0 < ws_spans(
                s,
                i,
            )[k].1 <= s.len(),
    decreases s.len() - i,
{
    if i < s.len() {
        lemma_next_ws(s, i);
        let a = next_non_ws(s, i);
        if a < s.len() {
            lemma_next_ws(s, a);
            let b = next_ws(s, a);
            lemma_ws_spans_bounds(s, b);
            let rest = ws_spans(s, b);
            assert(ws_spans(s, i) == seq![(a, b)] + rest);
            assert forall|k: int| 0 <= k < ws_spans(s, i).len() implies i <= #[trigger] ws_spans(
                s,
                i,
            )[k].0 < ws_spans(s, i)[k].1 <= s.len() by {
                if k > 0 {
                    assert(ws_spans(s, i)[k] == rest[k - 1]);
                }
            }
        }
    }
}

/// The spans of `str::split_whitespace` over all of `v`.
#[verifier::spinoff_prover]
pub fn split_ws(v: &Vec<char>) -> (r: Vec<(usize, usize)>)
    ensures
        spans_view(r@) == ws_spans(v@, 0),
        forall|k: int| 0 <= k < r@.len() ==> #[trigger] r@[k].0 < r@[k].1 <= v@.len(),
{
    let mut out: Vec<(usize, usize)> = Vec::new();
    let mut i: usize = 0;
    proof {
        lemma_ws_spans_bounds(v@, 0);
    }
    while i < v.len()
        invariant
            0 <= i <= v@.len(),
            spans_view(out@) + ws_spans(v@, i as int) == ws_spans(v@, 0),
            forall|k: int| 0 <= k < out@.len() ==> #[trigger] out@[k].0 < out@[k].1 <= v@.len(),
        decreases v@.len() - i,
    {
        let ghost i0 = i as int;
        let mut a = i;
        while a < v.len() && is_whitespace(v[a])
            invariant
                i0 <= a <= v@.len(),
                next_non_ws(v@, a as int) == next_non_ws(v@, i0),
                forall|k: int|
                    0 <= k < out@.len() ==> #[trigger] out@[k].0 < out@[k].1 <= v@.len(),
            decreases v@.len() - a,
        {
            a = a + 1;
        }
        if a >= v.len() {
            proof {
                assert(ws_spans(v@, i0) =~= seq![]);
                assert(spans_view(out@) =~= spans_view(out@) + ws_spans(v@, i0));
            }
            return out;
        }
        let mut b = a;
        while b < v.len() && !is_whitespace(v[b])
            invariant
                a <= b <= v@.len(),
                next_ws(v@, b as int) == next_ws(v@, a as int),
                forall|k: int|
                    0 <= k < out@.len() ==> #[trigger] out@[k].0 < out@[k].1 <= v@.len(),
            decreases v@.len() - b,
        {
            b = b + 1;
        }
        proof {
            lemma_next_ws(v@, a as int);
        }
        let ghost old_out = out@;
        out.push((a, b));
        proof {
            assert(ws_spans(v@, i0) == seq![(a as int, b as int)] + ws_spans(v@, b as int));
            assert(spans_view(out@) =~= spans_view(old_out) + seq![(a as int, b as int)]);
            assert(spans_view(out@) + ws_spans(v@, b as int) =~= spans_view(old_out) + ws_spans(
                v@,
                i0,
            ));
        }
        i = b;
    }
    proof {
        assert(spans_view(out@) =~= spans_view(out@) + ws_spans(v@, i as int));
    }
    out
}

// ---------------------------------------------------------------------------
// Trimming one character, and replacing substrings
// ---------------------------------------------------------------------------

/// Number of leading `c` characters of `s`.
pub open spec fn lead_c(s: Seq<char>, c: char) -> int
    decreases s.len(),
{
    if s.len() > 0 && s[0] == c {
        1 + lead_c(s.drop_first(), c)
    } else {
        0
    }
}

/// Number of trailing `c` characters of `s`.
pub open spec fn trail_c(s: Seq<char>, c: char) -> int
    decreases s.len(),
{
    if s.len() > 0 && s.last() == c {
        1 + trail_c(s.drop_last(), c)
    } else {
        0
    }
}

/// `str::trim_start_matches(c)`.
pub open spec fn trim_start_c(s: Seq<char>, c: char) -> Seq<char> {
    s.skip(lead_c(s, c))
}

/// `str::trim_end_matches(c)`.
pub open spec fn trim_end_c(s: Seq<char>, c: char) -> Seq<char> {
    s.take(s.len() - trail_c(s, c))
}

/// `str::trim_matches(c)`.
pub open spec fn trim_c(s: Seq<char>, c: char) -> Seq<char> {
    trim_end_c(trim_start_c(s, c), c)
}

pub proof fn lemma_lead_c_unique(s: Seq<char>, c: char, k: int)
    requires
        0 <= k <= s.len(),
        forall|j: int| 0 <= j < k ==> s[j] == c,
        k < s.len() ==> s[k] != c,
    ensures
        lead_c(s, c) == k,
    decreases s.len(),
{
    if k > 0 {
        lemma_lead_c_unique(s.drop_first(), c, k - 1);
    }
}

pub proof fn lemma_trail_c_unique(s: Seq<char>, c: char, k: int)
    requires
        0 <= k <= s.len(),
        forall|j: int| s.len() - k <= j < s.len() ==> s[j] == c,
        k < s.len() ==> s[s.len() - k - 1] != c,
    ensures
        trail_c(s, c) == k,
    decreases s.len(),
{
    if k > 0 {
        lemma_trail_c_unique(s.drop_last(), c, k - 1);
    }
}

/// The bounds of `trim_end_c(v[from..to], c)` inside `v`.
pub fn trim_end_char_range(v: &Vec<char>, from: usize, to: usize, c: char) -> (r: usize)
    requires
        from <= to <= v@.len(),
    ensures
        from <= r <= to,
        v@.subrange(from as int, r as int) == trim_end_c(v@.subrange(from as int, to as int), c),
{
    let ghost s = v@.subrange(from as int, to as int);
    let mut b = to;
    while b > from && v[b - 1] == c
        invariant
            from <= b <= to <= v@.len(),
            forall|j: int| b <= j < to ==> v@[j] == c,
        decreases b - from,
    {
        b = b - 1;
    }
    proof {
        lemma_trail_c_unique(s, c, to - b);
        assert(trim_end_c(s, c) =~= v@.subrange(from as int, b as int));
    }
    b
}

/// The bounds of `trim_c(v[from..to], c)` inside `v`.
pub fn trim_char_range(v: &Vec<char>, from: usize, to: usize, c: char) -> (r: (usize, usize))
    requires
        from <= to <= v@.len(),
    ensures
        from <= r.0 <= r.1 <= to,
        v@.subrange(r.0 as int, r.1 as int) == trim_c(v@.subrange(from as int, to as int), c),
{
    let ghost s = v@.subrange(from as int, to as int);
    let mut a = from;
    while a < to && v[a] == c
        invariant
            from <= a <= to <= v@.len(),
            forall|j: int| from <= j < a ==> v@[j] == c,
        decreases to - a,
    {
        a = a + 1;
    }
    proof {
        lemma_lead_c_unique(s, c, a - from);
        assert(s.skip(a - from) =~= v@.subrange(a as int, to as int));
    }
    let b = trim_end_char_range(v, a, to, c);
    (a, b)
}

/// `s.replace(p, r)` scanning from position `i`: every non-overlapping
/// occurrence of `p`, leftmost first, is replaced by `r`.
pub open spec fn replace_from(s: Seq<char>, p: Seq<char>, r: Seq<char>, i: int) -> Seq<char>
    decreases s.len() + 1 - i,
{
    if p.len() == 0 || i < 0 || i > s.len() {
        s
    } else {
        let j = next_sub(s, p, i);
        if j >= s.len() || j < i {
            s.subrange(i, s.len() as int)
        } else {
            proof {
                lemma_next_sub(s, p, i);
            }
            s.subrange(i, j) + r + replace_from(s, p, r, j + p.len())
        }
    }
}

/// `str::replace` with a non-empty pattern.
pub open spec fn replace_all(s: Seq<char>, p: Seq<char>, r: Seq<char>) -> Seq<char> {
    replace_from(s, p, r, 0)
}

/// `s.replace(p, r)` for a non-empty `p`.
pub fn replace_str(s: &str, p: &str, r: &str) -> (out: String)
    requires
        p@.len() > 0,
    ensures
        out@ == replace_all(s@, p@, r@),
{
    let v = chars_of(s);
    let pv = chars_of(p);
    let mut out = String::new();
    let mut i: usize = 0;
    loop
        invariant
            0 <= i <= v@.len(),
            v@ == s@,
            pv@ == p@,
            p@.len() > 0,
            out@ + replace_from(v@, pv@, r@, i as int) == replace_all(v@, pv@, r@),
        decreases v@.len() + 1 - i,
    {
        let j = find_sub(&v, &pv, i);
        proof {
            lemma_next_sub(v@, pv@, i as int);
        }
        let ghost before = out@;
        if j >= v.len() {
            push_range(&mut out, &v, i, v.len());
            proof {
                assert(out@ =~= before + replace_from(v@, pv@, r@, i as int));
            }
            return out;
        }
        push_range(&mut out, &v, i, j);
        push_str(&mut out, r);
        proof {
            assert(replace_from(v@, pv@, r@, i as int) == v@.subrange(i as int, j as int) + r@
                + replace_from(v@, pv@, r@, j + pv@.len()));
            assert(out@ + replace_from(v@, pv@, r@, j + pv@.len()) =~= before + replace_from(
                v@,
                pv@,
                r@,
                i as int,
            ));
        }
        i = j + pv.len();
    }
}

// ---------------------------------------------------------------------------
// Integers
// ---------------------------------------------------------------------------

/// An ASCII decimal digit.
pub open spec fn is_digit(c: char) -> bool {
    '0' <= c <= '9'
}

/// The value of an ASCII digit.
pub open spec fn digit_value(c: char) -> int {
    (c as int) - ('0' as int)
}

/// The value of a digit string.
pub open spec fn digits_value(d: Seq<char>) -> int
    decreases d.len(),
{
    if d.len() == 0 {
        0
    } else {
        10 * digits_value(d.drop_last()) + digit_value(d.last())
    }
}

/// `s` without a leading `+` or `-`.
pub open spec fn unsigned_part(s: Seq<char>) -> Seq<char> {
    if s.len() > 0 && (s[0] == '-' || s[0] == '+') {
        s.skip(1)
    } else {
        s
    }
}

/// Every character of `d` is an ASCII digit.
pub open spec fn all_digits(d: Seq<char>) -> bool {
    forall|i: int| 0 <= i < d.len() ==> is_digit(#[trigger] d[i])
}

/// `str::parse::<i64>`: an optional `+` or `-`, then at least one ASCII digit
/// and nothing else, with a value that fits.
pub open spec fn i64_text(s: Seq<char>) -> Option<i64> {
    let neg = s.len() > 0 && s[0] == '-';
    let d = unsigned_part(s);
    if d.len() == 0 || !all_digits(d) {
        None
    } else {
        let v = if neg {
            -digits_value(d)
        } else {
            digits_value(d)
        };
        if i64::MIN <= v <= i64::MAX {
            Some(v as i64)
        } else {
            None
        }
    }
}

proof fn lemma_digits_mono(d: Seq<char>, k: int)
    requires
        0 <= k <= d.len(),
        forall|i: int| 0 <= i < d.len() ==> is_digit(#[trigger] d[i]),
    ensures
        0 <= digits_value(d.take(k)) <= digits_value(d),
    decreases d.len() - k,
{
    if k < d.len() {
        lemma_digits_mono(d, k + 1);
        assert(d.take(k + 1).drop_last() =~= d.take(k));
        assert(d.take(k + 1).last() == d[k]);
    } else {
        assert(d.take(k) =~= d);
    }
    lemma_digits_nonneg(d.take(k));
}

proof fn lemma_digits_nonneg(d: Seq<char>)
    requires
        forall|i: int| 0 <= i < d.len() ==> is_digit(#[trigger] d[i]),
    ensures
        digits_value(d) >= 0,
    decreases d.len(),
{
    if d.len() > 0 {
        lemma_digits_nonneg(d.drop_last());
        assert(is_digit(d[d.len() - 1]));
    }
}

/// `s.parse::<i64>().ok()`.
pub fn parse_i64(s: &str) -> (r: Option<i64>)
    ensures
        r == i64_text(s@),
{
    let v = chars_of(s);
    let neg = v.len() > 0 && v[0] == '-';
    let signed = v.len() > 0 && (v[0] == '-' || v[0] == '+');
    let start: usize = if signed {
        1
    } else {
        0
    };
    let ghost d = unsigned_part(s@);
    proof {
        assert(d =~= v@.subrange(start as int, v@.len() as int));
    }
    if start >= v.len() {
        return None;
    }
    let mut acc: i128 = 0;
    let mut i = start;
    while i < v.len()
        invariant
            start <= i <= v@.len(),
            d == v@.subrange(start as int, v@.len() as int),
            d.len() > 0,
            forall|k: int| 0 <= k < i - start ==> is_digit(#[trigger] d[k]),
            acc == digits_value(d.take(i - start)),
            0 <= acc <= 0x8000_0000_0000_0000i128,
            neg == (s@.len() > 0 && s@[0] == '-'),
            d == unsigned_part(s@),
        decreases v@.len() - i,
    {
        let c = v[i];
        proof {
            assert(d[i - start] == c);
        }
        if !('0' <= c && c <= '9') {
            proof {
                assert(!is_digit(d[i - start]));
                assert(!all_digits(d));
                assert(i64_text(s@) is None);
            }
            return None;
        }
        let digit = (c as u32 - '0' as u32) as i128;
        proof {
            assert(d.take(i - start + 1).drop_last() =~= d.take(i - start));
            assert(d.take(i - start + 1).last() == c);
        }
        acc = acc * 10 + digit;
        i = i + 1;
        if acc > 0x8000_0000_0000_0000i128 {
            if i < v.len() {
                let mut k = i;
                while k < v.len()
                    invariant
                        start <= i <= k <= v@.len(),
                        d == v@.subrange(start as int, v@.len() as int),
                        forall|q: int| 0 <= q < k - start ==> is_digit(#[trigger] d[q]),
                        d.len() > 0,
                        d == unsigned_part(s@),
                    decreases v@.len() - k,
                {
                    if !('0' <= v[k] && v[k] <= '9') {
                        proof {
                            assert(d[k - start] == v@[k as int]);
                            assert(!is_digit(d[k - start]));
                            assert(!all_digits(d));
                            assert(i64_text(s@) is None);
                        }
                        return None;
                    }
                    k = k + 1;
                }
            }
            proof {
                lemma_digits_mono(d, i - start);
            }
            return None;
        }
    }
    proof {
        assert(d.take(i - start) =~= d);
    }
    if neg {
        Some((0 - acc) as i64)
    } else {
        if acc > 0x7FFF_FFFF_FFFF_FFFFi128 {
            return None;
        }
        Some(acc as i64)
    }
}

} // verus!
