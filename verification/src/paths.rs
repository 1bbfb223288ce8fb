//! Unix paths as sequences of components, the way `std::path::Path` reads
//! them, with purely lexical normalization (no filesystem access).
//!
//! A path's components are: `"/"` for a leading root, `"."` for a relative
//! path that begins with a `.` piece, then every piece between slashes that is
//! neither empty nor `.` (`..` stays a component of its own).
use crate::common::fmt::{join, strings_view};
use crate::text::{chars_of, pieces, push_str, split_char, split_spans, spans_view, string_of_range, str_eq, lemma_split_spans_bounds};
use vstd::prelude::*;

verus! {

/// The component standing for the root directory.
pub open spec fn root_tok() -> Seq<char> {
    seq!['/']
}

/// The component standing for the current directory.
pub open spec fn dot_tok() -> Seq<char> {
    seq!['.']
}

/// The component standing for the parent directory.
pub open spec fn dotdot_tok() -> Seq<char> {
    seq!['.', '.']
}

/// A piece between slashes that names something (not empty, not `.`).
pub open spec fn is_named(p: Seq<char>) -> bool {
    p.len() > 0 && p != dot_tok()
}

/// The named pieces of `ps`, in order.
pub open spec fn keep_named(ps: Seq<Seq<char>>) -> Seq<Seq<char>>
    decreases ps.len(),
{
    if ps.len() == 0 {
        seq![]
    } else if is_named(ps.last()) {
        keep_named(ps.drop_last()).push(ps.last())
    } else {
        keep_named(ps.drop_last())
    }
}

/// The pieces of `s` between `/` characters.
pub open spec fn slash_pieces(s: Seq<char>) -> Seq<Seq<char>> {
    pieces(s, split_spans(s, '/', 0))
}

/// Whether `s` is an absolute path.
pub open spec fn is_abs(s: Seq<char>) -> bool {
    s.len() > 0 && s[0] == '/'
}

/// The components of the path `s` (`Path::components`).
pub open spec fn path_comps(s: Seq<char>) -> Seq<Seq<char>> {
    let ps = slash_pieces(s);
    if is_abs(s) {
        seq![root_tok()] + keep_named(ps)
    } else if ps.len() > 0 && ps[0] == dot_tok() {
        seq![dot_tok()] + keep_named(ps)
    } else {
        keep_named(ps)
    }
}

/// A component that names a directory entry (not root, `.` or `..`).
pub open spec fn is_normal(c: Seq<char>) -> bool {
    c != root_tok() && c != dot_tok() && c != dotdot_tok()
}

/// One step of lexical normalization: drop `.`, let `..` cancel a preceding
/// normal component (and keep it literally otherwise), keep everything else.
pub open spec fn norm_step(stack: Seq<Seq<char>>, c: Seq<char>) -> Seq<Seq<char>> {
    if c == dot_tok() {
        stack
    } else if c == dotdot_tok() {
        if stack.len() > 0 && is_normal(stack.last()) {
            stack.drop_last()
        } else {
            stack.push(c)
        }
    } else {
        stack.push(c)
    }
}

/// Lexical normalization of a component sequence.
pub open spec fn normalize(cs: Seq<Seq<char>>) -> Seq<Seq<char>>
    decreases cs.len(),
{
    if cs.len() == 0 {
        seq![]
    } else {
        norm_step(normalize(cs.drop_last()), cs.last())
    }
}

/// The text of a component sequence, as `PathBuf` builds it by pushing each.
pub open spec fn render(cs: Seq<Seq<char>>) -> Seq<char> {
    if cs.len() > 0 && cs[0] == root_tok() {
        seq!['/'] + join(cs.drop_first(), seq!['/'])
    } else {
        join(cs, seq!['/'])
    }
}

/// `Path::starts_with`: the components of `base` are a prefix of those of `path`.
pub open spec fn comps_prefix(base: Seq<Seq<char>>, path: Seq<Seq<char>>) -> bool {
    base.len() <= path.len() && path.take(base.len() as int) == base
}

/// The normalized components of the path `s`.
pub open spec fn normal_comps(s: Seq<char>) -> Seq<Seq<char>> {
    normalize(path_comps(s))
}

/// The lexically normalized text of the path `s`.
pub open spec fn lexical(s: Seq<char>) -> Seq<char> {
    render(normal_comps(s))
}

/// A component sequence lexical normalization leaves as it is: no `.`, and
/// each `..` at the start or after a component that is not a name.
pub open spec fn is_normal_form(cs: Seq<Seq<char>>) -> bool {
    &&& forall|i: int| 0 <= i < cs.len() ==> #[trigger] cs[i] != dot_tok()
    &&& forall|i: int| 0 < i < cs.len() && #[trigger] cs[i] == dotdot_tok() ==> !is_normal(cs[i - 1])
}

proof fn lemma_normalize_normal_form(cs: Seq<Seq<char>>)
    ensures
        is_normal_form(normalize(cs)),
    decreases cs.len(),
{
    if cs.len() > 0 {
        lemma_normalize_normal_form(cs.drop_last());
        let st = normalize(cs.drop_last());
        let c = cs.last();
        let r = norm_step(st, c);
        if c != dot_tok() {
            if c == dotdot_tok() && st.len() > 0 && is_normal(st.last()) {
                assert forall|i: int| 0 <= i < r.len() implies #[trigger] r[i] != dot_tok() by {
                    assert(r[i] == st[i]);
                }
                assert forall|i: int| 0 < i < r.len() && #[trigger] r[i] == dotdot_tok() implies !is_normal(r[i - 1]) by {
                    assert(r[i] == st[i]);
                    assert(r[i - 1] == st[i - 1]);
                }
            } else {
                assert(r == st.push(c));
                assert forall|i: int| 0 <= i < r.len() implies #[trigger] r[i] != dot_tok() by {
                    if i < st.len() {
                        assert(r[i] == st[i]);
                    }
                }
                assert forall|i: int| 0 < i < r.len() && #[trigger] r[i] == dotdot_tok() implies !is_normal(r[i - 1]) by {
                    if i < st.len() {
                        assert(r[i] == st[i]);
                        assert(r[i - 1] == st[i - 1]);
                    } else {
                        assert(r[i - 1] == st.last());
                    }
                }
            }
        }
    }
}

proof fn lemma_normal_form_fixed(cs: Seq<Seq<char>>)
    requires
        is_normal_form(cs),
    ensures
        normalize(cs) == cs,
    decreases cs.len(),
{
    if cs.len() > 0 {
        let init = cs.drop_last();
        assert forall|i: int| 0 <= i < init.len() implies #[trigger] init[i] != dot_tok() by {
            assert(init[i] == cs[i]);
        }
        assert forall|i: int| 0 < i < init.len() && #[trigger] init[i] == dotdot_tok() implies !is_normal(init[i - 1]) by {
            assert(init[i] == cs[i]);
            assert(init[i - 1] == cs[i - 1]);
        }
        lemma_normal_form_fixed(init);
        assert(cs[cs.len() - 1] != dot_tok());
        assert(init.push(cs.last()) =~= cs);
    }
}

/// Lexical normalization leaves no `.`, lets a `..` stand only at the start
/// or after a root or another `..` (one that would climb above the start is
/// kept, not dropped), and changes nothing when applied again.
pub proof fn law_normalize(cs: Seq<Seq<char>>)
    ensures
        is_normal_form(normalize(cs)),
        normalize(normalize(cs)) == normalize(cs),
{
    lemma_normalize_normal_form(cs);
    lemma_normal_form_fixed(normalize(cs));
}

// ---------------------------------------------------------------------------
// Executable counterparts
// ---------------------------------------------------------------------------

/// The components of `s`.
pub fn path_components(s: &str) -> (r: Vec<String>)
    ensures
        strings_view(r@) == path_comps(s@),
{
    split_components(s, true)
}

/// The named pieces of `s` between slashes (its components without a
/// leading root or `.`).
pub fn named_pieces(s: &str) -> (r: Vec<String>)
    ensures
        strings_view(r@) == keep_named(slash_pieces(s@)),
{
    split_components(s, false)
}

/// The components of `s`, with or without the leading root or `.`.
fn split_components(s: &str, with_head: bool) -> (r: Vec<String>)
    ensures
        with_head ==> strings_view(r@) == path_comps(s@),
        !with_head ==> strings_view(r@) == keep_named(slash_pieces(s@)),
{
    let v = chars_of(s);
    let spans = split_char(&v, '/', 0);
    let ghost ps = pieces(v@, spans_view(spans@));
    proof {
        lemma_split_spans_bounds(v@, '/', 0);
    }
    let mut out: Vec<String> = Vec::new();
    let abs = v.len() > 0 && v[0] == '/';
    let (a0, b0) = spans[0];
    let lead_dot = b0 - a0 == 1 && v[a0] == '.';
    proof {
        assert(ps[0] =~= v@.subrange(a0 as int, b0 as int));
        if b0 - a0 == 1 {
            assert(ps[0] =~= seq![v@[a0 as int]]);
            assert(ps[0][0] == v@[a0 as int]);
            assert(dot_tok()[0] == '.');
        } else {
            assert(ps[0].len() != dot_tok().len());
        }
        assert(lead_dot == (ps[0] == dot_tok()));
    }
    if with_head && abs {
        out.push(single('/'));
    } else if with_head && lead_dot {
        out.push(single('.'));
    }
    let ghost head = strings_view(out@);
    proof {
        if !with_head {
            assert(head =~= seq![]);
        } else if abs {
            assert(head =~= seq![root_tok()]);
        } else if ps[0] == dot_tok() {
            assert(head =~= seq![dot_tok()]);
        } else {
            assert(head =~= seq![]);
        }
        assert(spans_view(spans@).len() == spans@.len());
    }
    let mut i: usize = 0;
    while i < spans.len()
        invariant
            0 <= i <= spans@.len(),
            ps == pieces(v@, spans_view(spans@)),
            ps.len() == spans@.len(),
            forall|k: int| 0 <= k < spans@.len() ==> #[trigger] spans@[k].0 <= spans@[k].1 <= v@.len(),
            strings_view(out@) == head + keep_named(ps.take(i as int)),
        decreases spans@.len() - i,
    {
        let (a, b) = spans[i];
        let named = b > a && !(b - a == 1 && v[a] == '.');
        let ghost piece = v@.subrange(a as int, b as int);
        proof {
            assert(ps[i as int] == piece);
            assert(ps.take(i + 1).drop_last() =~= ps.take(i as int));
            assert(ps.take(i + 1).last() == piece);
            if b - a == 1 {
                assert(piece =~= seq![v@[a as int]]);
                assert(piece[0] == v@[a as int]);
                assert(dot_tok()[0] == '.');
            } else {
                assert(piece.len() != dot_tok().len());
            }
            assert(named == is_named(piece));
        }
        if named {
            let ghost before = out@;
            let t = string_of_range(&v, a, b);
            out.push(t);
            proof {
                assert(strings_view(out@) =~= strings_view(before).push(piece));
            }
        }
        i = i + 1;
    }
    proof {
        assert(ps.take(spans@.len() as int) =~= ps);
        assert(slash_pieces(s@) == ps);
        if !with_head {
            assert(strings_view(out@) =~= keep_named(ps));
        }
    }
    out
}

/// A one-character string.
pub fn single(c: char) -> (r: String)
    ensures
        r@ == seq![c],
{
    let mut r = String::new();
    r.push(c);
    proof {
        assert(r@ =~= seq![c]);
    }
    r
}

/// Whether `s` is exactly the one character `c`.
pub fn is_single(s: &String, c: char) -> (r: bool)
    ensures
        r == (s@ == seq![c]),
{
    let v = chars_of(s.as_str());
    let r = v.len() == 1 && v[0] == c;
    proof {
        if v@.len() == 1 {
            assert(v@ =~= seq![v@[0]]);
        }
    }
    r
}

/// Whether a component names a directory entry.
fn normal_component(c: &String) -> (r: bool)
    ensures
        r == is_normal(c@),
{
    let v = chars_of(c.as_str());
    let r = !(v.len() == 1 && v[0] == '/') && !(v.len() == 1 && v[0] == '.') && !(v.len() == 2
        && v[0] == '.' && v[1] == '.');
    proof {
        if v@.len() == 1 {
            assert(root_tok() =~= seq!['/']);
            assert(v@ =~= seq![v@[0]]);
        }
        if v@.len() == 2 {
            assert(v@ =~= seq![v@[0], v@[1]]);
        }
    }
    r
}

/// Whether a component is `.` (`is_dot`) or `..` (`!is_dot`).
fn dots_component(c: &String) -> (r: (bool, bool))
    ensures
        r.0 == (c@ == dot_tok()),
        r.1 == (c@ == dotdot_tok()),
{
    let v = chars_of(c.as_str());
    let r = (v.len() == 1 && v[0] == '.', v.len() == 2 && v[0] == '.' && v[1] == '.');
    proof {
        if v@.len() == 1 {
            assert(v@ =~= seq![v@[0]]);
        }
        if v@.len() == 2 {
            assert(v@ =~= seq![v@[0], v@[1]]);
        }
    }
    r
}

/// Lexical normalization of a component vector.
pub fn normalize_components(cs: &Vec<String>) -> (r: Vec<String>)
    ensures
        strings_view(r@) == normalize(strings_view(cs@)),
{
    let ghost cv = strings_view(cs@);
    let mut stack: Vec<String> = Vec::new();
    let mut i: usize = 0;
    while i < cs.len()
        invariant
            0 <= i <= cs@.len(),
            cv == strings_view(cs@),
            strings_view(stack@) == normalize(cv.take(i as int)),
        decreases cs@.len() - i,
    {
        let ghost before = strings_view(stack@);
        proof {
            assert(cv.take(i + 1).drop_last() =~= cv.take(i as int));
            assert(cv.take(i + 1).last() == cs@[i as int]@);
        }
        let (is_dot, is_dotdot) = dots_component(&cs[i]);
        if is_dot {
        } else if is_dotdot {
            let n = stack.len();
            if n > 0 && normal_component(&stack[n - 1]) {
                stack.pop();
                proof {
                    assert(strings_view(stack@) =~= before.drop_last());
                }
            } else {
                stack.push(cs[i].clone());
                proof {
                    assert(strings_view(stack@) =~= before.push(cs@[i as int]@));
                }
            }
        } else {
            stack.push(cs[i].clone());
            proof {
                assert(strings_view(stack@) =~= before.push(cs@[i as int]@));
            }
        }
        i = i + 1;
    }
    proof {
        assert(cv.take(cs@.len() as int) =~= cv);
    }
    stack
}

/// The text of a component vector.
pub fn render_components(cs: &Vec<String>) -> (r: String)
    ensures
        r@ == render(strings_view(cs@)),
{
    let ghost cv = strings_view(cs@);
    let mut out = String::new();
    let mut start: usize = 0;
    let root = cs.len() > 0 && is_single(&cs[0], '/');
    if root {
        out.push('/');
        start = 1;
    }
    let ghost tail = cv.skip(start as int);
    let ghost prefix = out@;
    let mut i: usize = start;
    while i < cs.len()
        invariant
            start <= i <= cs@.len(),
            start <= 1,
            cv == strings_view(cs@),
            tail == cv.skip(start as int),
            out@ == prefix + join(tail.take(i - start), seq!['/']),
        decreases cs@.len() - i,
    {
        let ghost before = out@;
        if i > start {
            out.push('/');
        }
        push_str(&mut out, cs[i].as_str());
        proof {
            let k = i - start;
            assert(tail.take(k + 1).drop_last() =~= tail.take(k));
            assert(tail.take(k + 1).last() == cs@[i as int]@);
            if k == 0 {
                assert(tail.take(1).len() == 1);
                assert(out@ =~= prefix + join(tail.take(k + 1), seq!['/']));
            } else {
                assert(out@ =~= prefix + join(tail.take(k + 1), seq!['/']));
            }
        }
        i = i + 1;
    }
    proof {
        assert(tail.take(cs@.len() - start) =~= tail);
        if root {
            assert(tail =~= cv.drop_first());
            assert(prefix =~= seq!['/']);
        } else {
            assert(tail =~= cv);
            assert(prefix =~= seq![]);
            assert(out@ =~= join(cv, seq!['/']));
        }
    }
    out
}

/// `Path::starts_with` on component vectors.
pub fn components_prefix(base: &Vec<String>, path: &Vec<String>) -> (r: bool)
    ensures
        r == comps_prefix(strings_view(base@), strings_view(path@)),
{
    let ghost bv = strings_view(base@);
    let ghost pv = strings_view(path@);
    if base.len() > path.len() {
        return false;
    }
    let mut i: usize = 0;
    while i < base.len()
        invariant
            0 <= i <= base@.len() <= path@.len(),
            bv == strings_view(base@),
            pv == strings_view(path@),
            forall|k: int| 0 <= k < i ==> bv[k] == pv[k],
        decreases base@.len() - i,
    {
        if !str_eq(base[i].as_str(), path[i].as_str()) {
            proof {
                assert(pv.take(bv.len() as int)[i as int] != bv[i as int]);
            }
            return false;
        }
        i = i + 1;
    }
    proof {
        assert(pv.take(bv.len() as int) =~= bv);
    }
    true
}

/// Resolve `.` and `..` in `p` lexically. A `..` with nothing left to cancel
/// is kept, so a containment check on the result still fails closed.
pub fn lexical_normalize(p: &str) -> (r: String)
    ensures
        r@ == lexical(p@),
{
    let cs = path_components(p);
    let n = normalize_components(&cs);
    render_components(&n)
}

} // verus!
