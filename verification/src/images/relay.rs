//! The `-Iu` layered-package relay onto a per-version root snapshot: naming
//! the per-version root subvolumes, reading what the host reports (kernel
//! command lines, `findmnt`, `btrfs subvolume list`, `lsblk`, ESP entries),
//! the safety checks that keep the transaction under `/run`, the teardown
//! order, and the dry-run plan.
use crate::common::fmt::{join, strings_view};
use crate::error::MizError;
use crate::paths::{comps_prefix, path_comps, path_components, components_prefix};
use crate::render::output::{lossy_text, utf8_lossy};
use crate::text::{
    trim_end_c, trim_end_char_range,
    chars_of, find_char, find_sub, lemma_next_char, lemma_next_sub, lemma_ws_spans_bounds,
    line_spans, lines_of, next_char, next_sub, opt_str, pieces, push_str, range_starts_with,
    spans_view, split_char, split_spans, split_ws, starts_with, str_eq, string_of_range, to_owned,
    trim, trim_range, ws_spans, lemma_split_spans_bounds,
};
use object::{Object, ObjectSection};
use vstd::prelude::*;

verus! {

/// Working mount of the btrfs top-level (subvolid 5).
pub const TOPLEVEL_MOUNT: &'static str = "/run/miz/toplevel";

/// Working mount of the new root snapshot.
pub const NEXT_ROOT: &'static str = "/run/miz/next";

/// Read-only mount of the new verity `/usr` (the overlay's lower dir).
pub const USR_LOWER_MOUNT: &'static str = "/run/miz/usr-lower";

/// dm-verity mapper name of the new `/usr` opened during the relay.
pub const USR_VERITY_NEXT: &'static str = "archetype-usr-next";

/// Rust's `Debug` rendering of a string: quoted, special characters escaped.
pub uninterp spec fn debug_text(s: Seq<char>) -> Seq<char>;

/// A character `Debug` prints as itself inside a string.
pub open spec fn debug_plain(c: char) -> bool {
    ' ' <= c <= '~' && c != '"' && c != '\\' && c != '\''
}

/// The `Debug` text of a string (`format!("{:?}", s)`): the string in
/// double quotes; a string of printable ASCII other than quotes and
/// backslashes appears unchanged between them.
#[verifier::external_body]
pub(crate) fn debug_str(s: &str) -> (r: String)
    ensures
        r@ == debug_text(s@),
        (forall|i: int| 0 <= i < s@.len() ==> debug_plain(#[trigger] s@[i])) ==> r@ == seq!['"']
            + s@ + seq!['"'],
{
    format!("{:?}", s)
}

// ---------------------------------------------------------------------------
// Names and command lines
// ---------------------------------------------------------------------------

/// `@archetype_<version>`.
pub open spec fn subvol_name(version: Seq<char>) -> Seq<char> {
    "@archetype_"@ + version
}

/// The per-version root subvolume name. It must match the installer's name
/// and the UKI's `rootflags=subvol=` for the same image version.
pub fn subvol_for_version(version: &str) -> (r: String)
    ensures
        r@ == subvol_name(version@),
{
    let mut out = String::new();
    push_str(&mut out, "@archetype_");
    push_str(&mut out, version);
    out
}

/// The whitespace-separated tokens of `s`.
pub open spec fn tokens(s: Seq<char>) -> Seq<Seq<char>> {
    pieces(s, ws_spans(s, 0))
}

/// What follows `p` in the first token that starts with `p`, if any.
pub open spec fn first_stripped(ts: Seq<Seq<char>>, p: Seq<char>) -> Option<Seq<char>>
    decreases ts.len(),
{
    if ts.len() == 0 {
        None
    } else if starts_with(ts[0], p) {
        Some(ts[0].skip(p.len() as int))
    } else {
        first_stripped(ts.drop_first(), p)
    }
}

/// The `usrhash=` value of a kernel command line: taken from the first
/// `usrhash=` token, and absent when that token's value is empty.
pub open spec fn usrhash_of(cmdline: Seq<char>) -> Option<Seq<char>> {
    match first_stripped(tokens(cmdline), "usrhash="@) {
        Some(v) => if v.len() > 0 {
            Some(v)
        } else {
            None
        },
        None => None,
    }
}

/// The value after `p` in the first whitespace token of `v` starting with `p`.
fn first_token_value(v: &Vec<char>, p: &Vec<char>) -> (r: Option<String>)
    ensures
        opt_string_of(r) == first_stripped(tokens(v@), p@),
{
    let spans = split_ws(v);
    let ghost ts = pieces(v@, spans_view(spans@));
    proof {
        assert(ts.skip(0) =~= ts);
    }
    let mut i: usize = 0;
    while i < spans.len()
        invariant
            0 <= i <= spans@.len(),
            ts == pieces(v@, spans_view(spans@)),
            ts.len() == spans@.len(),
            ts == tokens(v@),
            forall|k: int| 0 <= k < spans@.len() ==> #[trigger] spans@[k].0 < spans@[k].1 <= v@.len(),
            first_stripped(ts.skip(i as int), p@) == first_stripped(ts, p@),
        decreases spans@.len() - i,
    {
        let (a, b) = spans[i];
        proof {
            assert(ts[i as int] == v@.subrange(a as int, b as int));
            assert(ts.skip(i as int)[0] == ts[i as int]);
            assert(ts.skip(i as int).drop_first() =~= ts.skip(i + 1));
        }
        if range_starts_with(v, a, b, p) {
            proof {
                assert(ts[i as int].skip(p@.len() as int) =~= v@.subrange(a + p@.len(), b as int));
            }
            return Some(string_of_range(v, a + p.len(), b));
        }
        i = i + 1;
    }
    proof {
        assert(ts.skip(i as int).len() == 0);
    }
    None
}

/// The view of an optional string.
pub open spec fn opt_string_of(o: Option<String>) -> Option<Seq<char>> {
    match o {
        Some(s) => Some(s@),
        None => None,
    }
}

/// Extract the `usrhash=` value (the new `/usr`'s dm-verity root hash) from a
/// kernel command line.
pub fn parse_usrhash_from_cmdline(cmdline: &str) -> (r: Option<String>)
    ensures
        opt_string_of(r) == usrhash_of(cmdline@),
{
    let v = chars_of(cmdline);
    let p = chars_of("usrhash=");
    match first_token_value(&v, &p) {
        Some(val) => {
            if chars_of(val.as_str()).len() > 0 {
                Some(val)
            } else {
                None
            }
        },
        None => None,
    }
}

/// Whether a `rootflags=` value carries `subvol=<want>` or `subvol=/<want>`
/// among its comma-separated options.
pub open spec fn flags_pin(flags: Seq<char>, want: Seq<char>) -> bool {
    exists|k: int|
        0 <= k < pieces(flags, split_spans(flags, ',', 0)).len() && {
            let o = #[trigger] pieces(flags, split_spans(flags, ',', 0))[k];
            starts_with(o, "subvol="@) && (o.skip("subvol="@.len() as int) == want || o.skip(
                "subvol="@.len() as int,
            ) == seq!['/'] + want)
        }
}

/// Whether the command line pins the root subvolume of `version`: some
/// `rootflags=` token has a `subvol=` option naming it.
pub open spec fn pins_subvol(cmdline: Seq<char>, version: Seq<char>) -> bool {
    exists|k: int|
        0 <= k < tokens(cmdline).len() && starts_with(#[trigger] tokens(cmdline)[k], "rootflags="@)
            && flags_pin(tokens(cmdline)[k].skip("rootflags="@.len() as int), subvol_name(version))
}

/// Whether `v[a..b]` (a `rootflags=` value) pins `want`.
fn value_pins(v: &Vec<char>, a: usize, b: usize, want: &Vec<char>) -> (r: bool)
    requires
        a <= b <= v@.len(),
    ensures
        r == flags_pin(v@.subrange(a as int, b as int), want@),
{
    let flags = string_of_range(v, a, b);
    let fv = chars_of(flags.as_str());
    let ghost fl = fv@;
    let spans = split_char(&fv, ',', 0);
    let ghost os = pieces(fl, split_spans(fl, ',', 0));
    let key = chars_of("subvol=");
    let mut slash_want: Vec<char> = Vec::new();
    slash_want.push('/');
    let mut j: usize = 0;
    while j < want.len()
        invariant
            0 <= j <= want@.len(),
            slash_want@ == seq!['/'] + want@.take(j as int),
        decreases want@.len() - j,
    {
        slash_want.push(want[j]);
        j = j + 1;
        proof {
            assert(slash_want@ =~= seq!['/'] + want@.take(j as int));
        }
    }
    proof {
        assert(want@.take(want@.len() as int) =~= want@);
    }
    let mut i: usize = 0;
    while i < spans.len()
        invariant
            0 <= i <= spans@.len(),
            fl == fv@,
            fl == v@.subrange(a as int, b as int),
            os == pieces(fl, spans_view(spans@)),
            spans_view(spans@) == split_spans(fl, ',', 0),
            os.len() == spans@.len(),
            key@ == "subvol="@,
            slash_want@ == seq!['/'] + want@,
            forall|k: int| 0 <= k < spans@.len() ==> #[trigger] spans@[k].0 <= spans@[k].1 <= fl.len(),
            forall|k: int|
                0 <= k < i ==> !({
                    let o = #[trigger] os[k];
                    starts_with(o, "subvol="@) && (o.skip("subvol="@.len() as int) == want@
                        || o.skip("subvol="@.len() as int) == seq!['/'] + want@)
                }),
        decreases spans@.len() - i,
    {
        let (c, d) = spans[i];
        proof {
            assert(os[i as int] == fl.subrange(c as int, d as int));
        }
        if crate::text::range_starts_with(&fv, c, d, &key) {
            let s1 = crate::text::range_eq(&fv, c + key.len(), d, want);
            let s2 = crate::text::range_eq(&fv, c + key.len(), d, &slash_want);
            proof {
                assert(os[i as int].skip("subvol="@.len() as int) =~= fl.subrange(
                    c + key@.len(),
                    d as int,
                ));
            }
            if s1 || s2 {
                proof {
                    assert(os == pieces(fl, split_spans(fl, ',', 0)));
                    let o = os[i as int];
                    assert(starts_with(o, "subvol="@) && (o.skip("subvol="@.len() as int) == want@
                        || o.skip("subvol="@.len() as int) == seq!['/'] + want@));
                }
                return true;
            }
        }
        i = i + 1;
    }
    proof {
        assert(os == pieces(fl, split_spans(fl, ',', 0)));
    }
    false
}

/// Whether the command line pins the root subvolume for `version`
/// (`rootflags=...subvol=@archetype_<version>...`, with or without a leading
/// `/`). The relay relies on the new UKI booting the snapshot it builds.
pub fn cmdline_pins_subvol(cmdline: &str, version: &str) -> (r: bool)
    ensures
        r == pins_subvol(cmdline@, version@),
{
    let want_s = subvol_for_version(version);
    let want = chars_of(want_s.as_str());
    let v = chars_of(cmdline);
    let key = chars_of("rootflags=");
    let spans = split_ws(&v);
    let ghost ts = pieces(v@, spans_view(spans@));
    let mut i: usize = 0;
    while i < spans.len()
        invariant
            0 <= i <= spans@.len(),
            v@ == cmdline@,
            ts == pieces(v@, spans_view(spans@)),
            ts.len() == spans@.len(),
            ts == tokens(cmdline@),
            key@ == "rootflags="@,
            want@ == subvol_name(version@),
            forall|k: int| 0 <= k < spans@.len() ==> #[trigger] spans@[k].0 < spans@[k].1 <= v@.len(),
            forall|k: int|
                0 <= k < i ==> !(starts_with(#[trigger] ts[k], "rootflags="@) && flags_pin(
                    ts[k].skip("rootflags="@.len() as int),
                    subvol_name(version@),
                )),
        decreases spans@.len() - i,
    {
        let (a, b) = spans[i];
        proof {
            assert(ts[i as int] == v@.subrange(a as int, b as int));
        }
        if range_starts_with(&v, a, b, &key) {
            let pinned = value_pins(&v, a + key.len(), b, &want);
            proof {
                assert(ts[i as int].skip("rootflags="@.len() as int) =~= v@.subrange(
                    a + key@.len(),
                    b as int,
                ));
            }
            if pinned {
                return true;
            }
        }
        i = i + 1;
    }
    false
}

// ---------------------------------------------------------------------------
// Snapshots
// ---------------------------------------------------------------------------

/// Whether `name` is a top-level root snapshot (`@archetype_*`, no nested
/// path) whose version is not among `keep`.
pub open spec fn prunable(name: Seq<char>, keep: Seq<Seq<char>>) -> bool {
    &&& !name.contains('/')
    &&& starts_with(name, "@archetype_"@)
    &&& forall|k: int| 0 <= k < keep.len() ==> subvol_name(#[trigger] keep[k]) != name
}

/// The prunable names among `existing`, in order.
pub open spec fn prune_list(existing: Seq<Seq<char>>, keep: Seq<Seq<char>>) -> Seq<Seq<char>>
    decreases existing.len(),
{
    if existing.len() == 0 {
        seq![]
    } else if prunable(existing.last(), keep) {
        prune_list(existing.drop_last(), keep).push(existing.last())
    } else {
        prune_list(existing.drop_last(), keep)
    }
}

/// The snapshots to prune are exactly the prunable names of `existing`, kept
/// in their order: a subsequence of `existing` holding no kept version, no
/// nested path and no name other than `@archetype_*`, and missing none of
/// those.
pub proof fn law_prune_list(existing: Seq<Seq<char>>, keep: Seq<Seq<char>>)
    ensures
        prune_list(existing, keep) == existing.filter(|n: Seq<char>| prunable(n, keep)),
        forall|i: int|
            0 <= i < prune_list(existing, keep).len() ==> prunable(#[trigger] prune_list(existing, keep)[i], keep),
        forall|i: int|
            0 <= i < existing.len() && prunable(existing[i], keep) ==> #[trigger] prune_list(
                existing,
                keep,
            ).contains(existing[i]),
    decreases existing.len(),
{
    let pred = |n: Seq<char>| prunable(n, keep);
    reveal(Seq::filter);
    if existing.len() > 0 {
        law_prune_list(existing.drop_last(), keep);
    }
    assert(prune_list(existing, keep) == existing.filter(pred));
    #[allow(deprecated)]
    existing.filter_lemma(pred);
}

/// The versions of `keep` as character sequences.
pub open spec fn keep_views(keep: Seq<&str>) -> Seq<Seq<char>> {
    keep.map_values(|s: &str| s@)
}

/// Whether `name` is the root snapshot of one of `keep`.
fn is_kept(name: &str, keep_versions: &[&str]) -> (r: bool)
    ensures
        r == exists|k: int|
            0 <= k < keep_views(keep_versions@).len() && subvol_name(
                #[trigger] keep_views(keep_versions@)[k],
            ) == name@,
{
    let mut i: usize = 0;
    while i < keep_versions.len()
        invariant
            0 <= i <= keep_versions@.len(),
            forall|k: int| 0 <= k < i ==> subvol_name(#[trigger] keep_views(keep_versions@)[k]) != name@,
        decreases keep_versions@.len() - i,
    {
        let sv = subvol_for_version(keep_versions[i]);
        if str_eq(sv.as_str(), name) {
            proof {
                assert(keep_views(keep_versions@)[i as int] == keep_versions@[i as int]@);
            }
            return true;
        }
        proof {
            assert(keep_views(keep_versions@)[i as int] == keep_versions@[i as int]@);
        }
        i = i + 1;
    }
    false
}

/// The `@archetype_<version>` root snapshots to prune: top-level ones only
/// (a nested subvolume path such as `@archetype_<v>/var/lib/machines/x` is
/// never a root), and never one of the kept versions or a non-archetype
/// subvolume.
pub fn snapshots_to_prune(existing: &Vec<String>, keep_versions: &[&str]) -> (r: Vec<String>)
    ensures
        strings_view(r@) == prune_list(strings_view(existing@), keep_views(keep_versions@)),
{
    let ghost ev = strings_view(existing@);
    let prefix = chars_of("@archetype_");
    let mut out: Vec<String> = Vec::new();
    let mut i: usize = 0;
    while i < existing.len()
        invariant
            0 <= i <= existing@.len(),
            ev == strings_view(existing@),
            prefix@ == "@archetype_"@,
            strings_view(out@) == prune_list(ev.take(i as int), keep_views(keep_versions@)),
        decreases existing@.len() - i,
    {
        proof {
            assert(ev.take(i + 1).drop_last() =~= ev.take(i as int));
            assert(ev.take(i + 1).last() == existing@[i as int]@);
        }
        let name = existing[i].as_str();
        let v = chars_of(name);
        let nested = crate::text::range_contains(&v, 0, v.len(), '/');
        let arch = range_starts_with(&v, 0, v.len(), &prefix);
        let kept = is_kept(name, keep_versions);
        proof {
            assert(v@.subrange(0, v@.len() as int) =~= name@);
        }
        if !nested && arch && !kept {
            let ghost before = out@;
            out.push(existing[i].clone());
            proof {
                assert(strings_view(out@) =~= strings_view(before).push(existing@[i as int]@));
            }
        }
        i = i + 1;
    }
    proof {
        assert(ev.take(existing@.len() as int) =~= ev);
    }
    out
}

/// The text between the first and second occurrence of `pat` in `l`
/// (`l.split(pat).nth(1)`).
pub open spec fn second_piece(l: Seq<char>, pat: Seq<char>) -> Option<Seq<char>> {
    let j = next_sub(l, pat, 0);
    if j >= l.len() {
        None
    } else {
        let rest = l.skip(j + pat.len());
        Some(rest.take(next_sub(rest, pat, 0)))
    }
}

/// The subvolume paths of `btrfs subvolume list` lines, in order.
pub open spec fn subvol_paths(ls: Seq<Seq<char>>) -> Seq<Seq<char>>
    decreases ls.len(),
{
    if ls.len() == 0 {
        seq![]
    } else {
        let rest = subvol_paths(ls.drop_last());
        match second_piece(ls.last(), " path "@) {
            Some(p) => rest.push(trim(p)),
            None => rest,
        }
    }
}

/// The lines of `s` (`str::lines`).
pub open spec fn lines(s: Seq<char>) -> Seq<Seq<char>> {
    pieces(s, line_spans(s, 0))
}

/// `l.split(pat).nth(1)`, trimmed.
fn subvol_path_of_line(l: &Vec<char>, pat: &Vec<char>) -> (r: Option<String>)
    requires
        pat@ == " path "@,
    ensures
        match second_piece(l@, pat@) {
            Some(p) => r matches Some(x) && x@ == trim(p),
            None => r is None,
        },
{
    proof {
        reveal_strlit(" path ");
        lemma_next_sub(l@, pat@, 0);
    }
    let j = find_sub(l, pat, 0);
    if j >= l.len() {
        return None;
    }
    let start = j + pat.len();
    let k = find_sub(l, pat, start);
    proof {
        lemma_next_sub(l@, pat@, start as int);
        let rest = l@.skip(start as int);
        lemma_next_sub(rest, pat@, 0);
        lemma_next_sub_shift(l@, pat@, start as int, 0);
        assert(next_sub(rest, pat@, 0) + start == k);
        assert(rest.take(k - start) =~= l@.subrange(start as int, k as int));
    }
    let (a, b) = crate::text::trim_range(l, start, k);
    Some(string_of_range(l, a, b))
}

/// Searching in a suffix finds what searching the whole from the same spot finds.
proof fn lemma_next_sub_shift(s: Seq<char>, p: Seq<char>, off: int, i: int)
    requires
        0 <= off <= s.len(),
        0 <= i <= s.len() - off,
        p.len() > 0,
    ensures
        next_sub(s.skip(off), p, i) + off == next_sub(s, p, i + off),
    decreases s.len() - off - i,
{
    let t = s.skip(off);
    if i + p.len() > t.len() {
    } else {
        assert(t.subrange(i, i + p.len()) =~= s.subrange(i + off, i + off + p.len()));
        if t.subrange(i, i + p.len()) != p {
            lemma_next_sub_shift(s, p, off, i + 1);
        }
    }
}

/// Parse `btrfs subvolume list` output into the subvolume paths (the field
/// after ` path `), in order.
pub fn parse_subvol_list(text: &str) -> (r: Vec<String>)
    ensures
        strings_view(r@) == subvol_paths(lines(text@)),
{
    let v = chars_of(text);
    let spans = lines_of(&v);
    let pat = chars_of(" path ");
    let ghost ls = pieces(v@, spans_view(spans@));
    let mut out: Vec<String> = Vec::new();
    let mut i: usize = 0;
    while i < spans.len()
        invariant
            0 <= i <= spans@.len(),
            v@ == text@,
            pat@ == " path "@,
            ls == pieces(v@, spans_view(spans@)),
            ls.len() == spans@.len(),
            ls == lines(text@),
            forall|k: int| 0 <= k < spans@.len() ==> #[trigger] spans@[k].0 <= spans@[k].1 <= v@.len(),
            strings_view(out@) == subvol_paths(ls.take(i as int)),
        decreases spans@.len() - i,
    {
        let (a, b) = spans[i];
        let line = string_of_range(&v, a, b);
        let lv = chars_of(line.as_str());
        proof {
            assert(ls[i as int] == lv@);
            assert(ls.take(i + 1).drop_last() =~= ls.take(i as int));
            assert(ls.take(i + 1).last() == lv@);
        }
        let ghost before = out@;
        match subvol_path_of_line(&lv, &pat) {
            Some(p) => {
                out.push(p);
                proof {
                    assert(strings_view(out@) =~= strings_view(before).push(out@.last()@));
                }
            },
            None => {},
        }
        i = i + 1;
    }
    proof {
        assert(ls.take(spans@.len() as int) =~= ls);
    }
    out
}

/// The archetype root snapshots among `btrfs subvolume list` output.
pub open spec fn archetype_paths(ps: Seq<Seq<char>>) -> Seq<Seq<char>>
    decreases ps.len(),
{
    if ps.len() == 0 {
        seq![]
    } else if starts_with(ps.last(), "@archetype_"@) {
        archetype_paths(ps.drop_last()).push(ps.last())
    } else {
        archetype_paths(ps.drop_last())
    }
}

/// The `@archetype_*` subvolume paths listed in `btrfs subvolume list` output.
pub fn archetype_subvols(text: &str) -> (r: Vec<String>)
    ensures
        strings_view(r@) == archetype_paths(subvol_paths(lines(text@))),
{
    let all = parse_subvol_list(text);
    let ghost av = strings_view(all@);
    let prefix = chars_of("@archetype_");
    let mut out: Vec<String> = Vec::new();
    let mut i: usize = 0;
    while i < all.len()
        invariant
            0 <= i <= all@.len(),
            av == strings_view(all@),
            prefix@ == "@archetype_"@,
            strings_view(out@) == archetype_paths(av.take(i as int)),
        decreases all@.len() - i,
    {
        proof {
            assert(av.take(i + 1).drop_last() =~= av.take(i as int));
            assert(av.take(i + 1).last() == all@[i as int]@);
        }
        let v = chars_of(all[i].as_str());
        let arch = range_starts_with(&v, 0, v.len(), &prefix);
        proof {
            assert(v@.subrange(0, v@.len() as int) =~= all@[i as int]@);
        }
        if arch {
            let ghost before = out@;
            out.push(all[i].clone());
            proof {
                assert(strings_view(out@) =~= strings_view(before).push(all@[i as int]@));
            }
        }
        i = i + 1;
    }
    proof {
        assert(av.take(all@.len() as int) =~= av);
    }
    out
}

// ---------------------------------------------------------------------------
// The root device and /run containment
// ---------------------------------------------------------------------------

/// The first line among `ls` whose trimmed text is not empty.
pub open spec fn first_nonblank(ls: Seq<Seq<char>>) -> Option<Seq<char>>
    decreases ls.len(),
{
    if ls.len() == 0 {
        None
    } else if trim(ls[0]).len() > 0 {
        Some(ls[0])
    } else {
        first_nonblank(ls.drop_first())
    }
}

/// The `n`-th whitespace field of `l`, or empty.
pub open spec fn field(l: Seq<char>, n: int) -> Seq<char> {
    if n < tokens(l).len() {
        tokens(l)[n]
    } else {
        seq![]
    }
}

/// The result of reading `findmnt -no FSTYPE,SOURCE /` output: the block
/// device (the source without its `[subvolume]` suffix) of a btrfs root.
pub open spec fn findmnt_result(text: Seq<char>) -> Result<Seq<char>, Seq<char>> {
    match first_nonblank(lines(text)) {
        None => Err("findmnt produced no output for the root mount"@),
        Some(l) => {
            let fstype = field(l, 0);
            let source = field(l, 1);
            if fstype != "btrfs"@ {
                Err("refusing to relay: root filesystem is "@ + debug_text(fstype)
                    + ", not btrfs; the versioned-root layered update requires a btrfs root"@)
            } else if source.len() == 0 {
                Err("findmnt did not report a source device for the root mount"@)
            } else {
                Ok(source.take(next_char(source, '[', 0)))
            }
        },
    }
}

/// The message of an `Other` error result, or the value of an `Ok` one.
pub open spec fn result_view(r: Result<String, MizError>) -> Result<Seq<char>, Seq<char>> {
    match r {
        Ok(s) => Ok(s@),
        Err(MizError::Other(m)) => Err(m@),
        Err(_) => Err(seq![]),
    }
}

/// The bounds of the first line of `v` that is not blank.
fn first_nonblank_line(v: &Vec<char>) -> (r: Option<(usize, usize)>)
    ensures
        match first_nonblank(lines(v@)) {
            None => r is None,
            Some(l) => r matches Some(p) && p.0 <= p.1 <= v@.len() && v@.subrange(
                p.0 as int,
                p.1 as int,
            ) == l,
        },
{
    let spans = lines_of(v);
    let ghost ls = pieces(v@, spans_view(spans@));
    proof {
        assert(ls.skip(0) =~= ls);
    }
    let mut i: usize = 0;
    while i < spans.len()
        invariant
            0 <= i <= spans@.len(),
            ls == pieces(v@, spans_view(spans@)),
            ls == lines(v@),
            ls.len() == spans@.len(),
            forall|k: int| 0 <= k < spans@.len() ==> #[trigger] spans@[k].0 <= spans@[k].1 <= v@.len(),
            first_nonblank(ls.skip(i as int)) == first_nonblank(ls),
        decreases spans@.len() - i,
    {
        let (a, b) = spans[i];
        proof {
            assert(ls[i as int] == v@.subrange(a as int, b as int));
            assert(ls.skip(i as int)[0] == ls[i as int]);
            assert(ls.skip(i as int).drop_first() =~= ls.skip(i + 1));
        }
        let (c, d) = trim_range(v, a, b);
        if d > c {
            return Some((a, b));
        }
        i = i + 1;
    }
    proof {
        assert(ls.skip(i as int).len() == 0);
    }
    None
}

/// Parse the btrfs source device from `findmnt -no FSTYPE,SOURCE /`, failing
/// closed unless the root is btrfs with a reported device.
pub fn parse_findmnt_source(text: &str) -> (r: Result<String, MizError>)
    ensures
        r is Err ==> r->Err_0 is Other,
        result_view(r) == findmnt_result(text@),
{
    let v = chars_of(text);
    let (a, b) = match first_nonblank_line(&v) {
        None => {
            return Err(MizError::Other(to_owned("findmnt produced no output for the root mount")));
        },
        Some(p) => p,
    };
    let line = string_of_range(&v, a, b);
    let lv = chars_of(line.as_str());
    let fields = split_ws(&lv);
    let ghost fs = pieces(lv@, spans_view(fields@));
    proof {
        assert(fs == tokens(lv@));
    }
    let fstype = if fields.len() > 0 {
        string_of_range(&lv, fields[0].0, fields[0].1)
    } else {
        String::new()
    };
    let source = if fields.len() > 1 {
        string_of_range(&lv, fields[1].0, fields[1].1)
    } else {
        String::new()
    };
    proof {
        assert(fstype@ == field(lv@, 0));
        assert(source@ == field(lv@, 1));
    }
    if !str_eq(fstype.as_str(), "btrfs") {
        let mut m = String::new();
        push_str(&mut m, "refusing to relay: root filesystem is ");
        let d = debug_str(fstype.as_str());
        push_str(&mut m, d.as_str());
        push_str(&mut m, ", not btrfs; the versioned-root layered update requires a btrfs root");
        return Err(MizError::Other(m));
    }
    let sv = chars_of(source.as_str());
    if sv.len() == 0 {
        return Err(
            MizError::Other(to_owned("findmnt did not report a source device for the root mount")),
        );
    }
    let end = find_char(&sv, '[', 0);
    proof {
        lemma_next_char(sv@, '[', 0);
        assert(sv@.subrange(0, end as int) =~= sv@.take(end as int));
    }
    Ok(string_of_range(&sv, 0, end))
}

/// Whether the (already canonical) path lies under `/run/`, or is `/run`.
pub open spec fn under_run(p: Seq<char>) -> bool {
    comps_prefix(path_comps("/run/"@), path_comps(p)) || path_comps(p) == path_comps("/run"@)
}

/// Lexical check that `path` lies under `/run/` (or is `/run` itself).
pub fn is_under_run(path: &str) -> (r: bool)
    ensures
        r == under_run(path@),
{
    let run_dir = path_components("/run/");
    let run = path_components("/run");
    let p = path_components(path);
    components_prefix(&run_dir, &p) || components_equal(&p, &run)
}

/// Component-wise equality.
fn components_equal(a: &Vec<String>, b: &Vec<String>) -> (r: bool)
    ensures
        r == (strings_view(a@) == strings_view(b@)),
{
    if a.len() != b.len() {
        proof {
            assert(strings_view(a@).len() != strings_view(b@).len());
        }
        return false;
    }
    let r = components_prefix(a, b);
    proof {
        if r {
            assert(strings_view(b@).take(strings_view(a@).len() as int) =~= strings_view(b@));
        } else {
            if strings_view(a@) == strings_view(b@) {
                assert(strings_view(b@).take(strings_view(a@).len() as int) =~= strings_view(b@));
            }
        }
    }
    r
}

/// The safety check before any mutating step: `canon` is the result of
/// canonicalizing `root` (symlinks resolved, or the failure's message); the
/// root is refused unless that resolves under `/run/`.
pub fn assert_root_under_run(root: &str, canon: Result<String, String>) -> (r: Result<
    String,
    MizError,
>)
    ensures
        match canon {
            Err(e) => r matches Err(MizError::Other(m)) && m@ == "refusing to relay: target root "@
                + root@ + " cannot be canonicalized: "@ + e@,
            Ok(c) => if under_run(c@) {
                r matches Ok(x) && x@ == c@
            } else {
                r matches Err(MizError::Other(m)) && m@ == "refusing to relay: target root "@ + root@
                    + " does not resolve under /run/ (got "@ + c@
                    + "); aborting to protect the live system"@
            },
        },
{
    match canon {
        Err(e) => {
            let mut m = String::new();
            push_str(&mut m, "refusing to relay: target root ");
            push_str(&mut m, root);
            push_str(&mut m, " cannot be canonicalized: ");
            push_str(&mut m, e.as_str());
            Err(MizError::Other(m))
        },
        Ok(c) => {
            if !is_under_run(c.as_str()) {
                let mut m = String::new();
                push_str(&mut m, "refusing to relay: target root ");
                push_str(&mut m, root);
                push_str(&mut m, " does not resolve under /run/ (got ");
                push_str(&mut m, c.as_str());
                push_str(&mut m, "); aborting to protect the live system");
                return Err(MizError::Other(m));
            }
            Ok(c)
        },
    }
}

// ---------------------------------------------------------------------------
// UKIs and partitions
// ---------------------------------------------------------------------------

/// Whether a string is a non-empty run of ASCII digits and `-`.
pub open spec fn tries_suffix(t: Seq<char>) -> bool {
    t.len() > 0 && forall|i: int| 0 <= i < t.len() ==> ('0' <= #[trigger] t[i] <= '9' || t[i] == '-')
}

/// Whether `filename` is the UKI of exactly `version` per the boot-assessment
/// grammar: `archetype_<version>.efi`, optionally with `+<left>[-<done>]`
/// before `.efi`.
pub open spec fn uki_name_matches(filename: Seq<char>, version: Seq<char>) -> bool {
    if !crate::text::ends_with(filename, ".efi"@) {
        false
    } else {
        let stem = filename.take(filename.len() - ".efi"@.len());
        if !starts_with(stem, "archetype_"@) {
            false
        } else {
            let rest = stem.skip("archetype_"@.len() as int);
            let j = next_char(rest, '+', 0);
            if j >= rest.len() {
                rest == version
            } else {
                rest.take(j) == version && tries_suffix(rest.skip(j + 1))
            }
        }
    }
}

/// Whether `filename` names the UKI for exactly `version` (a prefix match
/// would confuse `2026.07.01-10` with `2026.07.01-1`).
pub fn uki_matches_version(filename: &str, version: &str) -> (r: bool)
    ensures
        r == uki_name_matches(filename@, version@),
{
    proof {
        reveal_strlit(".efi");
        reveal_strlit("archetype_");
    }
    let v = chars_of(filename);
    let suffix = chars_of(".efi");
    let prefix = chars_of("archetype_");
    proof {
        assert(v@.subrange(0, v@.len() as int) =~= v@);
    }
    if !crate::text::range_ends_with(&v, 0, v.len(), &suffix) {
        return false;
    }
    let stem_end = v.len() - suffix.len();
    proof {
        assert(v@.take(stem_end as int) =~= v@.subrange(0, stem_end as int));
    }
    if !range_starts_with(&v, 0, stem_end, &prefix) {
        return false;
    }
    let rest_start = prefix.len();
    let rest = string_of_range(&v, rest_start, stem_end);
    let rv = chars_of(rest.as_str());
    let ghost stem = v@.take(stem_end as int);
    proof {
        assert(stem.skip("archetype_"@.len() as int) =~= rv@);
        assert(stem == filename@.take(filename@.len() - ".efi"@.len()));
        assert(starts_with(stem, "archetype_"@));
        assert(crate::text::ends_with(filename@, ".efi"@));
    }
    let j = find_char(&rv, '+', 0);
    proof {
        lemma_next_char(rv@, '+', 0);
    }
    let want = chars_of(version);
    if j >= rv.len() {
        proof {
            assert(rv@.subrange(0, rv@.len() as int) =~= rv@);
        }
        return crate::text::range_eq(&rv, 0, rv.len(), &want);
    }
    let head_ok = crate::text::range_eq(&rv, 0, j, &want);
    proof {
        assert(rv@.subrange(0, j as int) =~= rv@.take(j as int));
    }
    if !head_ok {
        return false;
    }
    if j + 1 >= rv.len() {
        proof {
            assert(rv@.skip(j + 1).len() == 0);
        }
        return false;
    }
    let mut k = j + 1;
    proof {
        assert(uki_name_matches(filename@, version@) == tries_suffix(rv@.skip(j + 1)));
    }
    while k < rv.len()
        invariant
            j + 1 <= k <= rv@.len(),
            j < rv@.len(),
            uki_name_matches(filename@, version@) == tries_suffix(rv@.skip(j + 1)),
            forall|i: int| j + 1 <= i < k ==> ('0' <= #[trigger] rv@[i] <= '9' || rv@[i] == '-'),
        decreases rv@.len() - k,
    {
        let c = rv[k];
        if !(('0' <= c && c <= '9') || c == '-') {
            proof {
                assert(rv@.skip(j + 1)[k - (j + 1)] == c);
            }
            return false;
        }
        k = k + 1;
    }
    proof {
        assert forall|i: int| 0 <= i < rv@.skip(j + 1).len() implies ('0' <= #[trigger] rv@.skip(
            j + 1,
        )[i] <= '9' || rv@.skip(j + 1)[i] == '-') by {
            assert(rv@.skip(j + 1)[i] == rv@[i + j + 1]);
        }
    }
    true
}

/// What `object` makes of a PE image's section named `name`: `Err` with the
/// parse error's text when `data` is no 64-bit PE image; `Ok(None)` when it
/// has no such section; else the section's bytes, or the error met reading
/// them.
pub uninterp spec fn pe_section_of(data: Seq<u8>, name: Seq<char>) -> Result<
    Option<Result<Seq<u8>, Seq<char>>>,
    Seq<char>,
>;

/// The views of a section lookup's result.
pub open spec fn section_view(r: Result<Option<Result<Vec<u8>, String>>, String>) -> Result<
    Option<Result<Seq<u8>, Seq<char>>>,
    Seq<char>,
> {
    match r {
        Err(e) => Err(e@),
        Ok(None) => Ok(None),
        Ok(Some(Err(e))) => Ok(Some(Err(e@))),
        Ok(Some(Ok(b))) => Ok(Some(Ok(b@))),
    }
}

/// `object::read::pe::PeFile64::parse`, then `Object::section_by_name` and
/// `ObjectSection::data`: the section named `name` of the PE image `data`;
/// the result is named by [`pe_section_of`] (errors by their `Display` text).
#[verifier::external_body]
fn pe_section(data: &[u8], name: &str) -> (r: Result<Option<Result<Vec<u8>, String>>, String>)
    ensures
        section_view(r) == pe_section_of(data@, name@),
{
    let pe = match object::read::pe::PeFile64::parse(data) {
        Ok(pe) => pe,
        Err(e) => return Err(e.to_string()),
    };
    match pe.section_by_name(name) {
        None => Ok(None),
        Some(section) => match section.data() {
            Ok(b) => Ok(Some(Ok(b.to_vec()))),
            Err(e) => Ok(Some(Err(e.to_string()))),
        },
    }
}

/// The command line a UKI file at `path` holding `data` carries: its
/// `.cmdline` section as text, trailing NULs and then surrounding whitespace
/// removed; or why it cannot be had.
pub open spec fn uki_cmdline_of(path: Seq<char>, data: Seq<u8>) -> Result<Seq<char>, Seq<char>> {
    match pe_section_of(data, ".cmdline"@) {
        Err(e) => Err("cannot parse UKI "@ + path + " as PE: "@ + e),
        Ok(None) => Err("UKI "@ + path + " has no .cmdline section"@),
        Ok(Some(Err(e))) => Err("cannot read .cmdline of "@ + path + ": "@ + e),
        Ok(Some(Ok(b))) => Ok(trim(trim_end_c(lossy_text(b), '\0'))),
    }
}

/// The `.cmdline` of the UKI at `path`, whose bytes are `data`.
pub fn uki_cmdline(path: &str, data: &[u8]) -> (r: Result<String, String>)
    ensures
        match r {
            Ok(s) => uki_cmdline_of(path@, data@) == Ok::<Seq<char>, Seq<char>>(s@),
            Err(m) => uki_cmdline_of(path@, data@) == Err::<Seq<char>, Seq<char>>(m@),
        },
{
    proof {
        reveal_strlit(".cmdline");
    }
    let sec = pe_section(data, ".cmdline");
    match sec {
        Err(e) => {
            let mut m = to_owned("cannot parse UKI ");
            push_str(&mut m, path);
            push_str(&mut m, " as PE: ");
            push_str(&mut m, e.as_str());
            Err(m)
        },
        Ok(None) => {
            let mut m = to_owned("UKI ");
            push_str(&mut m, path);
            push_str(&mut m, " has no .cmdline section");
            Err(m)
        },
        Ok(Some(Err(e))) => {
            let mut m = to_owned("cannot read .cmdline of ");
            push_str(&mut m, path);
            push_str(&mut m, ": ");
            push_str(&mut m, e.as_str());
            Err(m)
        },
        Ok(Some(Ok(b))) => {
            let t = utf8_lossy(b.as_slice());
            let v = chars_of(t.as_str());
            let e = trim_end_char_range(&v, 0, v.len(), '\0');
            let (a, z) = trim_range(&v, 0, e);
            proof {
                assert(v@.subrange(0, v@.len() as int) =~= v@);
            }
            Ok(string_of_range(&v, a, z))
        },
    }
}

/// The new `/usr`'s verity root hash from the new version's UKI command line
/// (`cmdline`, or the error met reading it), but only once the command line is
/// known to pin the matching root subvolume; otherwise the snapshot built
/// would not be the one this UKI boots.
pub fn usrhash_from_uki(uki: &str, version: &str, cmdline: Result<String, MizError>) -> (r: Result<
    String,
    MizError,
>)
    ensures
        match cmdline {
            Err(e) => r == Err::<String, MizError>(e),
            Ok(c) => if !pins_subvol(c@, version@) {
                r matches Err(MizError::Other(m)) && m@ == "UKI "@ + uki@
                    + " does not pin rootflags=subvol="@ + subvol_name(version@) + " (its cmdline: "@
                    + debug_text(c@)
                    + "); refusing to relay -- the new UKI would not boot the root snapshot we build, breaking version-matched rollback"@
            } else {
                match usrhash_of(c@) {
                    Some(h) => r matches Ok(x) && x@ == h,
                    None => r matches Err(MizError::Other(m)) && m@ == "UKI "@ + uki@
                        + " .cmdline has no usrhash= (cannot open the new /usr verity): "@
                        + debug_text(c@),
                }
            },
        },
{
    let c = match cmdline {
        Err(e) => {
            return Err(e);
        },
        Ok(c) => c,
    };
    if !cmdline_pins_subvol(c.as_str(), version) {
        let mut m = String::new();
        push_str(&mut m, "UKI ");
        push_str(&mut m, uki);
        push_str(&mut m, " does not pin rootflags=subvol=");
        let sv = subvol_for_version(version);
        push_str(&mut m, sv.as_str());
        push_str(&mut m, " (its cmdline: ");
        let d = debug_str(c.as_str());
        push_str(&mut m, d.as_str());
        push_str(
            &mut m,
            "); refusing to relay -- the new UKI would not boot the root snapshot we build, breaking version-matched rollback",
        );
        return Err(MizError::Other(m));
    }
    match parse_usrhash_from_cmdline(c.as_str()) {
        Some(h) => Ok(h),
        None => {
            let mut m = String::new();
            push_str(&mut m, "UKI ");
            push_str(&mut m, uki);
            push_str(&mut m, " .cmdline has no usrhash= (cannot open the new /usr verity): ");
            let d = debug_str(c.as_str());
            push_str(&mut m, d.as_str());
            Err(MizError::Other(m))
        },
    }
}

/// `[a, b, ...]` with each item in its `Debug` form (a path list's `Debug`).
pub open spec fn debug_list(items: Seq<Seq<char>>) -> Seq<char> {
    "["@ + join(items.map_values(|x: Seq<char>| debug_text(x)), ", "@) + "]"@
}

fn debug_strings(items: &Vec<String>) -> (r: String)
    ensures
        r@ == debug_list(strings_view(items@)),
{
    let ghost dv = strings_view(items@).map_values(|x: Seq<char>| debug_text(x));
    let mut out = String::new();
    push_str(&mut out, "[");
    let ghost start = out@;
    let mut i: usize = 0;
    while i < items.len()
        invariant
            0 <= i <= items@.len(),
            dv == strings_view(items@).map_values(|x: Seq<char>| debug_text(x)),
            dv.len() == items@.len(),
            out@ == start + join(dv.take(i as int), ", "@),
        decreases items@.len() - i,
    {
        let ghost before = out@;
        if i > 0 {
            push_str(&mut out, ", ");
        }
        let d = debug_str(items[i].as_str());
        push_str(&mut out, d.as_str());
        proof {
            assert(dv[i as int] == d@);
            assert(dv.take(i + 1).drop_last() =~= dv.take(i as int));
            if i == 0 {
                assert(dv.take(1).len() == 1);
            }
            assert(out@ =~= start + join(dv.take(i + 1), ", "@));
        }
        i = i + 1;
    }
    push_str(&mut out, "]");
    proof {
        assert(dv.take(items@.len() as int) =~= dv);
        assert(out@ =~= debug_list(strings_view(items@)));
    }
    out
}

/// The one UKI found for `version` across the ESP mount points; none, or
/// more than one, is refused.
pub fn choose_uki(version: &str, found: &Vec<String>) -> (r: Result<String, MizError>)
    ensures
        found@.len() == 1 ==> (r matches Ok(x) && x@ == found@[0]@),
        found@.len() == 0 ==> (r matches Err(MizError::Other(m)) && m@ == "no UKI for version "@
            + version@
            + " found on the ESP (/efi,/boot,/boot/efi); the new /usr root hash cannot be read"@),
        found@.len() > 1 ==> (r matches Err(MizError::Other(m)) && m@ == "multiple UKIs for version "@
            + version@ + " found across ESP mountpoints ("@ + debug_list(strings_view(found@))
            + "); refusing to guess which to trust"@),
{
    if found.len() == 1 {
        return Ok(found[0].clone());
    }
    let mut m = String::new();
    if found.len() == 0 {
        push_str(&mut m, "no UKI for version ");
        push_str(&mut m, version);
        push_str(
            &mut m,
            " found on the ESP (/efi,/boot,/boot/efi); the new /usr root hash cannot be read",
        );
    } else {
        push_str(&mut m, "multiple UKIs for version ");
        push_str(&mut m, version);
        push_str(&mut m, " found across ESP mountpoints (");
        let d = debug_strings(found);
        push_str(&mut m, d.as_str());
        push_str(&mut m, "); refusing to guess which to trust");
    }
    Err(MizError::Other(m))
}

/// The device paths of `lsblk -rno PATH,PARTLABEL` lines whose label (after
/// the first space, trimmed) is `label`, in order.
pub open spec fn labelled_paths(ls: Seq<Seq<char>>, label: Seq<char>) -> Seq<Seq<char>>
    decreases ls.len(),
{
    if ls.len() == 0 {
        seq![]
    } else {
        let rest = labelled_paths(ls.drop_last(), label);
        let l = ls.last();
        let j = next_char(l, ' ', 0);
        if j < l.len() && trim(l.skip(j + 1)) == label {
            rest.push(l.take(j))
        } else {
            rest
        }
    }
}

/// The one partition carrying GPT label `label` in `lsblk -rno PATH,PARTLABEL`
/// output; none, or more than one, is refused.
pub fn partition_by_label(lsblk: &str, label: &str) -> (r: Result<String, MizError>)
    ensures
        labelled_paths(lines(lsblk@), label@).len() == 1 ==> (r matches Ok(x) && x@
            == labelled_paths(lines(lsblk@), label@)[0]),
        labelled_paths(lines(lsblk@), label@).len() == 0 ==> (r matches Err(MizError::Other(m))
            && m@ == "no partition with GPT label "@ + debug_text(label@)
            + " found (is the new /usr slot written?)"@),
        labelled_paths(lines(lsblk@), label@).len() > 1 ==> (r matches Err(MizError::Other(m))
            && m@ == "multiple partitions with GPT label "@ + debug_text(label@)
            + "; refusing to guess which /usr to open"@),
{
    let v = chars_of(lsblk);
    let spans = lines_of(&v);
    let want = chars_of(label);
    let ghost ls = pieces(v@, spans_view(spans@));
    let mut matches: Vec<String> = Vec::new();
    let mut i: usize = 0;
    while i < spans.len()
        invariant
            0 <= i <= spans@.len(),
            v@ == lsblk@,
            want@ == label@,
            ls == pieces(v@, spans_view(spans@)),
            ls == lines(lsblk@),
            ls.len() == spans@.len(),
            forall|k: int| 0 <= k < spans@.len() ==> #[trigger] spans@[k].0 <= spans@[k].1 <= v@.len(),
            strings_view(matches@) == labelled_paths(ls.take(i as int), label@),
        decreases spans@.len() - i,
    {
        let (a, b) = spans[i];
        let line = string_of_range(&v, a, b);
        let lv = chars_of(line.as_str());
        proof {
            assert(ls[i as int] == lv@);
            assert(ls.take(i + 1).drop_last() =~= ls.take(i as int));
            assert(ls.take(i + 1).last() == lv@);
        }
        let j = find_char(&lv, ' ', 0);
        proof {
            lemma_next_char(lv@, ' ', 0);
        }
        if j < lv.len() {
            let (c, d) = trim_range(&lv, j + 1, lv.len());
            let same = crate::text::range_eq(&lv, c, d, &want);
            proof {
                assert(lv@.subrange(j + 1, lv@.len() as int) =~= lv@.skip(j + 1));
            }
            if same {
                let ghost before = matches@;
                matches.push(string_of_range(&lv, 0, j));
                proof {
                    assert(lv@.subrange(0, j as int) =~= lv@.take(j as int));
                    assert(strings_view(matches@) =~= strings_view(before).push(lv@.take(j as int)));
                }
            }
        }
        i = i + 1;
    }
    proof {
        assert(ls.take(spans@.len() as int) =~= ls);
    }
    if matches.len() == 1 {
        return Ok(matches[0].clone());
    }
    let mut m = String::new();
    let d = debug_str(label);
    if matches.len() == 0 {
        push_str(&mut m, "no partition with GPT label ");
        push_str(&mut m, d.as_str());
        push_str(&mut m, " found (is the new /usr slot written?)");
    } else {
        push_str(&mut m, "multiple partitions with GPT label ");
        push_str(&mut m, d.as_str());
        push_str(&mut m, "; refusing to guess which /usr to open");
    }
    Err(MizError::Other(m))
}

// ---------------------------------------------------------------------------
// Commands and teardown
// ---------------------------------------------------------------------------

/// One external command: `argv[0]` is the program. Held as data so teardown
/// runs commands uniformly and the plan can be shown without running it.
pub struct PlannedCommand {
    pub label: String,
    pub argv: Vec<String>,
}

impl PlannedCommand {
    /// A command with its step label.
    pub fn new(label: &str, argv: &[&str]) -> (c: Self)
        ensures
            c.label@ == label@,
            c.argv@.len() == argv@.len(),
            forall|k: int| 0 <= k < argv@.len() ==> #[trigger] c.argv@[k]@ == argv@[k]@,
    {
        let mut v: Vec<String> = Vec::new();
        let mut i: usize = 0;
        while i < argv.len()
            invariant
                0 <= i <= argv@.len(),
                v@.len() == i,
                forall|k: int| 0 <= k < i ==> #[trigger] v@[k]@ == argv@[k]@,
            decreases argv@.len() - i,
        {
            v.push(to_owned(argv[i]));
            i = i + 1;
        }
        PlannedCommand { label: to_owned(label), argv: v }
    }

    /// The command line as shown to the user: the arguments joined by spaces.
    pub fn rendered(&self) -> (r: String)
        ensures
            r@ == join(strings_view(self.argv@), " "@),
    {
        crate::common::fmt::join_strings(&self.argv, " ")
    }
}

/// One teardown entry: a command, and whether it runs only when the relay
/// failed (deleting the half-built snapshot, removing the new UKIs) or always
/// (unmounts, closing the verity mapper).
pub struct TeardownStep {
    pub cmd: PlannedCommand,
    pub failure_only: bool,
}

/// The teardown of the relay's transient host state as one stack, so it runs
/// in reverse of setup: the snapshot delete must come after the snapshot is
/// unmounted but before the btrfs top-level is. A step can also be placed
/// lower in the stack, to run later than the steps above it.
pub struct Teardown {
    pub steps: Vec<TeardownStep>,
    pub committed: bool,
}

/// The steps that run when the teardown happens, in the order they run: the
/// registered steps last-first, leaving out failure-only steps once committed.
pub open spec fn run_order(steps: Seq<TeardownStep>, committed: bool) -> Seq<PlannedCommand>
    decreases steps.len(),
{
    if steps.len() == 0 {
        seq![]
    } else {
        let rest = run_order(steps.drop_last(), committed);
        if steps.last().failure_only && committed {
            rest
        } else {
            seq![steps.last().cmd] + rest
        }
    }
}

/// The index of the first failure-only step, or the number of steps when
/// there is none.
pub open spec fn failure_slot(steps: Seq<TeardownStep>) -> int
    decreases steps.len(),
{
    if steps.len() == 0 {
        0
    } else if steps[0].failure_only {
        0
    } else {
        1 + failure_slot(steps.drop_first())
    }
}

pub proof fn lemma_failure_slot(steps: Seq<TeardownStep>)
    ensures
        0 <= failure_slot(steps) <= steps.len(),
        forall|i: int| 0 <= i < failure_slot(steps) ==> !(#[trigger] steps[i]).failure_only,
        failure_slot(steps) < steps.len() ==> steps[failure_slot(steps)].failure_only,
    decreases steps.len(),
{
    if steps.len() > 0 && !steps[0].failure_only {
        lemma_failure_slot(steps.drop_first());
        assert forall|i: int| 0 <= i < failure_slot(steps) implies !(#[trigger] steps[i]).failure_only by {
            if i > 0 {
                assert(steps[i] == steps.drop_first()[i - 1]);
            }
        }
    }
}

/// The index of the first failure-only step of `steps`, or its length.
pub fn first_failure_only(steps: &Vec<TeardownStep>) -> (r: usize)
    ensures
        r == failure_slot(steps@),
{
    proof {
        lemma_failure_slot(steps@);
    }
    let mut i: usize = 0;
    while i < steps.len()
        invariant
            0 <= i <= steps@.len(),
            i <= failure_slot(steps@),
            0 <= failure_slot(steps@) <= steps@.len(),
            forall|j: int| 0 <= j < failure_slot(steps@) ==> !(#[trigger] steps@[j]).failure_only,
            failure_slot(steps@) < steps@.len() ==> steps@[failure_slot(steps@)].failure_only,
        decreases steps@.len() - i,
    {
        if steps[i].failure_only {
            return i;
        }
        i = i + 1;
    }
    i
}

impl Teardown {
    /// An empty, uncommitted teardown.
    pub fn new() -> (t: Self)
        ensures
            t.steps@.len() == 0,
            !t.committed,
    {
        Teardown { steps: Vec::new(), committed: false }
    }

    /// Register a step that runs whatever the outcome.
    pub fn always(&mut self, cmd: PlannedCommand)
        ensures
            final(self).steps@ == old(self).steps@.push(TeardownStep { cmd, failure_only: false }),
            final(self).committed == old(self).committed,
    {
        self.steps.push(TeardownStep { cmd, failure_only: false });
    }

    /// Register a step that runs only if the relay does not commit.
    pub fn on_failure(&mut self, cmd: PlannedCommand)
        ensures
            final(self).steps@ == old(self).steps@.push(TeardownStep { cmd, failure_only: true }),
            final(self).committed == old(self).committed,
    {
        self.steps.push(TeardownStep { cmd, failure_only: true });
    }

    /// Register a step that runs only if the relay does not commit, at
    /// position `at` of the stack: it runs after the steps above it.
    pub fn on_failure_at(&mut self, at: usize, cmd: PlannedCommand)
        requires
            at <= old(self).steps@.len(),
        ensures
            final(self).steps@ == old(self).steps@.insert(at as int, TeardownStep { cmd, failure_only: true }),
            final(self).committed == old(self).committed,
    {
        self.steps.insert(at, TeardownStep { cmd, failure_only: true });
    }

    /// Mark the relay as succeeded: failure-only steps will not run.
    pub fn commit(&mut self)
        ensures
            final(self).steps@ == old(self).steps@,
            final(self).committed,
    {
        self.committed = true;
    }

    /// The commands to run when the teardown happens, in order (see
    /// [`run_order`]).
    pub fn into_pending(self) -> (r: Vec<PlannedCommand>)
        ensures
            r@ == run_order(self.steps@, self.committed),
    {
        let committed = self.committed;
        let mut steps = self.steps;
        let ghost all = steps@;
        let mut out: Vec<PlannedCommand> = Vec::new();
        while steps.len() > 0
            invariant
                steps@.len() <= all.len(),
                steps@ == all.take(steps@.len() as int),
                run_order(all, committed) == out@ + run_order(steps@, committed),
            decreases steps@.len(),
        {
            let ghost before = steps@;
            let step = steps.pop().unwrap();
            proof {
                assert(steps@ =~= before.drop_last());
                assert(steps@ =~= all.take(steps@.len() as int));
            }
            if step.failure_only && committed {
            } else {
                let ghost o = out@;
                out.push(step.cmd);
                proof {
                    assert(out@ =~= o + seq![before.last().cmd]);
                    assert(o + run_order(before, committed) =~= out@ + run_order(steps@, committed));
                }
            }
        }
        out
    }
}

/// Every registered step runs, last registered first, unless the relay
/// committed, in which case exactly the failure-only steps are left out.
pub proof fn teardown_runs_in_reverse(steps: Seq<TeardownStep>)
    ensures
        run_order(steps, false) == steps.reverse().map_values(|s: TeardownStep| s.cmd),
        forall|k: int|
            0 <= k < run_order(steps, true).len() ==> exists|j: int|
                0 <= j < steps.len() && !steps[j].failure_only && steps[j].cmd == #[trigger] run_order(
                    steps,
                    true,
                )[k],
    decreases steps.len(),
{
    if steps.len() > 0 {
        teardown_runs_in_reverse(steps.drop_last());
        let rest = steps.drop_last();
        assert(steps.reverse() =~= seq![steps.last()] + rest.reverse());
        assert(run_order(steps, false) =~= steps.reverse().map_values(|s: TeardownStep| s.cmd));
        assert forall|k: int| 0 <= k < run_order(steps, true).len() implies exists|j: int|
            0 <= j < steps.len() && !steps[j].failure_only && steps[j].cmd
                == #[trigger] run_order(steps, true)[k] by {
            let ro = run_order(steps, true);
            if steps.last().failure_only {
                let j = choose|j: int|
                    0 <= j < rest.len() && !rest[j].failure_only && rest[j].cmd == #[trigger] run_order(
                        rest,
                        true,
                    )[k];
                assert(steps[j] == rest[j]);
            } else if k == 0 {
                assert(ro[0] == steps.last().cmd);
                assert(steps[steps.len() - 1] == steps.last());
            } else {
                assert(ro[k] == run_order(rest, true)[k - 1]);
                let j = choose|j: int|
                    0 <= j < rest.len() && !rest[j].failure_only && rest[j].cmd == #[trigger] run_order(
                        rest,
                        true,
                    )[k - 1];
                assert(steps[j] == rest[j]);
            }
        }
    } else {
        assert(steps.reverse().map_values(|s: TeardownStep| s.cmd) =~= seq![]);
    }
}

// ---------------------------------------------------------------------------
// Dry-run plan
// ---------------------------------------------------------------------------

/// The versions a relay preview names; unknown ones show as placeholders.
pub struct RelayPlan {
    pub old_version: String,
    pub new_version: String,
}

impl RelayPlan {
    pub fn new(old: Option<&str>, new: Option<&str>) -> (p: Self)
        ensures
            p.old_version@ == match opt_str(old) {
                Some(o) => o,
                None => "<running-version>"@,
            },
            p.new_version@ == match opt_str(new) {
                Some(n) => n,
                None => "<new-version>"@,
            },
    {
        RelayPlan {
            old_version: match old {
                Some(o) => to_owned(o),
                None => to_owned("<running-version>"),
            },
            new_version: match new {
                Some(n) => to_owned(n),
                None => to_owned("<new-version>"),
            },
        }
    }
}

/// The dry-run preview of the relay for an old and a new version.
pub open spec fn plan_text(old_v: Seq<char>, new_v: Seq<char>) -> Seq<char> {
    let old = subvol_name(old_v);
    let new = subvol_name(new_v);
    "# miz -Iu layered-package root relay (DRY RUN \u{2014} nothing executed)\n# old root subvolume: "@
        + old + "\n# new root subvolume: "@ + new + "\n# step 1: mount btrfs top-level at "@
        + TOPLEVEL_MOUNT@ + "\n# step 2: fail closed if "@ + new + " exists; require "@ + old
        + " to exist\n# step 3: btrfs subvolume snapshot "@ + TOPLEVEL_MOUNT@ + "/"@ + old + " "@
        + TOPLEVEL_MOUNT@ + "/"@ + new + "\n# step 4: mount subvol="@ + new + " at "@ + NEXT_ROOT@
        + "\n# step 5: open new /usr (label archetype_"@ + new_v
        + ") with usrhash from its UKI, mount at "@ + NEXT_ROOT@ + "/usr\n# step 6: miz --root "@
        + NEXT_ROOT@
        + " -Syu (upgrade layered packages against the new image's repos)\n# step 7: tear down mounts/verity; prune root snapshots except ["@
        + new + ", "@ + old
        + "]\n# note: NO btrfs set-default \u{2014} each UKI's rootflags=subvol= is the pinning\n"@
}

/// Human-readable preview of the relay for `--dry-run`.
pub fn render_plan(plan: &RelayPlan) -> (r: String)
    ensures
        r@ == plan_text(plan.old_version@, plan.new_version@),
{
    let old = subvol_for_version(plan.old_version.as_str());
    let new = subvol_for_version(plan.new_version.as_str());
    let o = old.as_str();
    let n = new.as_str();
    let mut out = String::new();
    push_str(&mut out, "# miz -Iu layered-package root relay (DRY RUN \u{2014} nothing executed)\n# old root subvolume: ");
    push_str(&mut out, o);
    push_str(&mut out, "\n# new root subvolume: ");
    push_str(&mut out, n);
    push_str(&mut out, "\n# step 1: mount btrfs top-level at ");
    push_str(&mut out, TOPLEVEL_MOUNT);
    push_str(&mut out, "\n# step 2: fail closed if ");
    push_str(&mut out, n);
    push_str(&mut out, " exists; require ");
    push_str(&mut out, o);
    push_str(&mut out, " to exist\n# step 3: btrfs subvolume snapshot ");
    push_str(&mut out, TOPLEVEL_MOUNT);
    push_str(&mut out, "/");
    push_str(&mut out, o);
    push_str(&mut out, " ");
    push_str(&mut out, TOPLEVEL_MOUNT);
    push_str(&mut out, "/");
    push_str(&mut out, n);
    push_str(&mut out, "\n# step 4: mount subvol=");
    push_str(&mut out, n);
    push_str(&mut out, " at ");
    push_str(&mut out, NEXT_ROOT);
    push_str(&mut out, "\n# step 5: open new /usr (label archetype_");
    push_str(&mut out, plan.new_version.as_str());
    push_str(&mut out, ") with usrhash from its UKI, mount at ");
    push_str(&mut out, NEXT_ROOT);
    push_str(&mut out, "/usr\n# step 6: miz --root ");
    push_str(&mut out, NEXT_ROOT);
    push_str(&mut out, " -Syu (upgrade layered packages against the new image's repos)\n# step 7: tear down mounts/verity; prune root snapshots except [");
    push_str(&mut out, n);
    push_str(&mut out, ", ");
    push_str(&mut out, o);
    push_str(&mut out, "]\n# note: NO btrfs set-default \u{2014} each UKI's rootflags=subvol= is the pinning\n");
    proof {
        assert(out@ =~= plan_text(plan.old_version@, plan.new_version@));
    }
    out
}

/// How a relay request proceeds.
pub enum RelayStart {
    /// `--dry-run`: print the plan text.
    DryRun(String),
    /// Run the live relay onto this new version.
    Live(String),
}

/// `-I --reinstall-layered [<version>]`: preview with `--dry-run` (the running
/// version read from os-release, when known), else relay onto the version
/// given as the first target, which is then required.
pub fn run(args: &crate::cli::args::images::Args, running: Option<&str>) -> (r: Result<
    RelayStart,
    MizError,
>)
    ensures
        args.dry_run ==> (r matches Ok(RelayStart::DryRun(t)) && t@ == plan_text(
            match opt_str(running) {
                Some(o) => o,
                None => "<running-version>"@,
            },
            if args.targets@.len() > 0 {
                args.targets@[0]@
            } else {
                "<new-version>"@
            },
        )),
        !args.dry_run && args.targets@.len() > 0 ==> (r matches Ok(RelayStart::Live(v)) && v@
            == args.targets@[0]@),
        !args.dry_run && args.targets@.len() == 0 ==> (r matches Err(MizError::Other(m)) && m@
            == "provide the new image version as the target (miz -I --reinstall-layered <version>), or run `miz -Iu` which relays automatically after updating"@),
{
    let new_version: Option<&str> = if args.targets.len() > 0 {
        Some(args.targets[0].as_str())
    } else {
        None
    };
    if args.dry_run {
        return Ok(RelayStart::DryRun(render_plan(&RelayPlan::new(running, new_version))));
    }
    match new_version {
        Some(v) => Ok(RelayStart::Live(to_owned(v))),
        None => Err(
            MizError::Other(
                to_owned(
                    "provide the new image version as the target (miz -I --reinstall-layered <version>), or run `miz -Iu` which relays automatically after updating",
                ),
            ),
        ),
    }
}

/// The relay that follows an `-Iu` which installed `new_version`: a preview
/// under `--dry-run`, else the live relay.
pub fn relay_after_upgrade(new_version: &str, dry_run: bool, running: Option<&str>) -> (r:
    RelayStart)
    ensures
        dry_run ==> (r matches RelayStart::DryRun(t) && t@ == plan_text(
            match opt_str(running) {
                Some(o) => o,
                None => "<running-version>"@,
            },
            new_version@,
        )),
        !dry_run ==> (r matches RelayStart::Live(v) && v@ == new_version@),
{
    if dry_run {
        RelayStart::DryRun(render_plan(&RelayPlan::new(running, Some(new_version))))
    } else {
        RelayStart::Live(to_owned(new_version))
    }
}


// ---------------------------------------------------------------------------
// Laws of the command-line and file-name readers
// ---------------------------------------------------------------------------

/// What follows `p` in the first of `ts` that starts with `p`: the value
/// [`first_stripped`] gives, and none when no element starts with `p`.
pub proof fn lemma_first_stripped(ts: Seq<Seq<char>>, p: Seq<char>)
    ensures
        (forall|k: int| 0 <= k < ts.len() ==> !starts_with(#[trigger] ts[k], p)) ==> first_stripped(ts, p)
            is None,
        forall|k: int|
            0 <= k < ts.len() && starts_with(#[trigger] ts[k], p) && (forall|i: int|
                0 <= i < k ==> !starts_with(ts[i], p)) ==> first_stripped(ts, p) == Some(
                ts[k].skip(p.len() as int),
            ),
    decreases ts.len(),
{
    if ts.len() > 0 {
        lemma_first_stripped(ts.drop_first(), p);
        assert forall|k: int|
            0 <= k < ts.len() && starts_with(#[trigger] ts[k], p) && (forall|i: int|
                0 <= i < k ==> !starts_with(ts[i], p)) implies first_stripped(ts, p) == Some(
            ts[k].skip(p.len() as int),
        ) by {
            if k > 0 {
                assert(!starts_with(ts[0], p));
                assert(ts.drop_first()[k - 1] == ts[k]);
                assert forall|i: int| 0 <= i < k - 1 implies !starts_with(ts.drop_first()[i], p) by {
                    assert(ts.drop_first()[i] == ts[i + 1]);
                }
            }
        }
        if forall|k: int| 0 <= k < ts.len() ==> !starts_with(#[trigger] ts[k], p) {
            assert(!starts_with(ts[0], p));
            assert forall|k: int| 0 <= k < ts.drop_first().len() implies !starts_with(
                #[trigger] ts.drop_first()[k],
                p,
            ) by {
                assert(ts.drop_first()[k] == ts[k + 1]);
            }
        }
    }
}

/// The `usrhash=` value of a kernel command line: none without a whitespace
/// token starting `usrhash=`; else what follows `usrhash=` in the first such
/// token, provided it is not empty.
pub proof fn law_usrhash(cmdline: Seq<char>)
    ensures
        (forall|k: int|
            0 <= k < tokens(cmdline).len() ==> !starts_with(#[trigger] tokens(cmdline)[k], "usrhash="@))
            ==> usrhash_of(cmdline) is None,
        forall|k: int|
            0 <= k < tokens(cmdline).len() && starts_with(#[trigger] tokens(cmdline)[k], "usrhash="@)
                && (forall|i: int| 0 <= i < k ==> !starts_with(tokens(cmdline)[i], "usrhash="@))
                ==> usrhash_of(cmdline) == (if tokens(cmdline)[k].len() > "usrhash="@.len() {
                Some(tokens(cmdline)[k].skip("usrhash="@.len() as int))
            } else {
                None::<Seq<char>>
            }),
{
    lemma_first_stripped(tokens(cmdline), "usrhash="@);
}

/// The `rootflags=` options of a command-line token: the comma-separated
/// elements after `rootflags=`, none for another token.
pub open spec fn rootflag_options(t: Seq<char>) -> Seq<Seq<char>> {
    if starts_with(t, "rootflags="@) {
        let f = t.skip("rootflags="@.len() as int);
        pieces(f, split_spans(f, ',', 0))
    } else {
        seq![]
    }
}

/// A command line pins `version`'s root subvolume exactly when some
/// whitespace token is `rootflags=F` and some comma-separated element of `F`
/// is `subvol=@archetype_<version>` or `subvol=/@archetype_<version>`.
pub proof fn law_pins_subvol(cmdline: Seq<char>, version: Seq<char>)
    ensures
        pins_subvol(cmdline, version) <==> exists|k: int, j: int|
            0 <= k < tokens(cmdline).len() && 0 <= j < rootflag_options(tokens(cmdline)[k]).len() && (
            #[trigger] rootflag_options(tokens(cmdline)[k])[j] == "subvol=@archetype_"@ + version
                || rootflag_options(tokens(cmdline)[k])[j] == "subvol=/@archetype_"@ + version),
{
    reveal_strlit("subvol=@archetype_");
    reveal_strlit("subvol=/@archetype_");
    reveal_strlit("subvol=");
    reveal_strlit("@archetype_");
    let ts = tokens(cmdline);
    let want = subvol_name(version);
    assert(("subvol="@ + want) =~= "subvol=@archetype_"@ + version);
    assert(("subvol="@ + (seq!['/'] + want)) =~= "subvol=/@archetype_"@ + version);
    if pins_subvol(cmdline, version) {
        let k = choose|k: int|
            0 <= k < ts.len() && starts_with(#[trigger] ts[k], "rootflags="@) && flags_pin(
                ts[k].skip("rootflags="@.len() as int),
                want,
            );
        let f = ts[k].skip("rootflags="@.len() as int);
        let os = pieces(f, split_spans(f, ',', 0));
        let j = choose|j: int|
            0 <= j < os.len() && {
                let o = #[trigger] os[j];
                starts_with(o, "subvol="@) && (o.skip("subvol="@.len() as int) == want || o.skip(
                    "subvol="@.len() as int,
                ) == seq!['/'] + want)
            };
        let o = os[j];
        assert(o =~= o.take(7) + o.skip(7));
        assert(rootflag_options(ts[k]) == os);
        assert(rootflag_options(ts[k])[j] == "subvol=@archetype_"@ + version
            || rootflag_options(ts[k])[j] == "subvol=/@archetype_"@ + version);
    }
    if exists|k: int, j: int|
        0 <= k < ts.len() && 0 <= j < rootflag_options(ts[k]).len() && (
        #[trigger] rootflag_options(ts[k])[j] == "subvol=@archetype_"@ + version
            || rootflag_options(ts[k])[j] == "subvol=/@archetype_"@ + version) {
        let (k, j) = choose|k: int, j: int|
            0 <= k < ts.len() && 0 <= j < rootflag_options(ts[k]).len() && (
            #[trigger] rootflag_options(ts[k])[j] == "subvol=@archetype_"@ + version
                || rootflag_options(ts[k])[j] == "subvol=/@archetype_"@ + version);
        assert(starts_with(ts[k], "rootflags="@));
        let f = ts[k].skip("rootflags="@.len() as int);
        let os = pieces(f, split_spans(f, ',', 0));
        let o = os[j];
        assert(o.take(7) =~= "subvol="@);
        assert(o.skip(7) =~= want || o.skip(7) =~= seq!['/'] + want);
        assert(flags_pin(f, want));
    }
}

/// A UKI file name belongs to a version without `+` exactly when it is
/// `archetype_<version>.efi`, or `archetype_<version>+<t>.efi` for a
/// non-empty `t` of ASCII digits and dashes.
pub proof fn law_uki_name(filename: Seq<char>, version: Seq<char>)
    requires
        !version.contains('+'),
    ensures
        uki_name_matches(filename, version) <==> (filename == "archetype_"@ + version + ".efi"@
            || exists|t: Seq<char>|
            #[trigger] tries_suffix(t) && filename == "archetype_"@ + version + "+"@ + t + ".efi"@),
{
    reveal_strlit("archetype_");
    reveal_strlit(".efi");
    reveal_strlit("+");
    let a = "archetype_"@;
    let e = ".efi"@;
    let plus = "+"@;
    if uki_name_matches(filename, version) {
        let stem = filename.take(filename.len() - 4);
        let rest = stem.skip(10);
        assert(filename =~= stem + e);
        assert(stem =~= a + rest);
        let j = next_char(rest, '+', 0);
        lemma_next_char(rest, '+', 0);
        if j >= rest.len() {
            assert(filename =~= a + version + e);
        } else {
            let t = rest.skip(j + 1);
            assert(rest =~= version + plus + t);
            assert(filename =~= a + version + plus + t + e);
            assert(tries_suffix(t));
        }
    }
    lemma_next_char(version, '+', 0);
    if next_char(version, '+', 0) < version.len() {
        assert(version.contains('+'));
    }
    if filename == a + version + e {
        let stem = filename.take(filename.len() - 4);
        assert(filename.skip(filename.len() - 4) =~= e);
        assert(stem =~= a + version);
        assert(stem.take(10) =~= a);
        assert(stem.skip(10) =~= version);
    }
    assert forall|t: Seq<char>|
        #[trigger] tries_suffix(t) && filename == a + version + plus + t + e implies uki_name_matches(
        filename,
        version,
    ) by {
        let stem = filename.take(filename.len() - 4);
        assert(filename.skip(filename.len() - 4) =~= e);
        assert(stem =~= a + version + plus + t);
        assert(stem.take(10) =~= a);
        let rest = stem.skip(10);
        assert(rest =~= version + plus + t);
        lemma_next_char(rest, '+', 0);
        let j = next_char(rest, '+', 0);
        if j < version.len() {
            assert(rest[j] == version[j]);
            assert(version.contains('+'));
        }
        assert(rest[version.len() as int] == '+');
        assert(j == version.len());
        assert(rest.take(j) =~= version);
        assert(rest.skip(j + 1) =~= t);
    }
}

/// `s` holds `p` somewhere.
pub open spec fn has_infix(s: Seq<char>, p: Seq<char>) -> bool {
    exists|i: int| 0 <= i <= s.len() - p.len() && #[trigger] s.subrange(i, i + p.len()) == p
}

/// What the root mount's `findmnt` text gives: its first non-blank line `l`;
/// with none, an error; when the first field of `l` is not `btrfs`, an error
/// saying `not btrfs`; when there is no second field, an error saying the
/// source device was not reported; else the second field up to its first `[`.
pub proof fn law_findmnt(text: Seq<char>)
    ensures
        first_nonblank(lines(text)) is None ==> findmnt_result(text) is Err,
        first_nonblank(lines(text)) matches Some(l) ==> {
            &&& field(l, 0) != "btrfs"@ ==> (findmnt_result(text) matches Err(m) && has_infix(
                m,
                "not btrfs"@,
            ))
            &&& field(l, 0) == "btrfs"@ && field(l, 1).len() == 0 ==> (findmnt_result(text) matches Err(
                m,
            ) && has_infix(m, "did not report a source device"@))
            &&& field(l, 0) == "btrfs"@ && field(l, 1).len() > 0 ==> findmnt_result(text) == Ok::<
                Seq<char>,
                Seq<char>,
            >(field(l, 1).take(next_char(field(l, 1), '[', 0)))
        },
{
    reveal_strlit("not btrfs");
    reveal_strlit("did not report a source device");
    reveal_strlit("refusing to relay: root filesystem is ");
    reveal_strlit(", not btrfs; the versioned-root layered update requires a btrfs root");
    reveal_strlit("findmnt did not report a source device for the root mount");
    if let Some(l) = first_nonblank(lines(text)) {
        let fstype = field(l, 0);
        if fstype != "btrfs"@ {
            let m = "refusing to relay: root filesystem is "@ + debug_text(fstype)
                + ", not btrfs; the versioned-root layered update requires a btrfs root"@;
            let i: int = 38 + debug_text(fstype).len() as int + 2;
            assert(m.subrange(i, i + 9) =~= "not btrfs"@);
            assert(has_infix(m, "not btrfs"@));
        } else if field(l, 1).len() == 0 {
            let m = "findmnt did not report a source device for the root mount"@;
            let p = "did not report a source device"@;
            assert(m.subrange(8, 8 + p.len() as int) =~= p);
            assert(has_infix(m, "did not report a source device"@));
        }
    }
}

} // verus!
