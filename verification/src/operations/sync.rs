//! `-S` decisions that do not need libalpm: transaction flags, ignore lists,
//! `repo/name` targets, and which cache files `-Sc`/`-Scc` remove.
use crate::common::fmt::strings_view;
use crate::params::sync::Params as Args;
use crate::text::{
    chars_of, ends_with, find_char, find_sub, lemma_next_char, lemma_next_sub, next_char, next_sub,
    opt_str, pieces, push_range, push_str, range_ends_with, split_char, split_spans, spans_view,
    starts_with, str_eq, string_of_range, to_owned, trim, trim_range, lemma_split_spans_bounds,
};
use vstd::prelude::*;
use vstd::string::StrSliceExecFns;

verus! {

/// libalpm transaction flags (bit values of `alpm_transflag_t`).
pub const TRANS_NODEPS: u32 = 1;
pub const TRANS_NOSAVE: u32 = 4;
pub const TRANS_NODEPVERSION: u32 = 8;
pub const TRANS_CASCADE: u32 = 16;
pub const TRANS_RECURSE: u32 = 32;
pub const TRANS_DBONLY: u32 = 64;
pub const TRANS_ALLDEPS: u32 = 256;
pub const TRANS_DOWNLOADONLY: u32 = 512;
pub const TRANS_NOSCRIPTLET: u32 = 1024;
pub const TRANS_NEEDED: u32 = 8192;
pub const TRANS_ALLEXPLICIT: u32 = 16384;
pub const TRANS_UNNEEDED: u32 = 32768;
pub const TRANS_RECURSEALL: u32 = 65536;
pub const TRANS_NOLOCK: u32 = 131072;

/// `bits` when `on`, else nothing.
pub open spec fn flag_if(on: bool, bits: u32) -> u32 {
    if on {
        bits
    } else {
        0
    }
}

/// The transaction flags of `-S`: `-w`, `--needed`, `--asdeps`,
/// `--asexplicit`, `--noscriptlet`.
pub open spec fn sync_flags(args: Args) -> u32 {
    flag_if(args.downloadonly, TRANS_DOWNLOADONLY) | flag_if(args.needed, TRANS_NEEDED) | flag_if(
        args.asdeps,
        TRANS_ALLDEPS,
    ) | flag_if(args.asexplicit, TRANS_ALLEXPLICIT) | flag_if(args.noscriptlet, TRANS_NOSCRIPTLET)
}

fn flag_bits(on: bool, bits: u32) -> (r: u32)
    ensures
        r == flag_if(on, bits),
{
    if on {
        bits
    } else {
        0
    }
}

/// The transaction flags of `-S`.
pub fn build_flags(args: &Args) -> (r: u32)
    ensures
        r == sync_flags(*args),
{
    flag_bits(args.downloadonly, TRANS_DOWNLOADONLY) | flag_bits(args.needed, TRANS_NEEDED) | flag_bits(
        args.asdeps,
        TRANS_ALLDEPS,
    ) | flag_bits(args.asexplicit, TRANS_ALLEXPLICIT) | flag_bits(args.noscriptlet, TRANS_NOSCRIPTLET)
}

/// A target split at its first `/` into repository and name.
pub open spec fn repo_split(t: Seq<char>) -> (Option<Seq<char>>, Seq<char>) {
    let j = next_char(t, '/', 0);
    if j < t.len() {
        (Some(t.take(j)), t.skip(j + 1))
    } else {
        (None, t)
    }
}

/// Split `repo/name` into its repository (if given) and name.
pub fn split_repo_target<'a>(target: &'a str) -> (r: (Option<&'a str>, &'a str))
    ensures
        opt_str(r.0) == repo_split(target@).0,
        r.1@ == repo_split(target@).1,
{
    let v = chars_of(target);
    let j = find_char(&v, '/', 0);
    proof {
        lemma_next_char(v@, '/', 0);
    }
    if j < v.len() {
        let repo = target.substring_char(0, j);
        let name = target.substring_char(j + 1, v.len());
        proof {
            assert(target@.subrange(0, j as int) =~= target@.take(j as int));
            assert(target@.subrange(j + 1, target@.len() as int) =~= target@.skip(j + 1));
        }
        (Some(repo), name)
    } else {
        (None, target)
    }
}

/// The non-empty trimmed comma-separated names of `entries`, in order
/// (`--ignore a,b --ignore c`).
pub open spec fn comma_names(entries: Seq<Seq<char>>) -> Seq<Seq<char>>
    decreases entries.len(),
{
    if entries.len() == 0 {
        seq![]
    } else {
        comma_names(entries.drop_last()) + nonempty_trimmed(
            pieces(entries.last(), split_spans(entries.last(), ',', 0)),
        )
    }
}

/// The trimmed pieces that are not empty.
pub open spec fn nonempty_trimmed(ps: Seq<Seq<char>>) -> Seq<Seq<char>>
    decreases ps.len(),
{
    if ps.len() == 0 {
        seq![]
    } else if trim(ps.last()).len() > 0 {
        nonempty_trimmed(ps.drop_last()).push(trim(ps.last()))
    } else {
        nonempty_trimmed(ps.drop_last())
    }
}

/// The names an `--ignore`/`--ignoregroup` list stands for.
pub fn ignore_names(entries: &Vec<String>) -> (r: Vec<String>)
    ensures
        strings_view(r@) == comma_names(strings_view(entries@)),
{
    let ghost ev = strings_view(entries@);
    let mut out: Vec<String> = Vec::new();
    let mut i: usize = 0;
    while i < entries.len()
        invariant
            0 <= i <= entries@.len(),
            ev == strings_view(entries@),
            strings_view(out@) == comma_names(ev.take(i as int)),
        decreases entries@.len() - i,
    {
        proof {
            assert(ev.take(i + 1).drop_last() =~= ev.take(i as int));
            assert(ev.take(i + 1).last() == entries@[i as int]@);
        }
        let v = chars_of(entries[i].as_str());
        let spans = split_char(&v, ',', 0);
        let ghost ps = pieces(v@, spans_view(spans@));
        let ghost start = strings_view(out@);
        let mut k: usize = 0;
        while k < spans.len()
            invariant
                0 <= k <= spans@.len(),
                ps == pieces(v@, spans_view(spans@)),
                ps.len() == spans@.len(),
                forall|q: int| 0 <= q < spans@.len() ==> #[trigger] spans@[q].0 <= spans@[q].1 <= v@.len(),
                strings_view(out@) == start + nonempty_trimmed(ps.take(k as int)),
            decreases spans@.len() - k,
        {
            let (a, b) = spans[k];
            let (c, d) = trim_range(&v, a, b);
            proof {
                assert(ps[k as int] == v@.subrange(a as int, b as int));
                assert(ps.take(k + 1).drop_last() =~= ps.take(k as int));
                assert(ps.take(k + 1).last() == ps[k as int]);
            }
            if d > c {
                let ghost before = out@;
                out.push(string_of_range(&v, c, d));
                proof {
                    assert(strings_view(out@) =~= strings_view(before).push(
                        v@.subrange(c as int, d as int),
                    ));
                }
            }
            k = k + 1;
        }
        proof {
            assert(ps.take(spans@.len() as int) =~= ps);
        }
        i = i + 1;
    }
    proof {
        assert(ev.take(entries@.len() as int) =~= ev);
    }
    out
}

/// Whether `s` contains `p`.
pub open spec fn contains_sub(s: Seq<char>, p: Seq<char>) -> bool {
    next_sub(s, p, 0) < s.len()
}

/// A cache file that holds a package archive: `.pkg.tar` or `.pkg.tar.*`,
/// but not a partial download (`.part`) or a signature (`.sig`).
pub open spec fn cache_artifact(name: Seq<char>) -> bool {
    !ends_with(name, ".part"@) && !ends_with(name, ".sig"@) && (contains_sub(name, ".pkg.tar."@)
        || ends_with(name, ".pkg.tar"@))
}

pub fn is_cache_artifact(name: &str) -> (r: bool)
    ensures
        r == cache_artifact(name@),
{
    proof {
        reveal_strlit(".pkg.tar.");
    }
    let v = chars_of(name);
    proof {
        assert(v@.subrange(0, v@.len() as int) =~= v@);
    }
    if range_ends_with(&v, 0, v.len(), &chars_of(".part")) || range_ends_with(
        &v,
        0,
        v.len(),
        &chars_of(".sig"),
    ) {
        return false;
    }
    let p = chars_of(".pkg.tar.");
    let at = find_sub(&v, &p, 0);
    at < v.len() || range_ends_with(&v, 0, v.len(), &chars_of(".pkg.tar"))
}

/// The package archive suffixes pacman produces, longest first where one
/// extends another.
pub open spec fn archive_stem(name: Seq<char>) -> Option<Seq<char>> {
    let sfx = seq![
        ".pkg.tar.zst"@,
        ".pkg.tar.xz"@,
        ".pkg.tar.gz"@,
        ".pkg.tar.bz2"@,
        ".pkg.tar.lz4"@,
        ".pkg.tar.lzo"@,
        ".pkg.tar.lzma"@,
        ".pkg.tar.Z"@,
        ".pkg.tar"@,
    ];
    first_stem(name, sfx)
}

/// `name` without the first of `sfx` it ends with.
pub open spec fn first_stem(name: Seq<char>, sfx: Seq<Seq<char>>) -> Option<Seq<char>>
    decreases sfx.len(),
{
    if sfx.len() == 0 {
        None
    } else if ends_with(name, sfx[0]) {
        Some(name.take(name.len() - sfx[0].len()))
    } else {
        first_stem(name, sfx.drop_first())
    }
}

/// Index of the last `c` in `s` before `i`, or -1.
pub open spec fn prev_char(s: Seq<char>, c: char, i: int) -> int
    decreases i,
{
    if i <= 0 || i > s.len() {
        -1
    } else if s[i - 1] == c {
        i - 1
    } else {
        prev_char(s, c, i - 1)
    }
}

pub(crate) proof fn lemma_prev_char(s: Seq<char>, c: char, i: int)
    requires
        0 <= i <= s.len(),
    ensures
        -1 <= prev_char(s, c, i) < i,
        prev_char(s, c, i) >= 0 ==> s[prev_char(s, c, i)] == c,
    decreases i,
{
    if i > 0 && s[i - 1] != c {
        lemma_prev_char(s, c, i - 1);
    }
}

/// `(name, version)` of a package archive file name
/// `name-pkgver-pkgrel-arch.pkg.tar[.ext]`: the version is `pkgver-pkgrel`.
pub open spec fn pkg_file_parts(name: Seq<char>) -> Option<(Seq<char>, Seq<char>)> {
    match archive_stem(name) {
        None => None,
        Some(stem) => {
            let d1 = prev_char(stem, '-', stem.len() as int);
            let d2 = prev_char(stem, '-', d1);
            let d3 = prev_char(stem, '-', d2);
            if d1 < 0 || d2 < 0 || d3 < 0 {
                None
            } else {
                Some((stem.take(d3), stem.subrange(d3 + 1, d2) + "-"@ + stem.subrange(d2 + 1, d1)))
            }
        },
    }
}

pub(crate) fn last_char_before(v: &Vec<char>, c: char, i: usize) -> (r: Option<usize>)
    requires
        i <= v@.len(),
    ensures
        match r {
            Some(j) => j as int == prev_char(v@, c, i as int),
            None => prev_char(v@, c, i as int) == -1,
        },
{
    let mut k = i;
    while k > 0
        invariant
            0 <= k <= i <= v@.len(),
            prev_char(v@, c, k as int) == prev_char(v@, c, i as int),
        decreases k,
    {
        if v[k - 1] == c {
            return Some(k - 1);
        }
        k = k - 1;
    }
    None
}

/// Where the archive suffix of `name` starts, if it has one.
fn archive_stem_end(v: &Vec<char>, name: &str) -> (r: Option<usize>)
    requires
        v@ == name@,
    ensures
        match archive_stem(name@) {
            Some(stem) => r matches Some(e) && e <= v@.len() && v@.take(e as int) == stem,
            None => r is None,
        },
{
    proof {
        reveal_strlit(".pkg.tar.zst");
        reveal_strlit(".pkg.tar.xz");
        reveal_strlit(".pkg.tar.gz");
        reveal_strlit(".pkg.tar.bz2");
        reveal_strlit(".pkg.tar.lz4");
        reveal_strlit(".pkg.tar.lzo");
        reveal_strlit(".pkg.tar.lzma");
        reveal_strlit(".pkg.tar.Z");
        reveal_strlit(".pkg.tar");
    }
    let sfx: [&str; 9] = [
        ".pkg.tar.zst",
        ".pkg.tar.xz",
        ".pkg.tar.gz",
        ".pkg.tar.bz2",
        ".pkg.tar.lz4",
        ".pkg.tar.lzo",
        ".pkg.tar.lzma",
        ".pkg.tar.Z",
        ".pkg.tar",
    ];
    let ghost sv = seq![
        ".pkg.tar.zst"@,
        ".pkg.tar.xz"@,
        ".pkg.tar.gz"@,
        ".pkg.tar.bz2"@,
        ".pkg.tar.lz4"@,
        ".pkg.tar.lzo"@,
        ".pkg.tar.lzma"@,
        ".pkg.tar.Z"@,
        ".pkg.tar"@,
    ];
    proof {
        assert(v@.subrange(0, v@.len() as int) =~= v@);
        assert(sv.skip(0) =~= sv);
        assert forall|k: int| 0 <= k < 9 implies #[trigger] sfx@[k]@ == sv[k] by {}
    }
    let mut k: usize = 0;
    while k < 9
        invariant
            0 <= k <= 9,
            v@ == name@,
            sfx@.len() == 9,
            sv.len() == 9,
            forall|q: int| 0 <= q < 9 ==> #[trigger] sfx@[q]@ == sv[q],
            first_stem(name@, sv.skip(k as int)) == archive_stem(name@),
        decreases 9 - k,
    {
        let sx = chars_of(sfx[k]);
        proof {
            assert(sv.skip(k as int)[0] == sv[k as int]);
            assert(sv.skip(k as int).drop_first() =~= sv.skip(k + 1));
            assert(v@.subrange(0, v@.len() as int) =~= v@);
        }
        if range_ends_with(v, 0, v.len(), &sx) {
            proof {
                assert(v@.take(v@.len() - sx@.len()) =~= name@.take(name@.len() - sv[k as int].len()));
            }
            return Some(v.len() - sx.len());
        }
        k = k + 1;
    }
    proof {
        assert(sv.skip(9) =~= seq![]);
    }
    None
}

/// Parse a cache file name into `(name, pkgver-pkgrel)`.
pub fn parse_pkg_filename(name: &str) -> (r: Option<(String, String)>)
    ensures
        match pkg_file_parts(name@) {
            Some((n, v)) => r matches Some(x) && x.0@ == n && x.1@ == v,
            None => r is None,
        },
{
    proof {
        reveal_strlit(".pkg.tar.zst");
        reveal_strlit(".pkg.tar.xz");
        reveal_strlit(".pkg.tar.gz");
        reveal_strlit(".pkg.tar.bz2");
        reveal_strlit(".pkg.tar.lz4");
        reveal_strlit(".pkg.tar.lzo");
        reveal_strlit(".pkg.tar.lzma");
        reveal_strlit(".pkg.tar.Z");
        reveal_strlit(".pkg.tar");
    }
    let v = chars_of(name);
    let stem_end = archive_stem_end(&v, name);
    let end = match stem_end {
        None => {
            return None;
        },
        Some(e) => e,
    };
    let stem_s = string_of_range(&v, 0, end);
    proof {
        assert(v@.subrange(0, end as int) =~= v@.take(end as int));
    }
    let stem = chars_of(stem_s.as_str());
    let d1 = match last_char_before(&stem, '-', stem.len()) {
        Some(d) => d,
        None => {
            return None;
        },
    };
    proof {
        lemma_prev_char(stem@, '-', stem@.len() as int);
    }
    let d2 = match last_char_before(&stem, '-', d1) {
        Some(d) => d,
        None => {
            return None;
        },
    };
    proof {
        lemma_prev_char(stem@, '-', d1 as int);
    }
    let d3 = match last_char_before(&stem, '-', d2) {
        Some(d) => d,
        None => {
            return None;
        },
    };
    proof {
        lemma_prev_char(stem@, '-', stem@.len() as int);
        lemma_prev_char(stem@, '-', d1 as int);
        lemma_prev_char(stem@, '-', d2 as int);
    }
    let pkgname = string_of_range(&stem, 0, d3);
    let mut version = string_of_range(&stem, d3 + 1, d2);
    version.push('-');
    push_range(&mut version, &stem, d2 + 1, d1);
    proof {
        reveal_strlit("-");
        assert(stem@.subrange(0, d3 as int) =~= stem@.take(d3 as int));
    }
    Some((pkgname, version))
}

/// The package archive suffixes a cache file name can end with.
pub open spec fn pkg_suffix(s: Seq<char>) -> bool {
    ||| s == ".pkg.tar.zst"@
    ||| s == ".pkg.tar.xz"@
    ||| s == ".pkg.tar.gz"@
    ||| s == ".pkg.tar.bz2"@
    ||| s == ".pkg.tar.lz4"@
    ||| s == ".pkg.tar.lzo"@
    ||| s == ".pkg.tar.lzma"@
    ||| s == ".pkg.tar.Z"@
    ||| s == ".pkg.tar"@
}

/// The archive file name `<name>-<pkgver>-<pkgrel>-<arch><suffix>`.
pub open spec fn archive_file_name(
    name: Seq<char>,
    pkgver: Seq<char>,
    pkgrel: Seq<char>,
    arch: Seq<char>,
    suffix: Seq<char>,
) -> Seq<char> {
    name + "-"@ + pkgver + "-"@ + pkgrel + "-"@ + arch + suffix
}

proof fn lemma_prev_char_last(s: Seq<char>, c: char, i: int)
    requires
        0 <= i <= s.len(),
    ensures
        forall|j: int| prev_char(s, c, i) < j < i ==> s[j] != c,
    decreases i,
{
    if i > 0 && s[i - 1] != c {
        lemma_prev_char_last(s, c, i - 1);
    }
}

proof fn lemma_first_stem(name: Seq<char>, sfx: Seq<Seq<char>>)
    ensures
        first_stem(name, sfx) matches Some(stem) ==> stem.len() <= name.len() && name == stem + name.skip(
            stem.len() as int,
        ) && sfx.contains(name.skip(stem.len() as int)),
    decreases sfx.len(),
{
    if sfx.len() > 0 {
        if ends_with(name, sfx[0]) {
            let stem = name.take(name.len() - sfx[0].len());
            assert(name =~= stem + name.skip(stem.len() as int));
            assert(name.skip(stem.len() as int) =~= sfx[0]);
            assert(sfx[0] == sfx[0]);
        } else {
            lemma_first_stem(name, sfx.drop_first());
            if let Some(stem) = first_stem(name, sfx) {
                let k = choose|k: int| 0 <= k < sfx.drop_first().len() && sfx.drop_first()[k] == name.skip(stem.len() as int);
                assert(sfx[k + 1] == sfx.drop_first()[k]);
            }
        }
    }
}

/// Round trip of cache file names: when a name parses as `(n, v)`, it is
/// `n-v-<arch><suffix>` for an architecture without `-` and a package
/// archive suffix, and `v` is `<pkgver>-<pkgrel>` with no `-` in either. So
/// the version is exactly the text between the name and the architecture,
/// epoch included, and the name is what comes before it.
pub proof fn law_pkg_filename_round_trip(file: Seq<char>)
    ensures
        pkg_file_parts(file) matches Some((n, v)) ==> exists|
            pkgver: Seq<char>,
            pkgrel: Seq<char>,
            arch: Seq<char>,
            suffix: Seq<char>,
        |
            #![trigger archive_file_name(n, pkgver, pkgrel, arch, suffix)]
            file == archive_file_name(n, pkgver, pkgrel, arch, suffix) && v == pkgver + "-"@ + pkgrel
                && !pkgver.contains('-') && !pkgrel.contains('-') && !arch.contains('-') && pkg_suffix(
                suffix,
            ),
{
    reveal_strlit("-");
    let sv = seq![
        ".pkg.tar.zst"@,
        ".pkg.tar.xz"@,
        ".pkg.tar.gz"@,
        ".pkg.tar.bz2"@,
        ".pkg.tar.lz4"@,
        ".pkg.tar.lzo"@,
        ".pkg.tar.lzma"@,
        ".pkg.tar.Z"@,
        ".pkg.tar"@,
    ];
    if let Some((n, v)) = pkg_file_parts(file) {
        let stem = archive_stem(file)->0;
        lemma_first_stem(file, sv);
        let suffix = file.skip(stem.len() as int);
        let k = choose|k: int| 0 <= k < sv.len() && sv[k] == suffix;
        assert(pkg_suffix(suffix)) by {
            assert(0 <= k < 9);
            if k == 0 {} else if k == 1 {} else if k == 2 {} else if k == 3 {} else if k == 4 {}
            else if k == 5 {} else if k == 6 {} else if k == 7 {} else {}
        }
        let d1 = prev_char(stem, '-', stem.len() as int);
        lemma_prev_char(stem, '-', stem.len() as int);
        lemma_prev_char_last(stem, '-', stem.len() as int);
        let d2 = prev_char(stem, '-', d1);
        lemma_prev_char(stem, '-', d1);
        lemma_prev_char_last(stem, '-', d1);
        let d3 = prev_char(stem, '-', d2);
        lemma_prev_char(stem, '-', d2);
        lemma_prev_char_last(stem, '-', d2);
        let pkgver = stem.subrange(d3 + 1, d2);
        let pkgrel = stem.subrange(d2 + 1, d1);
        let arch = stem.skip(d1 + 1);
        assert(stem =~= stem.take(d3) + "-"@ + pkgver + "-"@ + pkgrel + "-"@ + arch);
        assert(file =~= archive_file_name(n, pkgver, pkgrel, arch, suffix));
        assert(!pkgver.contains('-')) by {
            assert forall|j: int| 0 <= j < pkgver.len() implies pkgver[j] != '-' by {
                assert(pkgver[j] == stem[d3 + 1 + j]);
            }
        }
        assert(!pkgrel.contains('-')) by {
            assert forall|j: int| 0 <= j < pkgrel.len() implies pkgrel[j] != '-' by {
                assert(pkgrel[j] == stem[d2 + 1 + j]);
            }
        }
        assert(!arch.contains('-')) by {
            assert forall|j: int| 0 <= j < arch.len() implies arch[j] != '-' by {
                assert(arch[j] == stem[d1 + 1 + j]);
            }
        }
    }
}

proof fn lemma_prev_char_at(s: Seq<char>, c: char, i: int, j: int)
    requires
        0 <= j < i <= s.len(),
        s[j] == c,
        forall|k: int| j < k < i ==> s[k] != c,
    ensures
        prev_char(s, c, i) == j,
    decreases i,
{
    if i - 1 > j {
        lemma_prev_char_at(s, c, i - 1, j);
    }
}

/// `file` ends with `a`, which differs from `b` at the `t`-th character from
/// the end: it does not end with `b`.
proof fn lemma_not_ends_with(file: Seq<char>, a: Seq<char>, b: Seq<char>, t: int)
    requires
        ends_with(file, a),
        0 <= t < a.len(),
        0 <= t < b.len(),
        a[a.len() - 1 - t] != b[b.len() - 1 - t],
    ensures
        !ends_with(file, b),
{
    if ends_with(file, b) {
        assert(file.skip(file.len() - a.len())[a.len() - 1 - t] == file[file.len() - 1 - t]);
        assert(file.skip(file.len() - b.len())[b.len() - 1 - t] == file[file.len() - 1 - t]);
    }
}

/// A name ending in a package archive suffix has the rest as its stem.
proof fn lemma_archive_stem_of(stem: Seq<char>, sfx: Seq<char>)
    requires
        pkg_suffix(sfx),
    ensures
        archive_stem(stem + sfx) == Some(stem),
{
    reveal_strlit(".pkg.tar.zst");
    reveal_strlit(".pkg.tar.xz");
    reveal_strlit(".pkg.tar.gz");
    reveal_strlit(".pkg.tar.bz2");
    reveal_strlit(".pkg.tar.lz4");
    reveal_strlit(".pkg.tar.lzo");
    reveal_strlit(".pkg.tar.lzma");
    reveal_strlit(".pkg.tar.Z");
    reveal_strlit(".pkg.tar");
    let file = stem + sfx;
    let sv = seq![
        ".pkg.tar.zst"@,
        ".pkg.tar.xz"@,
        ".pkg.tar.gz"@,
        ".pkg.tar.bz2"@,
        ".pkg.tar.lz4"@,
        ".pkg.tar.lzo"@,
        ".pkg.tar.lzma"@,
        ".pkg.tar.Z"@,
        ".pkg.tar"@,
    ];
    assert(file.skip(file.len() - sfx.len()) =~= sfx);
    assert(file.take(file.len() - sfx.len()) =~= stem);
    assert(ends_with(file, sfx));
    // the suffixes before `sfx` in the list do not match
    assert forall|k: int| 0 <= k < 9 && sv[k] != sfx implies !ends_with(file, #[trigger] sv[k]) by {
        if sfx == ".pkg.tar.xz"@ && sv[k] == ".pkg.tar.gz"@ || sfx == ".pkg.tar.gz"@ && sv[k] == ".pkg.tar.xz"@ {
            lemma_not_ends_with(file, sfx, sv[k], 1);
        } else {
            lemma_not_ends_with(file, sfx, sv[k], 0);
        }
    }
    assert(sv.drop_first() =~= seq![
        ".pkg.tar.xz"@,
        ".pkg.tar.gz"@,
        ".pkg.tar.bz2"@,
        ".pkg.tar.lz4"@,
        ".pkg.tar.lzo"@,
        ".pkg.tar.lzma"@,
        ".pkg.tar.Z"@,
        ".pkg.tar"@,
    ]);
    lemma_first_stem_finds(file, sv, stem, sfx);
}

/// Scanning a suffix list that holds `sfx`, and no other suffix of `file`
/// before it, finds `sfx`.
proof fn lemma_first_stem_finds(file: Seq<char>, sv: Seq<Seq<char>>, stem: Seq<char>, sfx: Seq<char>)
    requires
        sv.contains(sfx),
        ends_with(file, sfx),
        file.take(file.len() - sfx.len()) == stem,
        forall|k: int| 0 <= k < sv.len() && sv[k] != sfx ==> !ends_with(file, #[trigger] sv[k]),
    ensures
        first_stem(file, sv) == Some(stem),
    decreases sv.len(),
{
    if sv[0] != sfx {
        assert(!ends_with(file, sv[0]));
        let k = choose|k: int| 0 <= k < sv.len() && sv[k] == sfx;
        assert(sv.drop_first()[k - 1] == sfx);
        assert forall|q: int| 0 <= q < sv.drop_first().len() && sv.drop_first()[q] != sfx implies !ends_with(
            file,
            #[trigger] sv.drop_first()[q],
        ) by {
            assert(sv.drop_first()[q] == sv[q + 1]);
        }
        lemma_first_stem_finds(file, sv.drop_first(), stem, sfx);
    }
}

/// Every archive file name parses: `<name>-<pkgver>-<pkgrel>-<arch><suffix>`,
/// with no `-` in the pkgver, pkgrel or architecture and a package archive
/// suffix, gives `(name, pkgver-pkgrel)`.
pub proof fn law_pkg_filename_parses(
    name: Seq<char>,
    pkgver: Seq<char>,
    pkgrel: Seq<char>,
    arch: Seq<char>,
    suffix: Seq<char>,
)
    requires
        !pkgver.contains('-'),
        !pkgrel.contains('-'),
        !arch.contains('-'),
        pkg_suffix(suffix),
    ensures
        pkg_file_parts(archive_file_name(name, pkgver, pkgrel, arch, suffix)) == Some(
            (name, pkgver + "-"@ + pkgrel),
        ),
{
    reveal_strlit("-");
    let stem = name + "-"@ + pkgver + "-"@ + pkgrel + "-"@ + arch;
    assert(archive_file_name(name, pkgver, pkgrel, arch, suffix) =~= stem + suffix);
    lemma_archive_stem_of(stem, suffix);
    let a = name.len() as int;
    let b = a + 1 + pkgver.len();
    let c = b + 1 + pkgrel.len();
    assert(stem[a] == '-');
    assert(stem[b] == '-');
    assert(stem[c] == '-');
    assert forall|k: int| c < k < stem.len() implies stem[k] != '-' by {
        assert(stem[k] == arch[k - c - 1]);
        if stem[k] == '-' {
            assert(arch.contains('-'));
        }
    }
    lemma_prev_char_at(stem, '-', stem.len() as int, c);
    assert forall|k: int| b < k < c implies stem[k] != '-' by {
        assert(stem[k] == pkgrel[k - b - 1]);
        if stem[k] == '-' {
            assert(pkgrel.contains('-'));
        }
    }
    lemma_prev_char_at(stem, '-', c, b);
    assert forall|k: int| a < k < b implies stem[k] != '-' by {
        assert(stem[k] == pkgver[k - a - 1]);
        if stem[k] == '-' {
            assert(pkgver.contains('-'));
        }
    }
    lemma_prev_char_at(stem, '-', b, a);
    assert(stem.take(a) =~= name);
    assert(stem.subrange(a + 1, b) =~= pkgver);
    assert(stem.subrange(b + 1, c) =~= pkgrel);
}

/// Whether `-Sc`/`-Scc` removes a cache file: never one that is not a
/// package archive; with `-cc` every archive; else only archives whose
/// `(name, version)` is not installed.
pub open spec fn removes(name: Seq<char>, all: bool, installed: Seq<(Seq<char>, Seq<char>)>) -> bool {
    cache_artifact(name) && (all || match pkg_file_parts(name) {
        Some(nv) => !installed.contains(nv),
        None => false,
    })
}

/// The view of `(name, version)` pairs.
pub open spec fn pairs_of(v: Seq<(String, String)>) -> Seq<(Seq<char>, Seq<char>)> {
    v.map_values(|p: (String, String)| (p.0@, p.1@))
}

/// Decide one cache file for `-Sc` (`all == false`) or `-Scc`.
pub fn should_remove(name: &str, all: bool, installed: &Vec<(String, String)>) -> (r: bool)
    ensures
        r == removes(name@, all, pairs_of(installed@)),
{
    let ghost iv = pairs_of(installed@);
    if !is_cache_artifact(name) {
        return false;
    }
    if all {
        return true;
    }
    match parse_pkg_filename(name) {
        None => false,
        Some((n, v)) => {
            let mut i: usize = 0;
            while i < installed.len()
                invariant
                    0 <= i <= installed@.len(),
                    iv == pairs_of(installed@),
                    cache_artifact(name@),
                    !all,
                    pkg_file_parts(name@) == Some((n@, v@)),
                    forall|q: int| 0 <= q < i ==> #[trigger] iv[q] != (n@, v@),
                decreases installed@.len() - i,
            {
                if str_eq(installed[i].0.as_str(), n.as_str()) && str_eq(
                    installed[i].1.as_str(),
                    v.as_str(),
                ) {
                    proof {
                        assert(iv[i as int] == (n@, v@));
                        assert(iv.contains((n@, v@)));
                    }
                    return false;
                }
                proof {
                    assert(iv[i as int] == (installed@[i as int].0@, installed@[i as int].1@));
                }
                i = i + 1;
            }
            true
        },
    }
}

/// The `-Sc`/`-Scc` confirmation prompt.
pub fn clean_prompt(all: bool) -> (r: &'static str)
    ensures
        r@ == if all {
            "Do you want to remove ALL files from cache? [Y/n] "@
        } else {
            "Do you want to remove all other packages from cache? [Y/n] "@
        },
{
    if all {
        "Do you want to remove ALL files from cache? [Y/n] "
    } else {
        "Do you want to remove all other packages from cache? [Y/n] "
    }
}

/// `s` without its trailing `c`s.
pub open spec fn trim_trailing(s: Seq<char>, c: char) -> Seq<char>
    decreases s.len(),
{
    if s.len() > 0 && s.last() == c {
        trim_trailing(s.drop_last(), c)
    } else {
        s
    }
}

/// The `-Sp` line of a package without `--print-format`: its download URL
/// from the first server of its database, else `repo/filename`, else
/// `repo/name version` (`repo` is `local` for a package of no database).
pub open spec fn print_target_text(repo: Option<Seq<char>>, filename: Seq<char>, server: Option<Seq<char>>, name: Seq<char>, version: Seq<char>) -> Seq<char> {
    let r = match repo {
        Some(x) => x,
        None => "local"@,
    };
    match server {
        Some(s) => if filename.len() == 0 {
            r + "/"@ + name + "-"@ + version
        } else {
            trim_trailing(s, '/') + "/"@ + filename
        },
        None => if filename.len() > 0 {
            r + "/"@ + filename
        } else {
            r + "/"@ + name + " "@ + version
        },
    }
}

/// The `-Sp` line of a package; `filename` is empty when the package has
/// none, `server` is the first server of its database.
pub fn print_target(repo: Option<&str>, filename: &str, server: Option<&str>, name: &str, version: &str) -> (r: String)
    ensures
        r@ == print_target_text(opt_str(repo), filename@, opt_str(server), name@, version@),
{
    let mut out = match repo {
        Some(x) => to_owned(x),
        None => to_owned("local"),
    };
    let fname = chars_of(filename);
    match server {
        Some(s) => {
            if fname.len() == 0 {
                push_str(&mut out, "/");
                push_str(&mut out, name);
                push_str(&mut out, "-");
                push_str(&mut out, version);
            } else {
                let v = chars_of(s);
                let mut n = v.len();
                proof {
                    assert(v@.take(n as int) =~= v@);
                }
                while n > 0 && v[n - 1] == '/'
                    invariant
                        n <= v@.len(),
                        trim_trailing(v@.take(n as int), '/') == trim_trailing(s@, '/'),
                    decreases n,
                {
                    proof {
                        assert(v@.take(n as int).drop_last() =~= v@.take(n - 1));
                    }
                    n = n - 1;
                }
                let mut t = String::new();
                crate::text::push_range(&mut t, &v, 0, n);
                proof {
                    assert(v@.subrange(0, n as int) =~= v@.take(n as int));
                    assert(trim_trailing(v@.take(n as int), '/') == v@.take(n as int));
                }
                push_str(&mut t, "/");
                push_str(&mut t, filename);
                out = t;
            }
        },
        None => {
            push_str(&mut out, "/");
            if fname.len() > 0 {
                push_str(&mut out, filename);
            } else {
                push_str(&mut out, name);
                push_str(&mut out, " ");
                push_str(&mut out, version);
            }
        },
    }
    proof {
        let r = match opt_str(repo) {
            Some(x) => x,
            None => "local"@,
        };
        assert(fname@.len() == filename@.len());
        if opt_str(server) is None || filename@.len() == 0 {
            assert(out@ =~= print_target_text(opt_str(repo), filename@, opt_str(server), name@, version@));
        }
    }
    out
}

/// The kind and prompt of an `-S` transaction's confirmation.
pub fn install_prompt(downloadonly: bool) -> (r: (crate::report::TransactionKind, &'static str))
    ensures
        downloadonly ==> r.0 == crate::report::TransactionKind::DownloadOnly && r.1@ == "Proceed with download? [Y/n] "@,
        !downloadonly ==> r.0 == crate::report::TransactionKind::Install && r.1@ == "Proceed with installation? [Y/n] "@,
{
    if downloadonly {
        (crate::report::TransactionKind::DownloadOnly, "Proceed with download? [Y/n] ")
    } else {
        (crate::report::TransactionKind::Install, "Proceed with installation? [Y/n] ")
    }
}

} // verus!
