//! The image db's package entries: the `%KEY%` block format of `desc`
//! files, `files` entries, full package records, and the provision tokens and
//! package lists built from a scan. Reading the directory tree happens
//! outside; these functions take the file texts in traversal order.
use crate::common::fmt::strings_view;
use crate::text::{
    chars_of, ends_with, lines_of, pieces, range_ends_with, range_starts_with, spans_view,
    starts_with, str_eq, string_of_range, to_owned, trim, trim_end, trim_range, line_spans,
};
use vstd::prelude::*;

verus! {

/// The lines of `s` (`str::lines`).
pub open spec fn text_lines(s: Seq<char>) -> Seq<Seq<char>> {
    pieces(s, line_spans(s, 0))
}

/// A trimmed line that opens a block: `%KEY%`.
pub open spec fn is_key(t: Seq<char>) -> bool {
    t.len() >= 2 && t[0] == '%' && t.last() == '%'
}

/// The key name of a `%KEY%` line.
pub open spec fn key_name(t: Seq<char>) -> Seq<char> {
    t.subrange(1, t.len() - 1)
}

/// Index of the first blank (whitespace-only) line at or after `i`, or the
/// number of lines.
pub open spec fn next_blank(ls: Seq<Seq<char>>, i: int) -> int
    decreases ls.len() - i,
{
    if i < 0 || i >= ls.len() {
        ls.len() as int
    } else if trim(ls[i]).len() == 0 {
        i
    } else {
        next_blank(ls, i + 1)
    }
}

/// The trimmed lines `ls[a..b]`.
pub open spec fn trimmed(ls: Seq<Seq<char>>, a: int, b: int) -> Seq<Seq<char>> {
    ls.subrange(a, b).map_values(|l: Seq<char>| trim(l))
}

/// The `(key, values)` blocks of the lines from `i` on: a `%KEY%` line (after
/// trimming) opens a block whose values are the following lines, trimmed, up
/// to the first blank line, which is consumed; other lines are skipped.
pub open spec fn blocks_from(ls: Seq<Seq<char>>, i: int) -> Seq<(Seq<char>, Seq<Seq<char>>)>
    decreases ls.len() + 1 - i,
{
    if i < 0 || i >= ls.len() {
        seq![]
    } else {
        let t = trim(ls[i]);
        if !is_key(t) {
            blocks_from(ls, i + 1)
        } else {
            let e = next_blank(ls, i + 1);
            if e < i + 1 || e > ls.len() {
                seq![]
            } else {
                seq![(key_name(t), trimmed(ls, i + 1, e))] + blocks_from(ls, e + 1)
            }
        }
    }
}

/// The blocks of a `desc` text.
pub open spec fn desc_blocks(text: Seq<char>) -> Seq<(Seq<char>, Seq<Seq<char>>)> {
    blocks_from(text_lines(text), 0)
}

/// The values of the last block named `key`, if any (a later block replaces
/// an earlier one of the same name).
pub open spec fn block_values(bs: Seq<(Seq<char>, Seq<Seq<char>>)>, key: Seq<char>) -> Option<
    Seq<Seq<char>>,
>
    decreases bs.len(),
{
    if bs.len() == 0 {
        None
    } else if bs.last().0 == key {
        Some(bs.last().1)
    } else {
        block_values(bs.drop_last(), key)
    }
}

pub proof fn lemma_next_blank(ls: Seq<Seq<char>>, i: int)
    requires
        0 <= i <= ls.len(),
    ensures
        i <= next_blank(ls, i) <= ls.len(),
        forall|j: int| i <= j < next_blank(ls, i) ==> trim(#[trigger] ls[j]).len() > 0,
        next_blank(ls, i) < ls.len() ==> trim(ls[next_blank(ls, i)]).len() == 0,
    decreases ls.len() - i,
{
    if i < ls.len() && trim(ls[i]).len() > 0 {
        lemma_next_blank(ls, i + 1);
    }
}

/// The blocks of a `desc` text, in order.
pub struct DescFields {
    pub entries: Vec<(String, Vec<String>)>,
}

/// The view of parsed blocks.
pub open spec fn entries_view(es: Seq<(String, Vec<String>)>) -> Seq<(Seq<char>, Seq<Seq<char>>)> {
    es.map_values(|e: (String, Vec<String>)| (e.0@, strings_view(e.1@)))
}

/// The trimmed text of each line `a..b` of `v`, given as spans.
fn trimmed_lines(v: &Vec<char>, spans: &Vec<(usize, usize)>, a: usize, b: usize) -> (r: Vec<String>)
    requires
        a <= b <= spans@.len(),
        forall|k: int| 0 <= k < spans@.len() ==> #[trigger] spans@[k].0 <= spans@[k].1 <= v@.len(),
    ensures
        strings_view(r@) == trimmed(pieces(v@, spans_view(spans@)), a as int, b as int),
{
    let ghost ls = pieces(v@, spans_view(spans@));
    let mut out: Vec<String> = Vec::new();
    let mut k = a;
    while k < b
        invariant
            a <= k <= b <= spans@.len(),
            ls == pieces(v@, spans_view(spans@)),
            forall|q: int| 0 <= q < spans@.len() ==> #[trigger] spans@[q].0 <= spans@[q].1 <= v@.len(),
            strings_view(out@) == trimmed(ls, a as int, k as int),
        decreases b - k,
    {
        let (c, d) = spans[k];
        let (e, f) = trim_range(v, c, d);
        let ghost before = out@;
        out.push(string_of_range(v, e, f));
        proof {
            assert(ls[k as int] == v@.subrange(c as int, d as int));
            assert(strings_view(out@) =~= strings_view(before).push(trim(ls[k as int])));
            assert(trimmed(ls, a as int, k + 1) =~= trimmed(ls, a as int, k as int).push(
                trim(ls[k as int]),
            ));
        }
        k = k + 1;
    }
    out
}

/// Index of the first blank line at or after `from` (or the line count).
fn block_end(v: &Vec<char>, spans: &Vec<(usize, usize)>, from: usize) -> (r: usize)
    requires
        from <= spans@.len(),
        forall|k: int| 0 <= k < spans@.len() ==> #[trigger] spans@[k].0 <= spans@[k].1 <= v@.len(),
    ensures
        r == next_blank(pieces(v@, spans_view(spans@)), from as int),
{
    let ghost ls = pieces(v@, spans_view(spans@));
    let mut j = from;
    while j < spans.len()
        invariant
            from <= j <= spans@.len(),
            ls == pieces(v@, spans_view(spans@)),
            ls.len() == spans@.len(),
            forall|k: int| 0 <= k < spans@.len() ==> #[trigger] spans@[k].0 <= spans@[k].1 <= v@.len(),
            next_blank(ls, j as int) == next_blank(ls, from as int),
        decreases spans@.len() - j,
    {
        let (a, b) = spans[j];
        let (c, d) = trim_range(v, a, b);
        proof {
            assert(ls[j as int] == v@.subrange(a as int, b as int));
        }
        if d == c {
            return j;
        }
        j = j + 1;
    }
    j
}

/// Parse the `%KEY%` block format into its blocks, keys without the `%`s.
pub fn parse_desc_fields(text: &str) -> (r: DescFields)
    ensures
        entries_view(r.entries@) == desc_blocks(text@),
{
    let v = chars_of(text);
    let spans = lines_of(&v);
    let ghost ls = pieces(v@, spans_view(spans@));
    let n = spans.len();
    let mut out: Vec<(String, Vec<String>)> = Vec::new();
    let mut i: usize = 0;
    proof {
        assert(ls.len() == n);
    }
    while i < n
        invariant
            0 <= i <= n,
            n == spans@.len() == ls.len(),
            v@ == text@,
            ls == pieces(v@, spans_view(spans@)),
            ls == text_lines(text@),
            forall|k: int| 0 <= k < spans@.len() ==> #[trigger] spans@[k].0 <= spans@[k].1 <= v@.len(),
            entries_view(out@) + blocks_from(ls, i as int) == blocks_from(ls, 0),
        decreases n + 1 - i,
    {
        let (a, b) = spans[i];
        let (c, d) = trim_range(&v, a, b);
        proof {
            assert(ls[i as int] == v@.subrange(a as int, b as int));
            assert(trim(ls[i as int]) == v@.subrange(c as int, d as int));
        }
        let key = d - c >= 2 && v[c] == '%' && v[d - 1] == '%';
        proof {
            let t = trim(ls[i as int]);
            if t.len() >= 2 {
                assert(t[0] == v@[c as int]);
                assert(t.last() == v@[d - 1]);
            }
            assert(key == is_key(t));
        }
        if !key {
            i = i + 1;
        } else {
            let name = string_of_range(&v, c + 1, d - 1);
            let j = block_end(&v, &spans, i + 1);
            proof {
                lemma_next_blank(ls, i + 1);
            }

            let values = trimmed_lines(&v, &spans, i + 1, j);
            let ghost before = out@;
            out.push((name, values));
            proof {
                let t = trim(ls[i as int]);
                assert(name@ == key_name(t)) by {
                    assert(v@.subrange(c + 1, d - 1) =~= t.subrange(1, t.len() - 1));
                }
                assert(entries_view(out@) =~= entries_view(before).push(
                    (key_name(t), trimmed(ls, i + 1, j as int)),
                ));
                assert(blocks_from(ls, i as int) == seq![(key_name(t), trimmed(ls, i + 1, j as int))]
                    + blocks_from(ls, j + 1));
                assert(entries_view(out@) + blocks_from(ls, j + 1) =~= entries_view(before)
                    + blocks_from(ls, i as int));
            }
            i = if j < n {
                j + 1
            } else {
                n
            };
            proof {
                assert(blocks_from(ls, n as int) =~= seq![]);
            }
        }
    }
    proof {
        assert(blocks_from(ls, i as int) =~= seq![]);
        assert(entries_view(out@) =~= entries_view(out@) + blocks_from(ls, i as int));
    }
    DescFields { entries: out }
}

impl DescFields {
    /// The values of the last block named `key`.
    pub fn get(&self, key: &str) -> (r: Option<&Vec<String>>)
        ensures
            match block_values(entries_view(self.entries@), key@) {
                Some(vs) => r matches Some(x) && strings_view(x@) == vs,
                None => r is None,
            },
    {
        let ghost ev = entries_view(self.entries@);
        let mut i = self.entries.len();
        proof {
            assert(ev.take(i as int) =~= ev);
        }
        while i > 0
            invariant
                0 <= i <= self.entries@.len(),
                ev == entries_view(self.entries@),
                block_values(ev.take(i as int), key@) == block_values(ev, key@),
            decreases i,
        {
            proof {
                assert(ev.take(i as int).drop_last() =~= ev.take(i - 1));
                assert(ev.take(i as int).last() == ev[i - 1]);
            }
            if str_eq(self.entries[i - 1].0.as_str(), key) {
                return Some(&self.entries[i - 1].1);
            }
            i = i - 1;
        }
        proof {
            assert(ev.take(0) =~= seq![]);
        }
        None
    }

    /// The first value of the last block named `key`.
    pub fn one(&self, key: &str) -> (r: Option<String>)
        ensures
            opt_view(r) == first_value(entries_view(self.entries@), key@),
    {
        match self.get(key) {
            Some(vs) => {
                if vs.len() > 0 {
                    Some(vs[0].clone())
                } else {
                    None
                }
            },
            None => None,
        }
    }

    /// All values of the last block named `key` (empty when absent).
    pub fn many(&self, key: &str) -> (r: Vec<String>)
        ensures
            strings_view(r@) == all_values(entries_view(self.entries@), key@),
    {
        match self.get(key) {
            Some(vs) => {
                let mut out: Vec<String> = Vec::new();
                let mut i: usize = 0;
                while i < vs.len()
                    invariant
                        0 <= i <= vs@.len(),
                        strings_view(out@) == strings_view(vs@).take(i as int),
                    decreases vs@.len() - i,
                {
                    let ghost before = out@;
                    out.push(vs[i].clone());
                    proof {
                        assert(strings_view(out@) =~= strings_view(before).push(vs@[i as int]@));
                        assert(strings_view(vs@).take(i + 1) =~= strings_view(vs@).take(i as int).push(
                            vs@[i as int]@,
                        ));
                    }
                    i = i + 1;
                }
                proof {
                    assert(strings_view(vs@).take(vs@.len() as int) =~= strings_view(vs@));
                }
                out
            },
            None => Vec::new(),
        }
    }
}

/// The view of an optional string.
pub open spec fn opt_view(o: Option<String>) -> Option<Seq<char>> {
    match o {
        Some(s) => Some(s@),
        None => None,
    }
}

/// The first value of the last block named `key`.
pub open spec fn first_value(bs: Seq<(Seq<char>, Seq<Seq<char>>)>, key: Seq<char>) -> Option<
    Seq<char>,
> {
    match block_values(bs, key) {
        Some(vs) => if vs.len() > 0 {
            Some(vs[0])
        } else {
            None
        },
        None => None,
    }
}

/// All values of the last block named `key`, or none.
pub open spec fn all_values(bs: Seq<(Seq<char>, Seq<Seq<char>>)>, key: Seq<char>) -> Seq<Seq<char>> {
    match block_values(bs, key) {
        Some(vs) => vs,
        None => seq![],
    }
}

/// A `desc` entry's name, version and provides: the first value of the last
/// `%NAME%` and `%VERSION%` blocks (both required) and the values of the last
/// `%PROVIDES%` block.
pub open spec fn desc_summary(text: Seq<char>) -> Option<(Seq<char>, Seq<char>, Seq<Seq<char>>)> {
    let bs = desc_blocks(text);
    match (first_value(bs, "NAME"@), first_value(bs, "VERSION"@)) {
        (Some(n), Some(v)) => Some((n, v, all_values(bs, "PROVIDES"@))),
        _ => None,
    }
}

/// Parse a `desc` entry's name, version and provides; `None` when the name
/// or the version is missing.
pub fn parse_desc(text: &str) -> (r: Option<(String, String, Vec<String>)>)
    ensures
        match desc_summary(text@) {
            Some((n, v, p)) => r matches Some(x) && x.0@ == n && x.1@ == v && strings_view(x.2@) == p,
            None => r is None,
        },
{
    let fields = parse_desc_fields(text);
    let name = fields.one("NAME");
    let version = fields.one("VERSION");
    let provides = fields.many("PROVIDES");
    match (name, version) {
        (Some(n), Some(v)) => Some((n, v, provides)),
        _ => None,
    }
}

/// Which part of a `files` entry a line belongs to.
#[derive(PartialEq, Eq, Structural, Clone, Copy, Debug)]
pub enum FilesSection {
    Other,
    Files,
    Backup,
}

/// The state after reading lines of a `files` entry: the section, the owned
/// paths, and the backup `(path, md5)` entries so far.
pub open spec fn files_fold(ls: Seq<Seq<char>>) -> (FilesSection, Seq<Seq<char>>, Seq<(Seq<char>, Seq<char>)>)
    decreases ls.len(),
{
    if ls.len() == 0 {
        (FilesSection::Other, seq![], seq![])
    } else {
        let (sec, fs, bs) = files_fold(ls.drop_last());
        let t = trim_end(ls.last());
        if is_key(t) {
            let k = key_name(t);
            (if k == "FILES"@ {
                FilesSection::Files
            } else if k == "BACKUP"@ {
                FilesSection::Backup
            } else {
                FilesSection::Other
            }, fs, bs)
        } else if t.len() == 0 {
            (sec, fs, bs)
        } else if sec == FilesSection::Files {
            (sec, fs.push(t), bs)
        } else if sec == FilesSection::Backup {
            let j = crate::text::next_char(t, '\t', 0);
            if j < t.len() {
                (sec, fs, bs.push((t.take(j), t.skip(j + 1))))
            } else {
                (sec, fs, bs)
            }
        } else {
            (sec, fs, bs)
        }
    }
}

/// The view of backup entries.
pub open spec fn pairs_view(v: Seq<(String, String)>) -> Seq<(Seq<char>, Seq<char>)> {
    v.map_values(|p: (String, String)| (p.0@, p.1@))
}

/// Parse a `files` entry into its owned paths (`%FILES%`) and backup
/// `(path, md5)` entries (`%BACKUP%`, tab-separated); lines are read with
/// trailing whitespace removed and blank lines skipped.
pub fn parse_files(text: &str) -> (r: (Vec<String>, Vec<(String, String)>))
    ensures
        strings_view(r.0@) == files_fold(text_lines(text@)).1,
        pairs_view(r.1@) == files_fold(text_lines(text@)).2,
{
    let v = chars_of(text);
    let spans = lines_of(&v);
    let ghost ls = pieces(v@, spans_view(spans@));
    let mut files: Vec<String> = Vec::new();
    let mut backup: Vec<(String, String)> = Vec::new();
    let mut section = FilesSection::Other;
    let mut i: usize = 0;
    while i < spans.len()
        invariant
            0 <= i <= spans@.len(),
            ls == pieces(v@, spans_view(spans@)),
            ls == text_lines(text@),
            ls.len() == spans@.len(),
            forall|k: int| 0 <= k < spans@.len() ==> #[trigger] spans@[k].0 <= spans@[k].1 <= v@.len(),
            files_fold(ls.take(i as int)) == (section, strings_view(files@), pairs_view(backup@)),
        decreases spans@.len() - i,
    {
        let (a, b) = spans[i];
        let e = crate::text::trim_end_ws_range(&v, a, b);
        let ghost t = v@.subrange(a as int, e as int);
        proof {
            assert(ls[i as int] == v@.subrange(a as int, b as int));
            assert(ls.take(i + 1).drop_last() =~= ls.take(i as int));
            assert(ls.take(i + 1).last() == ls[i as int]);
            assert(t == trim_end(ls[i as int]));
        }
        let key = e - a >= 2 && v[a] == '%' && v[e - 1] == '%';
        proof {
            if t.len() >= 2 {
                assert(t[0] == v@[a as int]);
                assert(t.last() == v@[e - 1]);
            }
            assert(key == is_key(t));
        }
        if key {
            let inner = string_of_range(&v, a + 1, e - 1);
            proof {
                assert(inner@ =~= key_name(t));
            }
            if str_eq(inner.as_str(), "FILES") {
                section = FilesSection::Files;
            } else if str_eq(inner.as_str(), "BACKUP") {
                section = FilesSection::Backup;
            } else {
                section = FilesSection::Other;
            }
        } else if e == a {
        } else if section == FilesSection::Files {
            let ghost before = files@;
            files.push(string_of_range(&v, a, e));
            proof {
                assert(strings_view(files@) =~= strings_view(before).push(t));
            }
        } else if section == FilesSection::Backup {
            let line = string_of_range(&v, a, e);
            let lv = chars_of(line.as_str());
            let j = crate::text::find_char(&lv, '\t', 0);
            proof {
                crate::text::lemma_next_char(lv@, '\t', 0);
            }
            if j < lv.len() {
                let ghost before = backup@;
                backup.push((string_of_range(&lv, 0, j), string_of_range(&lv, j + 1, lv.len())));
                proof {
                    assert(lv@.subrange(0, j as int) =~= t.take(j as int));
                    assert(lv@.subrange(j + 1, lv@.len() as int) =~= t.skip(j + 1));
                    assert(pairs_view(backup@) =~= pairs_view(before).push(
                        (t.take(j as int), t.skip(j + 1)),
                    ));
                }
            }
        }
        i = i + 1;
    }
    proof {
        assert(ls.take(spans@.len() as int) =~= ls);
    }
    (files, backup)
}

// ---------------------------------------------------------------------------
// Packages and scans
// ---------------------------------------------------------------------------

/// The metadata of one image-db package (`desc` plus its `files` entry).
pub struct ImagePackage {
    pub name: String,
    pub version: String,
    pub desc: Option<String>,
    pub url: Option<String>,
    pub arch: Option<String>,
    pub licenses: Vec<String>,
    pub groups: Vec<String>,
    pub provides: Vec<String>,
    pub depends: Vec<String>,
    pub optdepends: Vec<String>,
    pub conflicts: Vec<String>,
    pub replaces: Vec<String>,
    pub packager: Option<String>,
    pub build_date: Option<i64>,
    pub install_date: Option<i64>,
    /// False only for a package installed as a dependency (`%REASON%` 1).
    pub explicit: bool,
    pub isize: Option<i64>,
    /// Owned paths, relative to the root; directories end in `/`.
    pub files: Vec<String>,
    /// `(path, md5)` backup entries.
    pub backup: Vec<(String, String)>,
}

/// A numeric field: the first value of its last block, parsed as `i64`.
pub open spec fn int_field(bs: Seq<(Seq<char>, Seq<Seq<char>>)>, key: Seq<char>) -> Option<i64> {
    match first_value(bs, key) {
        Some(t) => crate::text::i64_text(t),
        None => None,
    }
}

/// Whether `desc` (and `files`, when the entry has one) yield a package, and
/// `p` is it: the name and a non-empty version are required.
pub open spec fn package_ok(desc: Seq<char>) -> bool {
    let bs = desc_blocks(desc);
    first_value(bs, "NAME"@) is Some && first_value(bs, "VERSION"@) is Some
        && first_value(bs, "VERSION"@)->0.len() > 0
}

/// `p` is the package described by `desc` and the `files` entry.
pub open spec fn describes(p: ImagePackage, desc: Seq<char>, files: Option<Seq<char>>) -> bool {
    let bs = desc_blocks(desc);
    let ff = match files {
        Some(f) => files_fold(text_lines(f)),
        None => (FilesSection::Other, seq![], seq![]),
    };
    &&& Some(p.name@) == first_value(bs, "NAME"@)
    &&& Some(p.version@) == first_value(bs, "VERSION"@)
    &&& opt_view(p.desc) == first_value(bs, "DESC"@)
    &&& opt_view(p.url) == first_value(bs, "URL"@)
    &&& opt_view(p.arch) == first_value(bs, "ARCH"@)
    &&& strings_view(p.licenses@) == all_values(bs, "LICENSE"@)
    &&& strings_view(p.groups@) == all_values(bs, "GROUPS"@)
    &&& strings_view(p.provides@) == all_values(bs, "PROVIDES"@)
    &&& strings_view(p.depends@) == all_values(bs, "DEPENDS"@)
    &&& strings_view(p.optdepends@) == all_values(bs, "OPTDEPENDS"@)
    &&& strings_view(p.conflicts@) == all_values(bs, "CONFLICTS"@)
    &&& strings_view(p.replaces@) == all_values(bs, "REPLACES"@)
    &&& opt_view(p.packager) == first_value(bs, "PACKAGER"@)
    &&& p.build_date == int_field(bs, "BUILDDATE"@)
    &&& p.install_date == int_field(bs, "INSTALLDATE"@)
    &&& p.explicit == (first_value(bs, "REASON"@) != Some("1"@))
    &&& p.isize == int_field(bs, "SIZE"@)
    &&& strings_view(p.files@) == ff.1
    &&& pairs_view(p.backup@) == ff.2
}

fn int_value(fields: &DescFields, key: &str) -> (r: Option<i64>)
    ensures
        r == int_field(entries_view(fields.entries@), key@),
{
    match fields.one(key) {
        Some(t) => crate::text::parse_i64(t.as_str()),
        None => None,
    }
}

/// Build a package from one db dir's `desc` text and its `files` text (none
/// when the package owns nothing); `None` when the name or a non-empty
/// version is missing.
pub fn read_package(desc: &str, files: Option<&str>) -> (r: Option<ImagePackage>)
    ensures
        r is Some <==> package_ok(desc@),
        r matches Some(p) ==> describes(p, desc@, crate::text::opt_str(files)),
{
    let fields = parse_desc_fields(desc);
    let name = match fields.one("NAME") {
        Some(n) => n,
        None => {
            return None;
        },
    };
    let version = match fields.one("VERSION") {
        Some(v) => v,
        None => {
            return None;
        },
    };
    if chars_of(version.as_str()).len() == 0 {
        return None;
    }
    let (files_list, backup) = match files {
        Some(t) => parse_files(t),
        None => (Vec::new(), Vec::new()),
    };
    let reason = fields.one("REASON");
    let explicit = match &reason {
        Some(r) => !str_eq(r.as_str(), "1"),
        None => true,
    };
    proof {
        reveal_strlit("1");
        if files is None {
            assert(strings_view(files_list@) =~= seq![]);
            assert(pairs_view(backup@) =~= seq![]);
        }
    }
    let p = ImagePackage {
        name,
        version,
        desc: fields.one("DESC"),
        url: fields.one("URL"),
        arch: fields.one("ARCH"),
        licenses: fields.many("LICENSE"),
        groups: fields.many("GROUPS"),
        provides: fields.many("PROVIDES"),
        depends: fields.many("DEPENDS"),
        optdepends: fields.many("OPTDEPENDS"),
        conflicts: fields.many("CONFLICTS"),
        replaces: fields.many("REPLACES"),
        packager: fields.one("PACKAGER"),
        build_date: int_value(&fields, "BUILDDATE"),
        install_date: int_value(&fields, "INSTALLDATE"),
        explicit,
        isize: int_value(&fields, "SIZE"),
        files: files_list,
        backup,
    };
    Some(p)
}

/// `out` with `t` added unless already present.
pub open spec fn push_new(out: Seq<Seq<char>>, t: Seq<char>) -> Seq<Seq<char>> {
    if out.contains(t) {
        out
    } else {
        out.push(t)
    }
}

/// `out` with every token of `ts` added in order, skipping those present.
pub open spec fn push_all_new(out: Seq<Seq<char>>, ts: Seq<Seq<char>>) -> Seq<Seq<char>>
    decreases ts.len(),
{
    if ts.len() == 0 {
        out
    } else {
        push_new(push_all_new(out, ts.drop_last()), ts.last())
    }
}

/// The provision tokens of one package: `name=version`, then its provides.
pub open spec fn package_tokens(n: Seq<char>, v: Seq<char>, p: Seq<Seq<char>>) -> Seq<Seq<char>> {
    seq![n + "="@ + v] + p
}

/// The provision tokens of the `desc` texts read in order, each kept once
/// (first occurrence); entries missing a name or version contribute nothing.
pub open spec fn provision_tokens(descs: Seq<Seq<char>>) -> Seq<Seq<char>>
    decreases descs.len(),
{
    if descs.len() == 0 {
        seq![]
    } else {
        let before = provision_tokens(descs.drop_last());
        match desc_summary(descs.last()) {
            Some((n, v, p)) => push_all_new(before, package_tokens(n, v, p)),
            None => before,
        }
    }
}

/// The result of scanning the image db for provisions.
pub struct ProvisionScan {
    /// The tokens, each once, in first-seen order.
    pub tokens: Vec<String>,
    /// Indices of the `desc` texts skipped for missing a name or version.
    pub malformed: Vec<usize>,
}

/// Whether `s` occurs in `v`.
fn contains_string(v: &Vec<String>, s: &str) -> (r: bool)
    ensures
        r == strings_view(v@).contains(s@),
{
    let mut i: usize = 0;
    while i < v.len()
        invariant
            0 <= i <= v@.len(),
            forall|k: int| 0 <= k < i ==> v@[k]@ != s@,
        decreases v@.len() - i,
    {
        if str_eq(v[i].as_str(), s) {
            proof {
                assert(strings_view(v@)[i as int] == s@);
            }
            return true;
        }
        i = i + 1;
    }
    proof {
        if strings_view(v@).contains(s@) {
            let k = choose|k: int| 0 <= k < strings_view(v@).len() && strings_view(v@)[k] == s@;
            assert(v@[k]@ == s@);
        }
    }
    false
}

/// Add `t` to `out` unless present.
fn add_new(out: &mut Vec<String>, t: String)
    ensures
        strings_view(final(out)@) == push_new(strings_view(old(out)@), t@),
{
    if !contains_string(out, t.as_str()) {
        let ghost before = out@;
        out.push(t);
        proof {
            assert(strings_view(out@) =~= strings_view(before).push(out@.last()@));
        }
    }
}

/// Provision strings for libalpm's assume-installed list from the image db's
/// `desc` texts, read in traversal order: each package gives `name=version`
/// and its provides, each token kept once.
pub fn provisions(descs: &Vec<String>) -> (r: ProvisionScan)
    ensures
        strings_view(r.tokens@) == provision_tokens(strings_view(descs@)),
        forall|k: int|
            0 <= k < r.malformed@.len() ==> #[trigger] r.malformed@[k] < descs@.len() && desc_summary(
                descs@[r.malformed@[k] as int]@,
            ) is None,
{
    let ghost dv = strings_view(descs@);
    let mut out: Vec<String> = Vec::new();
    let mut malformed: Vec<usize> = Vec::new();
    let mut i: usize = 0;
    while i < descs.len()
        invariant
            0 <= i <= descs@.len(),
            dv == strings_view(descs@),
            strings_view(out@) == provision_tokens(dv.take(i as int)),
            forall|k: int|
                0 <= k < malformed@.len() ==> #[trigger] malformed@[k] < descs@.len() && desc_summary(
                    descs@[malformed@[k] as int]@,
                ) is None,
        decreases descs@.len() - i,
    {
        proof {
            assert(dv.take(i + 1).drop_last() =~= dv.take(i as int));
            assert(dv.take(i + 1).last() == descs@[i as int]@);
        }
        match parse_desc(descs[i].as_str()) {
            None => {
                malformed.push(i);
            },
            Some((name, version, provides)) => {
                let ghost start = strings_view(out@);
                let ghost toks = package_tokens(name@, version@, strings_view(provides@));
                let mut tok = String::new();
                crate::text::push_str(&mut tok, name.as_str());
                crate::text::push_str(&mut tok, "=");
                crate::text::push_str(&mut tok, version.as_str());
                add_new(&mut out, tok);
                proof {
                    assert(toks.take(1) =~= seq![name@ + "="@ + version@]);
                    assert(toks.take(1).drop_last() =~= toks.take(0));
                    assert(toks.take(0) =~= seq![]);
                    assert(push_all_new(start, toks.take(0)) == start);
                    assert(push_all_new(start, toks.take(1)) == push_new(
                        push_all_new(start, toks.take(0)),
                        toks.take(1).last(),
                    ));
                    assert(toks.take(0) =~= seq![]);
                }
                let mut j: usize = 0;
                while j < provides.len()
                    invariant
                        0 <= j <= provides@.len(),
                        toks == package_tokens(name@, version@, strings_view(provides@)),
                        strings_view(out@) == push_all_new(start, toks.take(j + 1)),
                    decreases provides@.len() - j,
                {
                    proof {
                        assert(toks.take(j + 2).drop_last() =~= toks.take(j + 1));
                        assert(toks.take(j + 2).last() == provides@[j as int]@);
                    }
                    add_new(&mut out, provides[j].clone());
                    j = j + 1;
                }
                proof {
                    assert(toks.take(provides@.len() + 1int) =~= toks);
                }
            },
        }
        i = i + 1;
    }
    proof {
        assert(dv.take(descs@.len() as int) =~= dv);
    }
    ProvisionScan { tokens: out, malformed }
}

/// The names of the packages built from `entries` (desc text, files text),
/// read in order, keeping the first package of each name.
pub open spec fn package_names(entries: Seq<(Seq<char>, Option<Seq<char>>)>) -> Seq<Seq<char>>
    decreases entries.len(),
{
    if entries.len() == 0 {
        seq![]
    } else {
        let before = package_names(entries.drop_last());
        let e = entries.last();
        if package_ok(e.0) {
            push_new(before, first_value(desc_blocks(e.0), "NAME"@)->0)
        } else {
            before
        }
    }
}

/// The view of a package scan input.
pub open spec fn entries_in(v: Seq<(String, Option<String>)>) -> Seq<(Seq<char>, Option<Seq<char>>)> {
    v.map_values(|e: (String, Option<String>)| (e.0@, opt_view(e.1)))
}

/// `desc` makes a package named `name`.
pub open spec fn named(desc: Seq<char>, name: Seq<char>) -> bool {
    package_ok(desc) && first_value(desc_blocks(desc), "NAME"@) == Some(name)
}

/// `j` is the first entry that makes a package named `name`.
pub open spec fn first_named(ev: Seq<(Seq<char>, Option<Seq<char>>)>, j: int, name: Seq<char>) -> bool {
    &&& 0 <= j < ev.len()
    &&& named(ev[j].0, name)
    &&& forall|i: int| 0 <= i < j ==> !named(#[trigger] ev[i].0, name)
}

/// Every package of the image db, given each package dir's `desc` text and
/// `files` text in traversal order (groups sorted); the first package of a
/// name wins, entries without a name or version are skipped.
pub fn all_packages(entries: &Vec<(String, Option<String>)>) -> (r: Vec<ImagePackage>)
    ensures
        r@.len() == package_names(entries_in(entries@)).len(),
        forall|k: int|
            0 <= k < r@.len() ==> #[trigger] r@[k].name@ == package_names(entries_in(entries@))[k],
        forall|k: int|
            0 <= k < r@.len() ==> exists|j: int|
                first_named(entries_in(entries@), j, r@[k].name@) && describes(
                    #[trigger] r@[k],
                    entries@[j].0@,
                    opt_view(entries@[j].1),
                ),
{
    let ghost ev = entries_in(entries@);
    let mut out: Vec<ImagePackage> = Vec::new();
    let mut names: Vec<String> = Vec::new();
    let mut i: usize = 0;
    while i < entries.len()
        invariant
            0 <= i <= entries@.len(),
            ev == entries_in(entries@),
            strings_view(names@) == package_names(ev.take(i as int)),
            out@.len() == names@.len(),
            forall|k: int| 0 <= k < out@.len() ==> #[trigger] out@[k].name@ == names@[k]@,
            forall|k: int|
                0 <= k < out@.len() ==> exists|j: int|
                    first_named(ev, j, out@[k].name@) && describes(
                        #[trigger] out@[k],
                        entries@[j].0@,
                        opt_view(entries@[j].1),
                    ),
            forall|j: int, nm: Seq<char>|
                0 <= j < i && #[trigger] named(ev[j].0, nm) ==> strings_view(names@).contains(nm),
        decreases entries@.len() - i,
    {
        proof {
            assert(ev.take(i + 1).drop_last() =~= ev.take(i as int));
            assert(ev.take(i + 1).last() == (entries@[i as int].0@, opt_view(entries@[i as int].1)));
        }
        let files: Option<&str> = match &entries[i].1 {
            Some(f) => Some(f.as_str()),
            None => None,
        };
        proof {
            assert(crate::text::opt_str(files) == opt_view(entries@[i as int].1));
        }
        match read_package(entries[i].0.as_str(), files) {
            Some(p) => {
                if !contains_string(&names, p.name.as_str()) {
                    let ghost nb = names@;
                    let ghost ob = out@;
                    names.push(p.name.clone());
                    out.push(p);
                    proof {
                        assert(strings_view(names@) =~= strings_view(nb).push(names@.last()@));
                        assert(named(ev[i as int].0, p.name@));
                        assert forall|i2: int| 0 <= i2 < i implies !named(#[trigger] ev[i2].0, p.name@) by {
                            if named(ev[i2].0, p.name@) {
                                assert(strings_view(nb).contains(p.name@));
                            }
                        }
                        assert(first_named(ev, i as int, p.name@));
                        assert forall|k: int| 0 <= k < out@.len() implies exists|j: int|
                            first_named(ev, j, out@[k].name@) && describes(
                                #[trigger] out@[k],
                                entries@[j].0@,
                                opt_view(entries@[j].1),
                            ) by {
                            if k == out@.len() - 1 {
                                assert(describes(out@[k], entries@[i as int].0@, opt_view(entries@[i as int].1)));
                                assert(first_named(ev, i as int, out@[k].name@));
                            } else {
                                assert(out@[k] == ob[k]);
                            }
                        }
                        assert forall|j: int, nm: Seq<char>|
                            0 <= j < i + 1 && #[trigger] named(ev[j].0, nm) implies strings_view(names@).contains(nm) by {
                            if j < i {
                                assert(strings_view(nb).contains(nm));
                                let w = choose|x: int| 0 <= x < strings_view(nb).len() && strings_view(nb)[x] == nm;
                                assert(strings_view(names@)[w] == nm);
                            } else {
                                assert(strings_view(names@)[names@.len() - 1] == nm);
                            }
                        }
                    }
                }
            },
            None => {},
        }
        i = i + 1;
    }
    proof {
        assert(ev.take(entries@.len() as int) =~= ev);
    }
    out
}

/// The provision tokens never repeat.
pub proof fn provisions_are_distinct(descs: Seq<Seq<char>>)
    ensures
        provision_tokens(descs).no_duplicates(),
    decreases descs.len(),
{
    if descs.len() > 0 {
        provisions_are_distinct(descs.drop_last());
        match desc_summary(descs.last()) {
            Some((n, v, p)) => {
                lemma_push_all_new_distinct(
                    provision_tokens(descs.drop_last()),
                    package_tokens(n, v, p),
                );
            },
            None => {},
        }
    }
}

/// Adding tokens with [`push_all_new`] keeps a list free of repeats, and
/// every added token ends up in it.
pub proof fn lemma_push_all_new_distinct(out: Seq<Seq<char>>, ts: Seq<Seq<char>>)
    requires
        out.no_duplicates(),
    ensures
        push_all_new(out, ts).no_duplicates(),
        forall|k: int| 0 <= k < ts.len() ==> push_all_new(out, ts).contains(#[trigger] ts[k]),
        forall|k: int| 0 <= k < out.len() ==> push_all_new(out, ts).contains(#[trigger] out[k]),
    decreases ts.len(),
{
    if ts.len() > 0 {
        lemma_push_all_new_distinct(out, ts.drop_last());
        let b = push_all_new(out, ts.drop_last());
        if !b.contains(ts.last()) {
            assert forall|i: int, j: int| 0 <= i < j < b.push(ts.last()).len() implies b.push(
                ts.last(),
            )[i] != b.push(ts.last())[j] by {
                if j == b.len() {
                    assert(b.push(ts.last())[i] == b[i]);
                }
            }
        }
        assert forall|k: int| 0 <= k < ts.len() implies push_all_new(out, ts).contains(
            #[trigger] ts[k],
        ) by {
            if k < ts.len() - 1 {
                assert(ts.drop_last()[k] == ts[k]);
                assert(b.contains(ts[k]));
                let w = choose|w: int| 0 <= w < b.len() && b[w] == ts[k];
                assert(push_new(b, ts.last())[w] == ts[k]);
            } else {
                if !b.contains(ts.last()) {
                    assert(b.push(ts.last())[b.len() as int] == ts.last());
                }
            }
        }
        assert forall|k: int| 0 <= k < out.len() implies push_all_new(out, ts).contains(
            #[trigger] out[k],
        ) by {
            assert(b.contains(out[k]));
            let w = choose|w: int| 0 <= w < b.len() && b[w] == out[k];
            assert(push_new(b, ts.last())[w] == out[k]);
        }
    }
}

} // verus!
