//! `-Q` decisions that do not need libalpm: bare dependency names, the
//! "required by someone" test of `-Qt`, the `-Qi`/`-Qk`/`-Ql` output of a
//! baked-in image package, and which accumulated body a query shows.
use crate::common::fmt::{date_text, format_date, format_size, join, join_strings, size_text, strings_view, dec};
use crate::common::imagedb::{opt_view, pairs_view, ImagePackage};
use crate::images::format::{fields_are, is_label, label, text_or_none};
use crate::params::query::Params as Args;
use crate::report::{CheckResult, FileLine, InfoBlock, InfoField, PkgLine, QueryBody};
use crate::text::{
    chars_of, find_char, lemma_next_char, next_char, push_str, str_eq, string_of_range, to_owned,
    trim, trim_range, trim_c, trim_start_c, trim_end_c,
};
use vstd::prelude::*;

verus! {

/// A dependency token's bare name: the text before any `:` (an optdepend
/// description), then before any `<`, `>` or `=` (a version constraint),
/// trimmed.
pub open spec fn bare_name(token: Seq<char>) -> Seq<char> {
    let no_desc = token.take(next_char(token, ':', 0));
    trim(no_desc.take(first_constraint(no_desc, 0)))
}

/// Index of the first `<`, `>` or `=` at or after `i` (or the length).
pub open spec fn first_constraint(s: Seq<char>, i: int) -> int
    decreases s.len() - i,
{
    if i < 0 || i >= s.len() {
        s.len() as int
    } else if s[i] == '<' || s[i] == '>' || s[i] == '=' {
        i
    } else {
        first_constraint(s, i + 1)
    }
}

proof fn lemma_first_constraint(s: Seq<char>, i: int)
    requires
        0 <= i <= s.len(),
    ensures
        i <= first_constraint(s, i) <= s.len(),
    decreases s.len() - i,
{
    if i < s.len() && !(s[i] == '<' || s[i] == '>' || s[i] == '=') {
        lemma_first_constraint(s, i + 1);
    }
}

/// The package name a dependency or optdepend token refers to.
pub fn dep_bare_name(token: &str) -> (r: String)
    ensures
        r@ == bare_name(token@),
{
    let v = chars_of(token);
    let colon = find_char(&v, ':', 0);
    proof {
        lemma_next_char(v@, ':', 0);
    }
    let ghost no_desc = v@.take(colon as int);
    let mut k: usize = 0;
    while k < colon && !(v[k] == '<' || v[k] == '>' || v[k] == '=')
        invariant
            0 <= k <= colon <= v@.len(),
            no_desc == v@.take(colon as int),
            first_constraint(no_desc, k as int) == first_constraint(no_desc, 0),
        decreases colon - k,
    {
        proof {
            assert(no_desc[k as int] == v@[k as int]);
        }
        k = k + 1;
    }
    proof {
        if k < colon {
            assert(no_desc[k as int] == v@[k as int]);
        }
        assert(first_constraint(no_desc, k as int) == k);
        assert(no_desc.take(k as int) =~= v@.subrange(0, k as int));
    }
    let (a, b) = trim_range(&v, 0, k);
    string_of_range(&v, a, b)
}

/// Whether `x` is among the names in `set`.
pub fn set_contains(set: &Vec<String>, x: &str) -> (r: bool)
    ensures
        r == strings_view(set@).contains(x@),
{
    let mut i: usize = 0;
    while i < set.len()
        invariant
            0 <= i <= set@.len(),
            forall|k: int| 0 <= k < i ==> set@[k]@ != x@,
        decreases set@.len() - i,
    {
        if str_eq(set[i].as_str(), x) {
            proof {
                assert(strings_view(set@)[i as int] == x@);
            }
            return true;
        }
        i = i + 1;
    }
    proof {
        if strings_view(set@).contains(x@) {
            let k = choose|k: int| 0 <= k < strings_view(set@).len() && strings_view(set@)[k] == x@;
            assert(set@[k]@ == x@);
        }
    }
    false
}

/// Whether a package is required: its name, or the bare name of one of its
/// provisions, is among `required`.
pub open spec fn is_required(name: Seq<char>, provides: Seq<Seq<char>>, required: Seq<Seq<char>>) -> bool {
    required.contains(name) || exists|k: int|
        0 <= k < provides.len() && required.contains(bare_name(#[trigger] provides[k]))
}

/// `-Qt`'s test: is the package, by name or by a provision, required by any
/// installed package (`required_names` holds the bare names of every
/// dependency and optional dependency)?
pub fn name_or_provides_required(name: &str, provides: &Vec<String>, required_names: &Vec<String>) -> (r:
    bool)
    ensures
        r == is_required(name@, strings_view(provides@), strings_view(required_names@)),
{
    if set_contains(required_names, name) {
        return true;
    }
    let ghost pv = strings_view(provides@);
    let mut i: usize = 0;
    while i < provides.len()
        invariant
            0 <= i <= provides@.len(),
            pv == strings_view(provides@),
            !strings_view(required_names@).contains(name@),
            forall|k: int|
                0 <= k < i ==> !strings_view(required_names@).contains(bare_name(#[trigger] pv[k])),
        decreases provides@.len() - i,
    {
        let b = dep_bare_name(provides[i].as_str());
        if set_contains(required_names, b.as_str()) {
            proof {
                assert(pv[i as int] == provides@[i as int]@);
            }
            return true;
        }
        proof {
            assert(pv[i as int] == provides@[i as int]@);
        }
        i = i + 1;
    }
    false
}

/// A list joined by two spaces, or `None` when empty.
pub open spec fn list_or_none(v: Seq<Seq<char>>) -> Seq<char> {
    if v.len() == 0 {
        "None"@
    } else {
        join(v, "  "@)
    }
}

/// The separator between optional dependencies in `-Qi`.
pub open spec fn optdeps_sep() -> Seq<char> {
    "\n                     "@
}

/// `ls` followed by `(key, value)` when `cond`.
pub open spec fn push_if(ls: Seq<(Seq<char>, Seq<char>)>, cond: bool, key: Seq<char>, value: Seq<char>) -> Seq<
    (Seq<char>, Seq<char>),
> {
    if cond {
        ls.push((key, value))
    } else {
        ls
    }
}

/// The `-Qi` label fields of an image package, before any backup listing.
pub open spec fn image_labels(p: ImagePackage) -> Seq<(Seq<char>, Seq<char>)> {
    let a = seq![
        ("Name"@, p.name@),
        ("Version"@, p.version@),
        ("Description"@, text_or_none(p.desc)),
        ("Architecture"@, text_or_none(p.arch)),
        ("URL"@, text_or_none(p.url)),
        ("Licenses"@, list_or_none(strings_view(p.licenses@))),
        ("Groups"@, list_or_none(strings_view(p.groups@))),
        ("Provides"@, list_or_none(strings_view(p.provides@))),
        ("Depends On"@, list_or_none(strings_view(p.depends@))),
        ("Optional Deps"@, if p.optdepends@.len() == 0 {
            "None"@
        } else {
            join(strings_view(p.optdepends@), optdeps_sep())
        }),
        ("Conflicts With"@, list_or_none(strings_view(p.conflicts@))),
        ("Replaces"@, list_or_none(strings_view(p.replaces@))),
    ];
    let b = push_if(a, p.isize is Some, "Installed Size"@, size_text(p.isize->0 as int));
    let c = b.push(("Packager"@, text_or_none(p.packager)));
    let d = push_if(c, p.build_date is Some, "Build Date"@, crate::common::fmt::date_text(p.build_date->0 as int));
    let e = push_if(d, p.install_date is Some, "Install Date"@, crate::common::fmt::date_text(p.install_date->0 as int));
    e.push(("Install Reason"@, if p.explicit {
        "Explicitly installed (base image /usr)"@
    } else {
        "Installed as a dependency (base image /usr)"@
    }))
}

/// Some field of `ls` has the label `key`.
pub open spec fn has_label(ls: Seq<(Seq<char>, Seq<char>)>, key: Seq<char>) -> bool {
    exists|i: int| 0 <= i < ls.len() && (#[trigger] ls[i]).0 == key
}

/// Every field of `ls` labelled `key` holds `value`.
pub open spec fn label_holds(ls: Seq<(Seq<char>, Seq<char>)>, key: Seq<char>, value: Seq<char>) -> bool {
    forall|i: int| 0 <= i < ls.len() && (#[trigger] ls[i]).0 == key ==> ls[i].1 == value
}

proof fn lemma_label_push(ls: Seq<(Seq<char>, Seq<char>)>, f: (Seq<char>, Seq<char>), key: Seq<char>, value: Seq<char>)
    ensures
        has_label(ls.push(f), key) <==> has_label(ls, key) || f.0 == key,
        label_holds(ls, key, value) && (f.0 == key ==> f.1 == value) ==> label_holds(ls.push(f), key, value),
{
    if has_label(ls, key) {
        let i = choose|i: int| 0 <= i < ls.len() && (#[trigger] ls[i]).0 == key;
        assert(ls.push(f)[i] == ls[i]);
    }
    if f.0 == key {
        assert(ls.push(f)[ls.len() as int] == f);
    }
    if has_label(ls.push(f), key) && f.0 != key {
        let i = choose|i: int| 0 <= i < ls.push(f).len() && (#[trigger] ls.push(f)[i]).0 == key;
        assert(ls[i] == ls.push(f)[i]);
    }
    if label_holds(ls, key, value) && (f.0 == key ==> f.1 == value) {
        assert forall|i: int| 0 <= i < ls.push(f).len() && (#[trigger] ls.push(f)[i]).0 == key implies ls.push(
            f,
        )[i].1 == value by {
            if i < ls.len() {
                assert(ls.push(f)[i] == ls[i]);
            }
        }
    }
}

/// The dated and sized fields of an image package's `-Qi` block: `Installed
/// Size` appears exactly when the size is known, showing it; `Build Date` and
/// `Install Date` likewise for their dates; `Backup Files` never appears
/// among them (it comes only with `-ii`).
pub proof fn law_image_labels(p: ImagePackage)
    ensures
        has_label(image_labels(p), "Installed Size"@) <==> p.isize is Some,
        has_label(image_labels(p), "Build Date"@) <==> p.build_date is Some,
        has_label(image_labels(p), "Install Date"@) <==> p.install_date is Some,
        !has_label(image_labels(p), "Backup Files"@),
        p.isize matches Some(n) ==> label_holds(image_labels(p), "Installed Size"@, size_text(n as int)),
        p.build_date matches Some(t) ==> label_holds(image_labels(p), "Build Date"@, date_text(t as int)),
        p.install_date matches Some(t) ==> label_holds(image_labels(p), "Install Date"@, date_text(t as int)),
{
    reveal_strlit("Name");
    reveal_strlit("Version");
    reveal_strlit("Description");
    reveal_strlit("Architecture");
    reveal_strlit("URL");
    reveal_strlit("Licenses");
    reveal_strlit("Groups");
    reveal_strlit("Provides");
    reveal_strlit("Depends On");
    reveal_strlit("Optional Deps");
    reveal_strlit("Conflicts With");
    reveal_strlit("Replaces");
    reveal_strlit("Installed Size");
    reveal_strlit("Packager");
    reveal_strlit("Build Date");
    reveal_strlit("Install Date");
    reveal_strlit("Install Reason");
    reveal_strlit("Backup Files");
    let a = seq![
        ("Name"@, p.name@),
        ("Version"@, p.version@),
        ("Description"@, text_or_none(p.desc)),
        ("Architecture"@, text_or_none(p.arch)),
        ("URL"@, text_or_none(p.url)),
        ("Licenses"@, list_or_none(strings_view(p.licenses@))),
        ("Groups"@, list_or_none(strings_view(p.groups@))),
        ("Provides"@, list_or_none(strings_view(p.provides@))),
        ("Depends On"@, list_or_none(strings_view(p.depends@))),
        ("Optional Deps"@, if p.optdepends@.len() == 0 {
            "None"@
        } else {
            join(strings_view(p.optdepends@), optdeps_sep())
        }),
        ("Conflicts With"@, list_or_none(strings_view(p.conflicts@))),
        ("Replaces"@, list_or_none(strings_view(p.replaces@))),
    ];
    let keys = seq!["Installed Size"@, "Build Date"@, "Install Date"@, "Backup Files"@];
    assert forall|k: int, i: int| 0 <= k < 4 && 0 <= i < 12 implies #[trigger] a[i].0 != #[trigger] keys[k] by {
        assert(a[i].0[0] != keys[k][0] || a[i].0.len() != keys[k].len() || a[i].0[7] != keys[k][7]);
    }
    let sz = size_text(p.isize->0 as int);
    let bd = date_text(p.build_date->0 as int);
    let id = date_text(p.install_date->0 as int);
    let b = push_if(a, p.isize is Some, "Installed Size"@, sz);
    let c = b.push(("Packager"@, text_or_none(p.packager)));
    let d = push_if(c, p.build_date is Some, "Build Date"@, bd);
    let e = push_if(d, p.install_date is Some, "Install Date"@, id);
    let reason = if p.explicit {
        "Explicitly installed (base image /usr)"@
    } else {
        "Installed as a dependency (base image /usr)"@
    };
    assert(image_labels(p) == e.push(("Install Reason"@, reason)));
    let vals = seq![sz, bd, id, seq![]];
    assert forall|k: int| 0 <= k < 4 implies !has_label(a, #[trigger] keys[k]) && label_holds(a, keys[k], vals[k]) by {
        if has_label(a, keys[k]) {
            let i = choose|i: int| 0 <= i < a.len() && (#[trigger] a[i]).0 == keys[k];
            assert(a[i].0 != keys[k]);
        }
    }
    assert forall|k: int| 0 <= k < 4 implies (has_label(e.push(("Install Reason"@, reason)), #[trigger] keys[k])
        <==> (k == 0 && p.isize is Some || k == 1 && p.build_date is Some || k == 2 && p.install_date is Some))
        && label_holds(e.push(("Install Reason"@, reason)), keys[k], vals[k]) by {
        assert("Packager"@[0] != keys[k][0] || "Packager"@.len() != keys[k].len());
        assert("Install Reason"@.len() != keys[k].len() || "Install Reason"@[7] != keys[k][7]);
        assert forall|k2: int| 0 <= k2 < 4 && k2 != k implies keys[k2] != keys[k] by {
            assert(keys[k2].len() != keys[k].len() || keys[k2][0] != keys[k][0]);
        }
        if p.isize is Some {
            lemma_label_push(a, ("Installed Size"@, sz), keys[k], vals[k]);
        }
        lemma_label_push(b, ("Packager"@, text_or_none(p.packager)), keys[k], vals[k]);
        if p.build_date is Some {
            lemma_label_push(c, ("Build Date"@, bd), keys[k], vals[k]);
        }
        if p.install_date is Some {
            lemma_label_push(d, ("Install Date"@, id), keys[k], vals[k]);
        }
        lemma_label_push(e, ("Install Reason"@, reason), keys[k], vals[k]);
    }
    assert(keys[0] == "Installed Size"@);
    assert(keys[1] == "Build Date"@);
    assert(keys[2] == "Install Date"@);
    assert(keys[3] == "Backup Files"@);
}

/// The `path\thash` lines of backup entries.
pub open spec fn backup_lines(b: Seq<(Seq<char>, Seq<char>)>) -> Seq<Seq<char>> {
    b.map_values(|e: (Seq<char>, Seq<char>)| e.0 + "\t"@ + e.1)
}

fn list_text(v: &Vec<String>) -> (r: String)
    ensures
        r@ == list_or_none(strings_view(v@)),
{
    if v.len() == 0 {
        to_owned("None")
    } else {
        join_strings(v, "  ")
    }
}

fn push_label(fields: &mut Vec<InfoField>, ls: Ghost<Seq<(Seq<char>, Seq<char>)>>, key: &str, value: &str) -> (r: Ghost<Seq<(Seq<char>, Seq<char>)>>)
    requires
        fields_are(old(fields)@, ls@),
    ensures
        fields_are(final(fields)@, r@),
        r@ == ls@.push((key@, value@)),
{
    let ghost f0 = fields@;
    label(fields, key, value);
    proof {
        assert forall|k: int| 0 <= k < ls@.len() + 1 implies is_label(
            #[trigger] fields@[k],
            ls@.push((key@, value@))[k].0,
            ls@.push((key@, value@))[k].1,
        ) by {
            if k < ls@.len() {
                assert(fields@[k] == fields@.take(f0.len() as int)[k]);
            }
        }
    }
    Ghost(ls@.push((key@, value@)))
}

/// The `-Qi` block of a baked-in image package: its `desc` fields (lists
/// two-space-joined or `None`), size and dates when known, the install reason,
/// and with `-ii` the backup files (or `None`).
#[verifier::spinoff_prover]
#[verifier::rlimit(80)]
pub fn image_info_block(args: &Args, pkg: &ImagePackage) -> (r: InfoBlock)
    ensures
        args.info < 2 ==> fields_are(r.fields@, image_labels(*pkg)),
        args.info >= 2 && pkg.backup@.len() == 0 ==> fields_are(
            r.fields@,
            image_labels(*pkg).push(("Backup Files"@, "None"@)),
        ),
        args.info >= 2 && pkg.backup@.len() > 0 ==> fields_are(
            r.fields@.drop_last(),
            image_labels(*pkg),
        ) && r.fields@.len() == image_labels(*pkg).len() + 1 && (r.fields@.last() matches InfoField::Backup(
            lines,
        ) && strings_view(lines@) == backup_lines(pairs_view(pkg.backup@))),
{
    let mut fields: Vec<InfoField> = Vec::new();
    let ghost empty: Seq<(Seq<char>, Seq<char>)> = seq![];
    let g = Ghost(empty);
    let g = push_label(&mut fields, g, "Name", pkg.name.as_str());
    let g = push_label(&mut fields, g, "Version", pkg.version.as_str());
    let d: &str = match &pkg.desc { Some(x) => x.as_str(), None => "None" };
    let g = push_label(&mut fields, g, "Description", d);
    let a: &str = match &pkg.arch { Some(x) => x.as_str(), None => "None" };
    let g = push_label(&mut fields, g, "Architecture", a);
    let u: &str = match &pkg.url { Some(x) => x.as_str(), None => "None" };
    let g = push_label(&mut fields, g, "URL", u);
    let t = list_text(&pkg.licenses);
    let g = push_label(&mut fields, g, "Licenses", t.as_str());
    let t = list_text(&pkg.groups);
    let g = push_label(&mut fields, g, "Groups", t.as_str());
    let t = list_text(&pkg.provides);
    let g = push_label(&mut fields, g, "Provides", t.as_str());
    let t = list_text(&pkg.depends);
    let g = push_label(&mut fields, g, "Depends On", t.as_str());
    let t = if pkg.optdepends.len() == 0 {
        to_owned("None")
    } else {
        join_strings(&pkg.optdepends, "\n                     ")
    };
    let g = push_label(&mut fields, g, "Optional Deps", t.as_str());
    let t = list_text(&pkg.conflicts);
    let g = push_label(&mut fields, g, "Conflicts With", t.as_str());
    let t = list_text(&pkg.replaces);
    let g = push_label(&mut fields, g, "Replaces", t.as_str());
    let g = match pkg.isize {
        Some(sz) => {
            let t = format_size(sz);
            push_label(&mut fields, g, "Installed Size", t.as_str())
        },
        None => g,
    };
    let pk: &str = match &pkg.packager { Some(x) => x.as_str(), None => "None" };
    let g = push_label(&mut fields, g, "Packager", pk);
    let g = match pkg.build_date {
        Some(bd) => {
            let t = format_date(bd);
            push_label(&mut fields, g, "Build Date", t.as_str())
        },
        None => g,
    };
    let g = match pkg.install_date {
        Some(id) => {
            let t = format_date(id);
            push_label(&mut fields, g, "Install Date", t.as_str())
        },
        None => g,
    };
    let reason = if pkg.explicit {
        "Explicitly installed (base image /usr)"
    } else {
        "Installed as a dependency (base image /usr)"
    };
    let g = push_label(&mut fields, g, "Install Reason", reason);
    proof {
        assert(g@ =~= image_labels(*pkg));
    }
    if args.info >= 2 {
        if pkg.backup.len() == 0 {
            let g2 = push_label(&mut fields, g, "Backup Files", "None");
        } else {
            let mut lines: Vec<String> = Vec::new();
            let mut i: usize = 0;
            while i < pkg.backup.len()
                invariant
                    0 <= i <= pkg.backup@.len(),
                    strings_view(lines@) == backup_lines(pairs_view(pkg.backup@)).take(i as int),
                decreases pkg.backup@.len() - i,
            {
                let mut l = String::new();
                push_str(&mut l, pkg.backup[i].0.as_str());
                push_str(&mut l, "\t");
                push_str(&mut l, pkg.backup[i].1.as_str());
                let ghost before = lines@;
                lines.push(l);
                proof {
                    assert(strings_view(lines@) =~= strings_view(before).push(lines@.last()@));
                    assert(backup_lines(pairs_view(pkg.backup@)).take(i + 1) =~= backup_lines(
                        pairs_view(pkg.backup@),
                    ).take(i as int).push(backup_lines(pairs_view(pkg.backup@))[i as int]));
                }
                i = i + 1;
            }
            proof {
                assert(backup_lines(pairs_view(pkg.backup@)).take(pkg.backup@.len() as int) =~= backup_lines(pairs_view(pkg.backup@)));
            }
            let ghost f0 = fields@;
            fields.push(InfoField::Backup(lines));
            proof {
                assert(fields@.drop_last() =~= f0);
            }
        }
    }
    InfoBlock { fields }
}

/// `root` joined with `rel` stripped of leading and trailing slashes; just
/// `root` when nothing is left.
pub open spec fn file_path(root: Seq<char>, rel: Seq<char>) -> Seq<char> {
    let t = trim_end_c(trim_start_c(rel, '/'), '/');
    if t.len() == 0 {
        root
    } else if root.len() == 0 {
        t
    } else if root.last() == '/' {
        root + t
    } else {
        root + "/"@ + t
    }
}

/// Where an image package's owned path lives under `root`.
pub fn resolve_file_path(root: &str, rel: &str) -> (r: String)
    ensures
        r@ == file_path(root@, rel@),
{
    let v = chars_of(rel);
    let mut a: usize = 0;
    while a < v.len() && v[a] == '/'
        invariant
            0 <= a <= v@.len(),
            forall|j: int| 0 <= j < a ==> v@[j] == '/',
        decreases v@.len() - a,
    {
        a = a + 1;
    }
    proof {
        crate::text::lemma_lead_c_unique(rel@, '/', a as int);
        assert(trim_start_c(rel@, '/') =~= v@.subrange(a as int, v@.len() as int));
    }
    let b = crate::text::trim_end_char_range(&v, a, v.len(), '/');
    let rv = chars_of(root);
    let ghost t = trim_end_c(trim_start_c(rel@, '/'), '/');
    proof {
        assert(v@.subrange(a as int, b as int) == t);
    }
    if b == a {
        return to_owned(root);
    }
    let mut out = String::new();
    push_str(&mut out, root);
    if rv.len() > 0 && rv[rv.len() - 1] != '/' {
        out.push('/');
    }
    crate::text::push_range(&mut out, &v, a, b);
    proof {
        if rv@.len() > 0 {
            assert(root@.last() == rv@[rv@.len() - 1]);
            if root@.last() == '/' {
                assert(out@ =~= root@ + t);
            } else {
                reveal_strlit("/");
                assert(out@ =~= root@ + "/"@ + t);
            }
        } else {
            assert(out@ =~= t);
        }
    }
    out
}

/// The `-Qk` result of an image package: `missing[k]` says whether its `k`-th
/// owned path is absent. Returns the result and whether any file is missing.
pub fn build_image_check(args: &Args, pkg: &ImagePackage, missing: &Vec<bool>) -> (r: (CheckResult, bool))
    requires
        missing@.len() == pkg.files@.len(),
    ensures
        r.1 == exists|k: int| 0 <= k < missing@.len() && missing@[k],
        r.0.summary@ == pkg.name@ + ": "@ + dec(pkg.files@.len() as nat) + " total files, "@ + dec(
            missing_count(missing@) as nat,
        ) + " missing files"@ + if args.check >= 2 {
            ", 0 altered files"@
        } else {
            seq![]
        },
        args.quiet ==> r.0.problems@.len() == 0,
        !args.quiet ==> strings_view(r.0.problems@) == missing_lines(pkg.name@, strings_view(pkg.files@), missing@),
{
    let mut problems: Vec<String> = Vec::new();
    let mut count: u64 = 0;
    let mut i: usize = 0;
    while i < pkg.files.len()
        invariant
            0 <= i <= pkg.files@.len() == missing@.len(),
            count == missing_count(missing@.take(i as int)),
            count <= i,
            args.quiet ==> problems@.len() == 0,
            !args.quiet ==> strings_view(problems@) == missing_lines(pkg.name@, strings_view(pkg.files@).take(i as int), missing@.take(i as int)),
        decreases pkg.files@.len() - i,
    {
        proof {
            assert(missing@.take(i + 1).drop_last() =~= missing@.take(i as int));
            assert(strings_view(pkg.files@).take(i + 1).drop_last() =~= strings_view(pkg.files@).take(i as int));
        }
        if missing[i] {
            count = count + 1;
            if !args.quiet {
                let mut l = String::new();
                push_str(&mut l, pkg.name.as_str());
                push_str(&mut l, ": /");
                push_str(&mut l, pkg.files[i].as_str());
                push_str(&mut l, " (Missing file)");
                let ghost before = problems@;
                problems.push(l);
                proof {
                    assert(strings_view(problems@) =~= strings_view(before).push(problems@.last()@));
                }
            }
        }
        i = i + 1;
    }
    proof {
        assert(missing@.take(missing@.len() as int) =~= missing@);
        assert(strings_view(pkg.files@).take(pkg.files@.len() as int) =~= strings_view(pkg.files@));
        lemma_missing_count(missing@);
    }
    let mut summary = String::new();
    push_str(&mut summary, pkg.name.as_str());
    push_str(&mut summary, ": ");
    crate::common::fmt::push_dec(&mut summary, pkg.files.len() as u64);
    push_str(&mut summary, " total files, ");
    crate::common::fmt::push_dec(&mut summary, count);
    push_str(&mut summary, " missing files");
    if args.check >= 2 {
        push_str(&mut summary, ", 0 altered files");
    }
    (CheckResult { problems, summary }, count > 0)
}

/// How many entries of `m` are set.
pub open spec fn missing_count(m: Seq<bool>) -> int
    decreases m.len(),
{
    if m.len() == 0 {
        0
    } else {
        missing_count(m.drop_last()) + if m.last() {
            1int
        } else {
            0
        }
    }
}

proof fn lemma_missing_count(m: Seq<bool>)
    ensures
        (missing_count(m) > 0) == exists|k: int| 0 <= k < m.len() && m[k],
        0 <= missing_count(m) <= m.len(),
    decreases m.len(),
{
    if m.len() > 0 {
        lemma_missing_count(m.drop_last());
        if exists|k: int| 0 <= k < m.drop_last().len() && m.drop_last()[k] {
            let k = choose|k: int| 0 <= k < m.drop_last().len() && m.drop_last()[k];
            assert(m[k]);
        }
        if exists|k: int| 0 <= k < m.len() && m[k] {
            let k = choose|k: int| 0 <= k < m.len() && m[k];
            if k < m.len() - 1 {
                assert(m.drop_last()[k]);
            }
        }
    }
}

/// The problem lines for the missing paths, in order.
pub open spec fn missing_lines(name: Seq<char>, files: Seq<Seq<char>>, m: Seq<bool>) -> Seq<Seq<char>>
    decreases m.len(),
{
    if m.len() == 0 || files.len() == 0 {
        seq![]
    } else {
        let rest = missing_lines(name, files.drop_last(), m.drop_last());
        if m.last() {
            rest.push(name + ": /"@ + files.last() + " (Missing file)"@)
        } else {
            rest
        }
    }
}

/// The accumulated output of one query; exactly one is filled per run.
pub struct Body {
    pub list: Vec<PkgLine>,
    pub info: Vec<InfoBlock>,
    pub files: Vec<FileLine>,
    pub check: Vec<CheckResult>,
    pub changelog: Vec<String>,
}

impl Body {
    /// Pick the accumulator for the query's detail mode: changelog, check,
    /// file list, info, else the plain list.
    pub fn into_body(self, args: &Args) -> (r: QueryBody)
        ensures
            args.changelog ==> r == QueryBody::Changelog(self.changelog),
            !args.changelog && args.check > 0 ==> r == QueryBody::Check(self.check),
            !args.changelog && args.check == 0 && args.list ==> r == (QueryBody::Files {
                quiet: args.quiet,
                lines: self.files,
            }),
            !args.changelog && args.check == 0 && !args.list && args.info > 0 ==> r
                == QueryBody::Info(self.info),
            !args.changelog && args.check == 0 && !args.list && args.info == 0 ==> r == (QueryBody::List {
                quiet: args.quiet,
                pkgs: self.list,
            }),
    {
        if args.changelog {
            QueryBody::Changelog(self.changelog)
        } else if args.check > 0 {
            QueryBody::Check(self.check)
        } else if args.list {
            QueryBody::Files { quiet: args.quiet, lines: self.files }
        } else if args.info > 0 {
            QueryBody::Info(self.info)
        } else {
            QueryBody::List { quiet: args.quiet, pkgs: self.list }
        }
    }
}

} // verus!
