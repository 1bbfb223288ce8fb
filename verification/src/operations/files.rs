//! `-F`: listing and searching the files of sync-database packages, on what
//! the `.files` databases hold.
use crate::common::fmt::{join, join_strings, strings_view};
use crate::error::MizError;
use crate::operations::pattern::{compile, is_match, regex_error, regex_match};
use crate::operations::sync::{last_char_before, lemma_prev_char, prev_char, repo_split, split_repo_target};
use crate::params::files::Params as Args;
use crate::render::output::{lossy_text, utf8_lossy};
use crate::report::{FilePkg, FilesReport};
use crate::text::{chars_of, opt_str, push_str, str_eq, to_owned};
use vstd::prelude::*;

verus! {

/// A sync-database package and the paths it owns.
pub struct SyncPkg {
    pub name: String,
    pub version: String,
    pub files: Vec<Vec<u8>>,
}

/// A sync database and its packages, in its order.
pub struct SyncDb {
    pub name: String,
    pub pkgs: Vec<SyncPkg>,
}

/// The content of a reported package.
pub open spec fn file_pkg_view(p: FilePkg) -> (Seq<char>, Seq<char>, Seq<char>, Seq<Seq<u8>>, bool) {
    (p.db@, p.pkg@, p.version@, p.files@.map_values(|f: Vec<u8>| f@), p.exact_file)
}

pub open spec fn file_pkgs_view(v: Seq<FilePkg>) -> Seq<(Seq<char>, Seq<char>, Seq<char>, Seq<Seq<u8>>, bool)> {
    v.map_values(|p: FilePkg| file_pkg_view(p))
}

/// A package of `db` as reported, with the given files.
pub open spec fn reported(db: SyncDb, p: SyncPkg, files: Seq<Seq<u8>>, exact: bool) -> (Seq<char>, Seq<char>, Seq<char>, Seq<Seq<u8>>, bool) {
    (db.name@, p.name@, p.version@, files, exact)
}

// ---------------------------------------------------------------------------
// -Fl
// ---------------------------------------------------------------------------

/// Every package of every database, with all its files.
pub open spec fn all_listed(dbs: Seq<SyncDb>) -> Seq<(Seq<char>, Seq<char>, Seq<char>, Seq<Seq<u8>>, bool)>
    decreases dbs.len(),
{
    if dbs.len() == 0 {
        seq![]
    } else {
        let db = dbs.last();
        all_listed(dbs.drop_last()) + db.pkgs@.map_values(|p: SyncPkg| reported(db, p, p.files@.map_values(|f: Vec<u8>| f@), false))
    }
}

/// The first package of `pkgs` named `name`.
pub open spec fn pkg_named(pkgs: Seq<SyncPkg>, name: Seq<char>) -> Option<SyncPkg>
    decreases pkgs.len(),
{
    if pkgs.len() == 0 {
        None
    } else if pkgs[0].name@ == name {
        Some(pkgs[0])
    } else {
        pkg_named(pkgs.drop_first(), name)
    }
}

/// The package a `-Fl` target names: in the first database (the named one,
/// if given) that has it.
pub open spec fn lookup(dbs: Seq<SyncDb>, repo: Option<Seq<char>>, name: Seq<char>) -> Option<(SyncDb, SyncPkg)>
    decreases dbs.len(),
{
    if dbs.len() == 0 {
        None
    } else {
        let db = dbs[0];
        let eligible = match repo {
            Some(r) => db.name@ == r,
            None => true,
        };
        if eligible && pkg_named(db.pkgs@, name) is Some {
            Some((db, pkg_named(db.pkgs@, name)->0))
        } else {
            lookup(dbs.drop_first(), repo, name)
        }
    }
}

/// The packages `-Fl target...` lists and the targets not found, in order.
pub open spec fn listed(dbs: Seq<SyncDb>, targets: Seq<Seq<char>>) -> (Seq<(Seq<char>, Seq<char>, Seq<char>, Seq<Seq<u8>>, bool)>, Seq<Seq<char>>)
    decreases targets.len(),
{
    if targets.len() == 0 {
        (seq![], seq![])
    } else {
        let (ps, miss) = listed(dbs, targets.drop_last());
        let t = targets.last();
        match lookup(dbs, repo_split(t).0, repo_split(t).1) {
            Some((db, p)) => (ps.push(reported(db, p, p.files@.map_values(|f: Vec<u8>| f@), false)), miss),
            None => (ps, miss.push(t)),
        }
    }
}

fn copy_bytes(b: &Vec<u8>) -> (r: Vec<u8>)
    ensures
        r@ == b@,
{
    let mut out: Vec<u8> = Vec::new();
    let mut i: usize = 0;
    while i < b.len()
        invariant
            0 <= i <= b@.len(),
            out@ == b@.take(i as int),
        decreases b@.len() - i,
    {
        out.push(b[i]);
        proof {
            assert(out@ =~= b@.take(i + 1));
        }
        i = i + 1;
    }
    proof {
        assert(b@.take(b@.len() as int) =~= b@);
    }
    out
}

fn copy_files(files: &Vec<Vec<u8>>) -> (r: Vec<Vec<u8>>)
    ensures
        r@.map_values(|f: Vec<u8>| f@) == files@.map_values(|f: Vec<u8>| f@),
{
    let mut out: Vec<Vec<u8>> = Vec::new();
    let mut i: usize = 0;
    while i < files.len()
        invariant
            0 <= i <= files@.len(),
            out@.map_values(|f: Vec<u8>| f@) == files@.take(i as int).map_values(|f: Vec<u8>| f@),
        decreases files@.len() - i,
    {
        let c = copy_bytes(&files[i]);
        let ghost before = out@;
        out.push(c);
        proof {
            assert(c@ == files@[i as int]@);
            assert(out@.map_values(|f: Vec<u8>| f@) =~= before.map_values(|f: Vec<u8>| f@).push(c@));
            assert(files@.take(i + 1).map_values(|f: Vec<u8>| f@) =~= files@.take(i as int).map_values(|f: Vec<u8>| f@).push(files@[i as int]@));
        }
        i = i + 1;
    }
    proof {
        assert(files@.take(files@.len() as int) =~= files@);
    }
    out
}

fn listed_pkg(db: &SyncDb, p: &SyncPkg) -> (r: FilePkg)
    ensures
        file_pkg_view(r) == reported(*db, *p, p.files@.map_values(|f: Vec<u8>| f@), false),
{
    FilePkg {
        db: db.name.clone(),
        pkg: p.name.clone(),
        version: p.version.clone(),
        files: copy_files(&p.files),
        exact_file: false,
    }
}

fn find_pkg(pkgs: &Vec<SyncPkg>, name: &str) -> (r: Option<usize>)
    ensures
        match pkg_named(pkgs@, name@) {
            Some(p) => r matches Some(i) && i < pkgs@.len() && pkgs@[i as int] == p,
            None => r is None,
        },
{
    let mut i: usize = 0;
    proof {
        assert(pkgs@.skip(0) =~= pkgs@);
    }
    while i < pkgs.len()
        invariant
            0 <= i <= pkgs@.len(),
            pkg_named(pkgs@.skip(i as int), name@) == pkg_named(pkgs@, name@),
        decreases pkgs@.len() - i,
    {
        proof {
            assert(pkgs@.skip(i as int)[0] == pkgs@[i as int]);
            assert(pkgs@.skip(i as int).drop_first() =~= pkgs@.skip(i + 1));
        }
        if str_eq(pkgs[i].name.as_str(), name) {
            return Some(i);
        }
        i = i + 1;
    }
    None
}

fn find_target(dbs: &Vec<SyncDb>, repo: Option<&str>, name: &str) -> (r: Option<(usize, usize)>)
    ensures
        match lookup(dbs@, opt_str(repo), name@) {
            Some((db, p)) => r matches Some((d, k)) && d < dbs@.len() && k < dbs@[d as int].pkgs@.len() && dbs@[d as int] == db && dbs@[d as int].pkgs@[k as int] == p,
            None => r is None,
        },
{
    let mut i: usize = 0;
    proof {
        assert(dbs@.skip(0) =~= dbs@);
    }
    while i < dbs.len()
        invariant
            0 <= i <= dbs@.len(),
            lookup(dbs@.skip(i as int), opt_str(repo), name@) == lookup(dbs@, opt_str(repo), name@),
        decreases dbs@.len() - i,
    {
        proof {
            assert(dbs@.skip(i as int)[0] == dbs@[i as int]);
            assert(dbs@.skip(i as int).drop_first() =~= dbs@.skip(i + 1));
        }
        let eligible = match repo {
            Some(r) => str_eq(dbs[i].name.as_str(), r),
            None => true,
        };
        if eligible {
            match find_pkg(&dbs[i].pkgs, name) {
                Some(k) => {
                    return Some((i, k));
                },
                None => {},
            }
        }
        i = i + 1;
    }
    None
}

/// `-Fl`: every package's files, or those of the named targets.
pub fn files_list(args: &Args, dbs: &Vec<SyncDb>) -> (r: FilesReport)
    ensures
        r matches FilesReport::List { machine, quiet, pkgs, diagnostics, error } && machine == args.machinereadable && quiet == args.quiet && ({
            if args.targets@.len() == 0 {
                &&& file_pkgs_view(pkgs@) == all_listed(dbs@)
                &&& diagnostics@.len() == 0
                &&& error is None
            } else {
                let (ps, miss) = listed(dbs@, strings_view(args.targets@));
                &&& file_pkgs_view(pkgs@) == ps
                &&& strings_view(diagnostics@) == miss.map_values(|t: Seq<char>| "error: package '"@ + t + "' was not found"@)
                &&& (miss.len() == 0 ==> error is None)
                &&& (miss.len() > 0 ==> (error matches Some(e) && e@ == join(strings_view(args.targets@), ", "@)))
            }
        }),
{
    let mut pkgs: Vec<FilePkg> = Vec::new();
    if args.targets.len() == 0 {
        let mut i: usize = 0;
        while i < dbs.len()
            invariant
                0 <= i <= dbs@.len(),
                file_pkgs_view(pkgs@) == all_listed(dbs@.take(i as int)),
            decreases dbs@.len() - i,
        {
            proof {
                assert(dbs@.take(i + 1).drop_last() =~= dbs@.take(i as int));
            }
            let db = &dbs[i];
            let ghost start = file_pkgs_view(pkgs@);
            let mut k: usize = 0;
            while k < db.pkgs.len()
                invariant
                    0 <= k <= db.pkgs@.len(),
                    start == all_listed(dbs@.take(i as int)),
                    file_pkgs_view(pkgs@) == start + db.pkgs@.take(k as int).map_values(|p: SyncPkg| reported(*db, p, p.files@.map_values(|f: Vec<u8>| f@), false)),
                decreases db.pkgs@.len() - k,
            {
                let fp = listed_pkg(db, &db.pkgs[k]);
                let ghost before = pkgs@;
                pkgs.push(fp);
                proof {
                    assert(file_pkgs_view(pkgs@) =~= file_pkgs_view(before).push(file_pkg_view(fp)));
                    assert(db.pkgs@.take(k + 1).map_values(|p: SyncPkg| reported(*db, p, p.files@.map_values(|f: Vec<u8>| f@), false)) =~= db.pkgs@.take(k as int).map_values(|p: SyncPkg| reported(*db, p, p.files@.map_values(|f: Vec<u8>| f@), false)).push(reported(*db, db.pkgs@[k as int], db.pkgs@[k as int].files@.map_values(|f: Vec<u8>| f@), false)));
                }
                k = k + 1;
            }
            proof {
                assert(db.pkgs@.take(db.pkgs@.len() as int) =~= db.pkgs@);
                assert(dbs@.take(i + 1).last() == dbs@[i as int]);
            }
            i = i + 1;
        }
        proof {
            assert(dbs@.take(dbs@.len() as int) =~= dbs@);
        }
        return FilesReport::List { machine: args.machinereadable, quiet: args.quiet, pkgs, diagnostics: Vec::new(), error: None };
    }
    let ghost tv = strings_view(args.targets@);
    let mut diagnostics: Vec<String> = Vec::new();
    let mut missing = false;
    let mut i: usize = 0;
    while i < args.targets.len()
        invariant
            0 <= i <= args.targets@.len(),
            tv == strings_view(args.targets@),
            file_pkgs_view(pkgs@) == listed(dbs@, tv.take(i as int)).0,
            strings_view(diagnostics@) == listed(dbs@, tv.take(i as int)).1.map_values(|t: Seq<char>| "error: package '"@ + t + "' was not found"@),
            missing == (listed(dbs@, tv.take(i as int)).1.len() > 0),
        decreases args.targets@.len() - i,
    {
        proof {
            assert(tv.take(i + 1).drop_last() =~= tv.take(i as int));
            assert(tv.take(i + 1).last() == args.targets@[i as int]@);
        }
        let target = args.targets[i].as_str();
        let (repo, name) = split_repo_target(target);
        let ghost m0 = listed(dbs@, tv.take(i as int)).1;
        match find_target(dbs, repo, name) {
            Some((d, k)) => {
                let fp = listed_pkg(&dbs[d], &dbs[d].pkgs[k]);
                let ghost before = pkgs@;
                pkgs.push(fp);
                proof {
                    assert(file_pkgs_view(pkgs@) =~= file_pkgs_view(before).push(file_pkg_view(fp)));
                }
            },
            None => {
                let mut l = to_owned("error: package '");
                push_str(&mut l, target);
                push_str(&mut l, "' was not found");
                let ghost before = diagnostics@;
                diagnostics.push(l);
                missing = true;
                proof {
                    assert(m0.push(target@).map_values(|t: Seq<char>| "error: package '"@ + t + "' was not found"@) =~= m0.map_values(|t: Seq<char>| "error: package '"@ + t + "' was not found"@).push(l@));
                    assert(strings_view(diagnostics@) =~= strings_view(before).push(l@));
                }
            },
        }
        i = i + 1;
    }
    proof {
        assert(tv.take(args.targets@.len() as int) =~= tv);
    }
    let error = if missing {
        Some(join_strings(&args.targets, ", "))
    } else {
        None
    };
    FilesReport::List { machine: args.machinereadable, quiet: args.quiet, pkgs, diagnostics, error }
}

// ---------------------------------------------------------------------------
// -F, -Fx
// ---------------------------------------------------------------------------

/// `s` without its leading `/`s.
pub open spec fn strip_leading(s: Seq<char>) -> Seq<char>
    decreases s.len(),
{
    if s.len() > 0 && s[0] == '/' {
        strip_leading(s.drop_first())
    } else {
        s
    }
}

/// What a target is matched against: a path (it holds a `/`) without its
/// leading `/`s, else the file name as given.
pub open spec fn needle_of(t: Seq<char>) -> Seq<char> {
    if t.contains('/') {
        strip_leading(t)
    } else {
        t
    }
}

/// The file name of a path: after its last `/`; nothing for a directory
/// entry (ending in `/`).
pub open spec fn base_of(full: Seq<char>) -> Option<Seq<char>> {
    let j = prev_char(full, '/', full.len() as int);
    if j < 0 {
        Some(full)
    } else if j + 1 == full.len() {
        None
    } else {
        Some(full.skip(j + 1))
    }
}

/// Whether owned path `f` is a hit: a path target with `--regex` matches the
/// whole path; a name target matches the file name, exactly or by the
/// regular expression.
pub open spec fn file_hits(f: Seq<u8>, needle: Seq<char>, exact: bool, regex: bool) -> bool {
    let full = lossy_text(f);
    if exact {
        regex_match(needle, full)
    } else {
        match base_of(full) {
            None => false,
            Some(b) => if regex {
                regex_match(needle, b)
            } else {
                b == needle
            },
        }
    }
}

/// The hits among a package's files; a path target without `--regex` hits
/// when the package owns exactly that path.
pub open spec fn pkg_hits(files: Seq<Seq<u8>>, needle: Seq<char>, exact: bool, regex: bool) -> Seq<Seq<u8>> {
    if exact && !regex {
        if files.contains(vstd::utf8::encode_utf8(needle)) {
            seq![vstd::utf8::encode_utf8(needle)]
        } else {
            seq![]
        }
    } else {
        files.filter(|f: Seq<u8>| file_hits(f, needle, exact, regex))
    }
}

/// The packages of `db` with hits, in order.
pub open spec fn db_matches(db: SyncDb, ps: Seq<SyncPkg>, needle: Seq<char>, exact: bool, regex: bool) -> Seq<(Seq<char>, Seq<char>, Seq<char>, Seq<Seq<u8>>, bool)>
    decreases ps.len(),
{
    if ps.len() == 0 {
        seq![]
    } else {
        let r = db_matches(db, ps.drop_last(), needle, exact, regex);
        let h = pkg_hits(ps.last().files@.map_values(|f: Vec<u8>| f@), needle, exact, regex);
        if h.len() > 0 {
            r.push(reported(db, ps.last(), h, exact))
        } else {
            r
        }
    }
}

/// The packages of every database with hits, in order.
pub open spec fn target_matches(dbs: Seq<SyncDb>, needle: Seq<char>, exact: bool, regex: bool) -> Seq<(Seq<char>, Seq<char>, Seq<char>, Seq<Seq<u8>>, bool)>
    decreases dbs.len(),
{
    if dbs.len() == 0 {
        seq![]
    } else {
        target_matches(dbs.drop_last(), needle, exact, regex) + db_matches(dbs.last(), dbs.last().pkgs@, needle, exact, regex)
    }
}

/// The matches, the targets with none, and the pattern error that stopped
/// the search, over `targets` in order.
pub open spec fn search_fold(dbs: Seq<SyncDb>, targets: Seq<Seq<char>>, regex: bool) -> (Seq<(Seq<char>, Seq<char>, Seq<char>, Seq<Seq<u8>>, bool)>, Seq<Seq<char>>, Option<Seq<char>>)
    decreases targets.len(),
{
    if targets.len() == 0 {
        (seq![], seq![], None)
    } else {
        let st = search_fold(dbs, targets.drop_last(), regex);
        if st.2 is Some {
            st
        } else {
            let t = targets.last();
            let n = needle_of(t);
            if regex && regex_error(n) is Some {
                (st.0, st.1, regex_error(n))
            } else {
                let ms = target_matches(dbs, n, t.contains('/'), regex);
                (st.0 + ms, if ms.len() == 0 {
                    st.1.push(t)
                } else {
                    st.1
                }, None)
            }
        }
    }
}

fn bytes_eq(a: &Vec<u8>, b: &[u8]) -> (r: bool)
    ensures
        r == (a@ == b@),
{
    if a.len() != b.len() {
        return false;
    }
    let mut i: usize = 0;
    while i < a.len()
        invariant
            0 <= i <= a@.len() == b@.len(),
            forall|k: int| 0 <= k < i ==> a@[k] == b@[k],
        decreases a@.len() - i,
    {
        if a[i] != b[i] {
            return false;
        }
        i = i + 1;
    }
    proof {
        assert(a@ =~= b@);
    }
    true
}

fn strip_leading_slashes(t: &str) -> (r: String)
    ensures
        r@ == strip_leading(t@),
{
    let v = chars_of(t);
    let mut i: usize = 0;
    proof {
        assert(v@.skip(0) =~= v@);
    }
    while i < v.len() && v[i] == '/'
        invariant
            i <= v@.len(),
            strip_leading(v@.skip(i as int)) == strip_leading(v@),
        decreases v@.len() - i,
    {
        proof {
            assert(v@.skip(i as int).drop_first() =~= v@.skip(i + 1));
        }
        i = i + 1;
    }
    proof {
        assert(v@.subrange(i as int, v@.len() as int) =~= v@.skip(i as int));
    }
    crate::text::string_of_range(&v, i, v.len())
}

/// The file name of a path, as [`base_of`].
fn base_name(full: &str) -> (r: Option<String>)
    ensures
        match base_of(full@) {
            Some(b) => r matches Some(x) && x@ == b,
            None => r is None,
        },
{
    let v = chars_of(full);
    let j = last_char_before(&v, '/', v.len());
    proof {
        lemma_prev_char(v@, '/', v@.len() as int);
    }
    match j {
        None => Some(to_owned(full)),
        Some(j) => {
            if j + 1 == v.len() {
                None
            } else {
                proof {
                    assert(v@.subrange(j + 1, v@.len() as int) =~= v@.skip(j + 1));
                }
                Some(crate::text::string_of_range(&v, j + 1, v.len()))
            }
        },
    }
}

fn hits_of(files: &Vec<Vec<u8>>, needle: &str, exact: bool, re: &Option<crate::operations::pattern::Pattern>) -> (r: Vec<Vec<u8>>)
    requires
        re matches Some(p) ==> p.src() == needle@,
    ensures
        r@.map_values(|f: Vec<u8>| f@) == pkg_hits(files@.map_values(|f: Vec<u8>| f@), needle@, exact, re is Some),
{
    let ghost fv = files@.map_values(|f: Vec<u8>| f@);
    let mut out: Vec<Vec<u8>> = Vec::new();
    if exact && re.is_none() {
        let nb = needle.as_bytes();
        let mut i: usize = 0;
        let mut found = false;
        while i < files.len()
            invariant
                0 <= i <= files@.len(),
                fv == files@.map_values(|f: Vec<u8>| f@),
                nb@ == vstd::utf8::encode_utf8(needle@),
                found == exists|k: int| 0 <= k < i && fv[k] == nb@,
            decreases files@.len() - i,
        {
            if bytes_eq(&files[i], nb) {
                found = true;
            }
            proof {
                assert(fv[i as int] == files@[i as int]@);
            }
            i = i + 1;
        }
        if found {
            let mut b: Vec<u8> = Vec::new();
            let mut k: usize = 0;
            while k < nb.len()
                invariant
                    0 <= k <= nb@.len(),
                    b@ == nb@.take(k as int),
                decreases nb@.len() - k,
            {
                b.push(nb[k]);
                proof {
                    assert(b@ =~= nb@.take(k + 1));
                }
                k = k + 1;
            }
            proof {
                assert(nb@.take(nb@.len() as int) =~= nb@);
            }
            out.push(b);
        }
        proof {
            if found {
                let k = choose|k: int| 0 <= k < files@.len() && fv[k] == nb@;
                assert(fv.contains(nb@));
            }
            if fv.contains(vstd::utf8::encode_utf8(needle@)) {
                let k = choose|k: int| 0 <= k < fv.len() && fv[k] == vstd::utf8::encode_utf8(needle@);
                assert(found);
            }
            assert(out@.map_values(|f: Vec<u8>| f@) =~= pkg_hits(fv, needle@, exact, re is Some));
        }
        return out;
    }
    let mut i: usize = 0;
    while i < files.len()
        invariant
            0 <= i <= files@.len(),
            fv == files@.map_values(|f: Vec<u8>| f@),
            re matches Some(p) ==> p.src() == needle@,
            !(exact && re is None),
            out@.map_values(|f: Vec<u8>| f@) == fv.take(i as int).filter(|f: Seq<u8>| file_hits(f, needle@, exact, re is Some)),
        decreases files@.len() - i,
    {
        proof {
            assert(fv.take(i + 1).drop_last() =~= fv.take(i as int));
            assert(fv[i as int] == files@[i as int]@);
            reveal(Seq::filter);
        }
        let full = utf8_lossy(files[i].as_slice());
        let hit = if exact {
            match re {
                Some(p) => is_match(p, full.as_str()),
                None => false,
            }
        } else {
            match base_name(full.as_str()) {
                None => false,
                Some(b) => match re {
                    Some(p) => is_match(p, b.as_str()),
                    None => str_eq(b.as_str(), needle),
                },
            }
        };
        if hit {
            let c = copy_bytes(&files[i]);
            let ghost before = out@;
            out.push(c);
            proof {
                assert(out@.map_values(|f: Vec<u8>| f@) =~= before.map_values(|f: Vec<u8>| f@).push(c@));
            }
        }
        i = i + 1;
    }
    proof {
        assert(fv.take(files@.len() as int) =~= fv);
    }
    out
}

fn matches_in_db(db: &SyncDb, needle: &str, exact: bool, re: &Option<crate::operations::pattern::Pattern>) -> (r: Vec<FilePkg>)
    requires
        re matches Some(p) ==> p.src() == needle@,
    ensures
        file_pkgs_view(r@) == db_matches(*db, db.pkgs@, needle@, exact, re is Some),
{
    let mut out: Vec<FilePkg> = Vec::new();
    let mut k: usize = 0;
    while k < db.pkgs.len()
        invariant
            0 <= k <= db.pkgs@.len(),
            re matches Some(p) ==> p.src() == needle@,
            file_pkgs_view(out@) == db_matches(*db, db.pkgs@.take(k as int), needle@, exact, re is Some),
        decreases db.pkgs@.len() - k,
    {
        proof {
            assert(db.pkgs@.take(k + 1).drop_last() =~= db.pkgs@.take(k as int));
            assert(db.pkgs@.take(k + 1).last() == db.pkgs@[k as int]);
        }
        let p = &db.pkgs[k];
        let hits = hits_of(&p.files, needle, exact, re);
        if hits.len() > 0 {
            let fp = FilePkg { db: db.name.clone(), pkg: p.name.clone(), version: p.version.clone(), files: hits, exact_file: exact };
            let ghost before = out@;
            out.push(fp);
            proof {
                assert(file_pkgs_view(out@) =~= file_pkgs_view(before).push(file_pkg_view(fp)));
            }
        }
        k = k + 1;
    }
    proof {
        assert(db.pkgs@.take(db.pkgs@.len() as int) =~= db.pkgs@);
    }
    out
}

fn matches_in_dbs(dbs: &Vec<SyncDb>, needle: &str, exact: bool, re: &Option<crate::operations::pattern::Pattern>, out: &mut Vec<FilePkg>)
    requires
        re matches Some(p) ==> p.src() == needle@,
    ensures
        file_pkgs_view(final(out)@) == file_pkgs_view(old(out)@) + target_matches(dbs@, needle@, exact, re is Some),
{
    let ghost start = file_pkgs_view(out@);
    let mut i: usize = 0;
    while i < dbs.len()
        invariant
            0 <= i <= dbs@.len(),
            re matches Some(p) ==> p.src() == needle@,
            file_pkgs_view(out@) == start + target_matches(dbs@.take(i as int), needle@, exact, re is Some),
        decreases dbs@.len() - i,
    {
        proof {
            assert(dbs@.take(i + 1).drop_last() =~= dbs@.take(i as int));
            assert(dbs@.take(i + 1).last() == dbs@[i as int]);
        }
        let ms = matches_in_db(&dbs[i], needle, exact, re);
        let mut k: usize = 0;
        let ghost mid = file_pkgs_view(out@);
        let mut ms = ms;
        let ghost all = file_pkgs_view(ms@);
        while ms.len() > 0
            invariant
                ms@.len() <= all.len(),
                file_pkgs_view(ms@) == all.skip(all.len() - ms@.len()),
                file_pkgs_view(out@) == mid + all.take(all.len() - ms@.len()),
            decreases ms@.len(),
        {
            let ghost n = all.len() - ms@.len();
            let ghost ms0 = ms@;
            let e = ms.remove(0);
            let ghost before = out@;
            out.push(e);
            proof {
                assert(file_pkgs_view(ms0)[0] == all.skip(n)[0]);
                assert(file_pkg_view(e) == all[n]);
                assert(ms@ =~= ms0.skip(1));
                assert(file_pkgs_view(ms@) =~= file_pkgs_view(ms0).skip(1));
                assert(file_pkgs_view(ms@) =~= all.skip(n + 1));
                assert(file_pkgs_view(out@) =~= file_pkgs_view(before).push(file_pkg_view(e)));
                assert(all.take(n + 1) =~= all.take(n).push(all[n]));
            }
        }
        proof {
            assert(all.take(all.len() as int) =~= all);
        }
        i = i + 1;
    }
    proof {
        assert(dbs@.take(dbs@.len() as int) =~= dbs@);
    }
}

/// `-F`/`-Fx`: for each target in turn, the packages owning a matching path
/// (see [`pkg_hits`]); a target matching nowhere is reported, and an invalid
/// pattern stops the search there, keeping what was found.
pub fn files_search(args: &Args, dbs: &Vec<SyncDb>) -> (r: FilesReport)
    ensures
        ({
            let (ms, nf, rerr) = search_fold(dbs@, strings_view(args.targets@), args.regex);
            &&& r matches FilesReport::Search { machine, quiet, matches, error, regex_error } && machine == args.machinereadable && quiet == args.quiet
                && file_pkgs_view(matches@) == ms
                && (nf.len() == 0 ==> error is None)
                && (nf.len() > 0 ==> (error matches Some(e) && e@ == join(nf, ", "@)))
                && match rerr {
                    None => regex_error is None,
                    Some(m) => regex_error matches Some(x) && x@ == m,
                }
        }),
{
    let ghost tv = strings_view(args.targets@);
    let mut matches: Vec<FilePkg> = Vec::new();
    let mut not_found: Vec<String> = Vec::new();
    let mut regex_error: Option<String> = None;
    let mut i: usize = 0;
    while i < args.targets.len()
        invariant
            0 <= i <= args.targets@.len(),
            tv == strings_view(args.targets@),
            ({
                let st = search_fold(dbs@, tv.take(i as int), args.regex);
                &&& file_pkgs_view(matches@) == st.0
                &&& strings_view(not_found@) == st.1
                &&& match st.2 {
                    None => regex_error is None,
                    Some(m) => regex_error matches Some(x) && x@ == m,
                }
            }),
        decreases args.targets@.len() - i,
    {
        proof {
            assert(tv.take(i + 1).drop_last() =~= tv.take(i as int));
            assert(tv.take(i + 1).last() == args.targets@[i as int]@);
        }
        if regex_error.is_some() {
            i = i + 1;
            continue;
        }
        let target = args.targets[i].as_str();
        let tvv = chars_of(target);
        let exact = crate::text::range_contains(&tvv, 0, tvv.len(), '/');
        proof {
            assert(tvv@.subrange(0, tvv@.len() as int) =~= target@);
        }
        let needle = if exact {
            strip_leading_slashes(target)
        } else {
            to_owned(target)
        };
        let re = if args.regex {
            match compile(needle.as_str()) {
                Ok(p) => Some(p),
                Err(m) => {
                    regex_error = Some(m);
                    i = i + 1;
                    continue;
                },
            }
        } else {
            None
        };
        let before = matches.len();
        let ghost b0 = file_pkgs_view(matches@);
        matches_in_dbs(dbs, needle.as_str(), exact, &re, &mut matches);
        if matches.len() == before {
            let ghost nb = not_found@;
            not_found.push(args.targets[i].clone());
            proof {
                assert(strings_view(not_found@) =~= strings_view(nb).push(target@));
            }
        }
        proof {
            let ms = target_matches(dbs@, needle@, exact, args.regex);
            assert(file_pkgs_view(matches@) == b0 + ms);
            assert(b0.len() == before);
            assert(file_pkgs_view(matches@).len() == matches@.len());
            assert((matches@.len() == before) == (ms.len() == 0));
        }
        i = i + 1;
    }
    proof {
        assert(tv.take(args.targets@.len() as int) =~= tv);
    }
    let error = if not_found.len() > 0 {
        Some(join_strings(&not_found, ", "))
    } else {
        None
    };
    FilesReport::Search { machine: args.machinereadable, quiet: args.quiet, matches, error, regex_error }
}

/// Whether `-F` refreshes its databases first (`Some(force)`), or refuses
/// `--regex` with `--list`.
pub fn refresh_wanted(args: &Args) -> (r: Result<Option<bool>, MizError>)
    ensures
        args.list && args.regex ==> (r matches Err(MizError::BadArgs(m)) && m@ == "--regex cannot be used with --list"@),
        !(args.list && args.regex) ==> r == Ok::<Option<bool>, MizError>(if args.refresh > 0 {
            Some(args.refresh >= 2)
        } else {
            None
        }),
{
    if args.list && args.regex {
        return Err(MizError::BadArgs(to_owned("--regex cannot be used with --list")));
    }
    if args.refresh > 0 {
        Ok(Some(args.refresh >= 2))
    } else {
        Ok(None)
    }
}

/// `-F` once the databases are refreshed as asked: `--regex` with `--list`
/// is refused; `-Fl` lists; without targets a refresh alone reports nothing
/// and otherwise it is an error; else search.
pub fn run(args: &Args, dbs: &Vec<SyncDb>) -> (r: Result<FilesReport, MizError>)
    ensures
        args.list && args.regex ==> (r matches Err(MizError::BadArgs(m)) && m@ == "--regex cannot be used with --list"@),
        !(args.list && args.regex) && args.targets@.len() == 0 && !args.list && args.refresh == 0 ==> (r matches Err(MizError::BadArgs(m)) && m@ == "no targets specified"@),
        !(args.list && args.regex) && args.targets@.len() == 0 && !args.list && args.refresh > 0 ==> (r matches Ok(FilesReport::Search { machine, quiet, matches, error, regex_error })
            && machine == args.machinereadable && quiet == args.quiet && matches@.len() == 0 && error is None && regex_error is None),
        !(args.list && args.regex) && (args.list || args.targets@.len() > 0) ==> (r matches Ok(_)),
{
    if args.list && args.regex {
        return Err(MizError::BadArgs(to_owned("--regex cannot be used with --list")));
    }
    if args.list {
        return Ok(files_list(args, dbs));
    }
    if args.targets.len() == 0 {
        if args.refresh > 0 {
            return Ok(FilesReport::Search { machine: args.machinereadable, quiet: args.quiet, matches: Vec::new(), error: None, regex_error: None });
        }
        return Err(MizError::BadArgs(to_owned("no targets specified")));
    }
    Ok(files_search(args, dbs))
}

} // verus!
