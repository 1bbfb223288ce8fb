//! `-Ss`, `-Sl`, `-Sg` and `-Si`: searching and listing the sync databases,
//! on what libalpm reports of each database, its packages and its groups.
use crate::common::fmt::{date_text, format_date, format_size, join, join_strings, size_text, strings_view};
use crate::common::imagedb::pairs_view;
use crate::images::format::{pad_right, push_key_padded, text_or_none};
use crate::operations::local::{format_validation, list_none, or_none, validation_text};
use crate::operations::query::{backup_lines, list_or_none, optdeps_sep};
use crate::operations::sync::{repo_split, split_repo_target};
use crate::error::MizError;
use crate::operations::pattern::{compile, is_match, regex_error, regex_match, Pattern};
use crate::operations::query::set_contains;
use crate::params::sync::Params as Args;
use crate::report::SyncReport;
use crate::text::{opt_str, push_str, to_owned};
use vstd::prelude::*;

verus! {

/// A sync-database package, as `-Ss` and `-Si` read it.
pub struct RepoPkg {
    pub name: String,
    pub version: String,
    pub desc: Option<String>,
    pub arch: Option<String>,
    pub url: Option<String>,
    pub licenses: Vec<String>,
    pub groups: Vec<String>,
    /// Dependency lists, each entry as its dependency string.
    pub provides: Vec<String>,
    pub depends: Vec<String>,
    pub optdepends: Vec<String>,
    pub conflicts: Vec<String>,
    pub replaces: Vec<String>,
    /// The download size.
    pub size: i64,
    pub isize: i64,
    pub packager: Option<String>,
    pub build_date: i64,
    /// libalpm's validation bits.
    pub validation: u32,
    /// `(path, hash)` backup entries.
    pub backup: Vec<(String, String)>,
}

/// A package group of a sync database and its members' names.
pub struct RepoGroup {
    pub name: String,
    pub packages: Vec<String>,
}

/// A sync database, its packages in its order, and its groups (`None`
/// when libalpm could not list them).
pub struct RepoDb {
    pub name: String,
    pub pkgs: Vec<RepoPkg>,
    pub groups: Option<Vec<RepoGroup>>,
}

/// ` [installed]` for an installed package, else nothing.
pub open spec fn installed_suffix(installed: Seq<Seq<char>>, name: Seq<char>) -> Seq<char> {
    if installed.contains(name) {
        " [installed]"@
    } else {
        seq![]
    }
}

fn suffix_of(installed: &Vec<String>, name: &str) -> (r: &'static str)
    ensures
        r@ == installed_suffix(strings_view(installed@), name@),
{
    proof {
        reveal_strlit(" [installed]");
        reveal_strlit("");
    }
    if set_contains(installed, name) {
        " [installed]"
    } else {
        ""
    }
}

// ---------------------------------------------------------------------------
// -Ss
// ---------------------------------------------------------------------------

/// The description, or nothing.
pub open spec fn desc_text(d: Option<String>) -> Seq<char> {
    match d {
        Some(x) => x@,
        None => seq![],
    }
}

/// Whether the pattern matches the package's name or its description.
pub open spec fn search_hit(pattern: Seq<char>, p: RepoPkg) -> bool {
    regex_match(pattern, p.name@) || match p.desc {
        Some(d) => regex_match(pattern, d@),
        None => false,
    }
}

/// The `-Ss` lines of one database's packages: the name alone when quiet,
/// else `repo/name version` (and ` [installed]`) and the indented
/// description.
pub open spec fn search_db_lines(pattern: Seq<char>, db: Seq<char>, pkgs: Seq<RepoPkg>, installed: Seq<Seq<char>>, quiet: bool) -> Seq<Seq<char>>
    decreases pkgs.len(),
{
    if pkgs.len() == 0 {
        seq![]
    } else {
        let r = search_db_lines(pattern, db, pkgs.drop_last(), installed, quiet);
        let p = pkgs.last();
        if !search_hit(pattern, p) {
            r
        } else if quiet {
            r.push(p.name@)
        } else {
            r.push(db + "/"@ + p.name@ + " "@ + p.version@ + installed_suffix(installed, p.name@)).push(
                "    "@ + desc_text(p.desc),
            )
        }
    }
}

/// The `-Ss` lines over every database, in order.
pub open spec fn search_lines(pattern: Seq<char>, dbs: Seq<RepoDb>, installed: Seq<Seq<char>>, quiet: bool) -> Seq<Seq<char>>
    decreases dbs.len(),
{
    if dbs.len() == 0 {
        seq![]
    } else {
        search_lines(pattern, dbs.drop_last(), installed, quiet) + search_db_lines(
            pattern,
            dbs.last().name@,
            dbs.last().pkgs@,
            installed,
            quiet,
        )
    }
}

fn search_db(re: &Pattern, db: &RepoDb, installed: &Vec<String>, quiet: bool, lines: &mut Vec<String>)
    ensures
        strings_view(final(lines)@) == strings_view(old(lines)@) + search_db_lines(
            re.src(),
            db.name@,
            db.pkgs@,
            strings_view(installed@),
            quiet,
        ),
{
    let ghost start = strings_view(lines@);
    let ghost iv = strings_view(installed@);
    let mut i: usize = 0;
    while i < db.pkgs.len()
        invariant
            0 <= i <= db.pkgs@.len(),
            iv == strings_view(installed@),
            strings_view(lines@) == start + search_db_lines(re.src(), db.name@, db.pkgs@.take(i as int), iv, quiet),
        decreases db.pkgs@.len() - i,
    {
        let p = &db.pkgs[i];
        proof {
            assert(db.pkgs@.take(i + 1).drop_last() =~= db.pkgs@.take(i as int));
            assert(db.pkgs@.take(i + 1).last() == *p);
        }
        let name_match = is_match(re, p.name.as_str());
        let desc_match = match &p.desc {
            Some(d) => is_match(re, d.as_str()),
            None => false,
        };
        if name_match || desc_match {
            let ghost before = strings_view(lines@);
            if quiet {
                lines.push(p.name.clone());
                proof {
                    assert(strings_view(lines@) =~= before.push(p.name@));
                }
            } else {
                let mut l = db.name.clone();
                push_str(&mut l, "/");
                push_str(&mut l, p.name.as_str());
                push_str(&mut l, " ");
                push_str(&mut l, p.version.as_str());
                push_str(&mut l, suffix_of(installed, p.name.as_str()));
                let mut d = to_owned("    ");
                match &p.desc {
                    Some(x) => push_str(&mut d, x.as_str()),
                    None => {},
                }
                lines.push(l);
                lines.push(d);
                proof {
                    assert(d@ == "    "@ + desc_text(p.desc));
                    assert(strings_view(lines@) =~= before.push(l@).push(d@));
                }
            }
        }
        i = i + 1;
    }
    proof {
        assert(db.pkgs@.take(db.pkgs@.len() as int) =~= db.pkgs@);
    }
}

/// `-Ss pattern`: the packages of every database whose name or description
/// the regular expression matches; an invalid pattern is an error.
pub fn sync_search(args: &Args, pattern: &str, dbs: &Vec<RepoDb>, installed: &Vec<String>) -> (r: Result<SyncReport, MizError>)
    ensures
        match regex_error(pattern@) {
            Some(m) => r matches Err(MizError::Regex(x)) && x@ == m,
            None => r matches Ok(SyncReport::Search { lines }) && strings_view(lines@) == search_lines(
                pattern@,
                dbs@,
                strings_view(installed@),
                args.quiet,
            ),
        },
{
    let re = match compile(pattern) {
        Ok(re) => re,
        Err(m) => {
            return Err(MizError::Regex(m));
        },
    };
    let mut lines: Vec<String> = Vec::new();
    let mut i: usize = 0;
    while i < dbs.len()
        invariant
            0 <= i <= dbs@.len(),
            re.src() == pattern@,
            strings_view(lines@) == search_lines(pattern@, dbs@.take(i as int), strings_view(installed@), args.quiet),
        decreases dbs@.len() - i,
    {
        proof {
            assert(dbs@.take(i + 1).drop_last() =~= dbs@.take(i as int));
        }
        search_db(&re, &dbs[i], installed, args.quiet, &mut lines);
        i = i + 1;
    }
    proof {
        assert(dbs@.take(dbs@.len() as int) =~= dbs@);
    }
    Ok(SyncReport::Search { lines })
}

// ---------------------------------------------------------------------------
// -Sl
// ---------------------------------------------------------------------------

/// One `-Sl` line: the name alone when quiet, else `repo name version` and
/// ` [installed]`.
pub open spec fn list_line(db: Seq<char>, p: RepoPkg, installed: Seq<Seq<char>>, quiet: bool) -> Seq<char> {
    if quiet {
        p.name@
    } else {
        db + " "@ + p.name@ + " "@ + p.version@ + installed_suffix(installed, p.name@)
    }
}

/// The `-Sl` lines of the given databases, in order.
pub open spec fn list_lines(dbs: Seq<RepoDb>, installed: Seq<Seq<char>>, quiet: bool) -> Seq<Seq<char>>
    decreases dbs.len(),
{
    if dbs.len() == 0 {
        seq![]
    } else {
        let db = dbs.last();
        list_lines(dbs.drop_last(), installed, quiet) + db.pkgs@.map_values(|p: RepoPkg| list_line(db.name@, p, installed, quiet))
    }
}

/// The first database named `name`.
pub open spec fn db_named(dbs: Seq<RepoDb>, name: Seq<char>) -> Option<RepoDb>
    decreases dbs.len(),
{
    if dbs.len() == 0 {
        None
    } else if dbs[0].name@ == name {
        Some(dbs[0])
    } else {
        db_named(dbs.drop_first(), name)
    }
}

/// The databases the targets name, in the targets' order, or the first
/// target that names none.
pub open spec fn named_dbs(dbs: Seq<RepoDb>, targets: Seq<Seq<char>>) -> Result<Seq<RepoDb>, Seq<char>>
    decreases targets.len(),
{
    if targets.len() == 0 {
        Ok(seq![])
    } else {
        match named_dbs(dbs, targets.drop_last()) {
            Err(t) => Err(t),
            Ok(found) => match db_named(dbs, targets.last()) {
                Some(db) => Ok(found.push(db)),
                None => Err(targets.last()),
            },
        }
    }
}

proof fn lemma_named_dbs_prefix(dbs: Seq<RepoDb>, targets: Seq<Seq<char>>, n: int)
    requires
        0 <= n <= targets.len(),
        named_dbs(dbs, targets.take(n)) is Err,
    ensures
        named_dbs(dbs, targets) == named_dbs(dbs, targets.take(n)),
    decreases targets.len(),
{
    if n == targets.len() {
        assert(targets.take(n) =~= targets);
    } else {
        let d = targets.drop_last();
        assert(d.take(n) =~= targets.take(n));
        lemma_named_dbs_prefix(dbs, d, n);
    }
}

fn find_db<'a>(dbs: &'a Vec<RepoDb>, name: &str) -> (r: Option<&'a RepoDb>)
    ensures
        match r {
            Some(db) => db_named(dbs@, name@) == Some(*db),
            None => db_named(dbs@, name@) is None,
        },
{
    let mut i: usize = 0;
    proof {
        assert(dbs@.skip(0) =~= dbs@);
    }
    while i < dbs.len()
        invariant
            0 <= i <= dbs@.len(),
            db_named(dbs@, name@) == db_named(dbs@.skip(i as int), name@),
        decreases dbs@.len() - i,
    {
        proof {
            assert(dbs@.skip(i as int).drop_first() =~= dbs@.skip(i + 1));
            assert(dbs@.skip(i as int)[0] == dbs@[i as int]);
        }
        if crate::text::str_eq(dbs[i].name.as_str(), name) {
            return Some(&dbs[i]);
        }
        i = i + 1;
    }
    None
}

fn list_db(db: &RepoDb, installed: &Vec<String>, quiet: bool, lines: &mut Vec<String>)
    ensures
        strings_view(final(lines)@) == strings_view(old(lines)@) + db.pkgs@.map_values(
            |p: RepoPkg| list_line(db.name@, p, strings_view(installed@), quiet),
        ),
{
    let ghost start = strings_view(lines@);
    let ghost iv = strings_view(installed@);
    let mut i: usize = 0;
    while i < db.pkgs.len()
        invariant
            0 <= i <= db.pkgs@.len(),
            iv == strings_view(installed@),
            strings_view(lines@) == start + db.pkgs@.take(i as int).map_values(|p: RepoPkg| list_line(db.name@, p, iv, quiet)),
        decreases db.pkgs@.len() - i,
    {
        let p = &db.pkgs[i];
        let ghost before = strings_view(lines@);
        if quiet {
            lines.push(p.name.clone());
        } else {
            let mut l = db.name.clone();
            push_str(&mut l, " ");
            push_str(&mut l, p.name.as_str());
            push_str(&mut l, " ");
            push_str(&mut l, p.version.as_str());
            push_str(&mut l, suffix_of(installed, p.name.as_str()));
            lines.push(l);
        }
        proof {
            assert(strings_view(lines@) =~= before.push(list_line(db.name@, *p, iv, quiet)));
            assert(db.pkgs@.take(i + 1).map_values(|p: RepoPkg| list_line(db.name@, p, iv, quiet)) =~= db.pkgs@.take(
                i as int,
            ).map_values(|p: RepoPkg| list_line(db.name@, p, iv, quiet)).push(list_line(db.name@, *p, iv, quiet)));
        }
        i = i + 1;
    }
    proof {
        assert(db.pkgs@.take(db.pkgs@.len() as int) =~= db.pkgs@);
    }
}

/// `r` is a listing with these lines, diagnostics and error.
pub open spec fn listing_is(r: SyncReport, ls: Seq<Seq<char>>, ds: Seq<Seq<char>>, e: Option<Seq<char>>) -> bool {
    match r {
        SyncReport::Listing { lines, diagnostics, error } => {
            &&& strings_view(lines@) == ls
            &&& strings_view(diagnostics@) == ds
            &&& crate::text::opt_string(error) == e
        },
        _ => false,
    }
}

/// The diagnostic for a repository that is not there.
pub open spec fn repo_missing_line(name: Seq<char>) -> Seq<char> {
    "repository '"@ + name + "' was not found"@
}

/// `-Sl [repo...]`: every package of the named databases (all of them when
/// none is named); the first name that matches no database ends the
/// listing with nothing listed and that name as the error.
pub fn sync_list(args: &Args, dbs: &Vec<RepoDb>, installed: &Vec<String>) -> (r: SyncReport)
    ensures
        args.targets@.len() == 0 ==> listing_is(r, list_lines(dbs@, strings_view(installed@), args.quiet), seq![], None),
        args.targets@.len() > 0 ==> match named_dbs(dbs@, strings_view(args.targets@)) {
            Ok(found) => listing_is(r, list_lines(found, strings_view(installed@), args.quiet), seq![], None),
            Err(t) => listing_is(r, seq![], seq![repo_missing_line(t)], Some(t)),
        },
{
    let ghost iv = strings_view(installed@);
    let mut lines: Vec<String> = Vec::new();
    if args.targets.len() == 0 {
        let mut i: usize = 0;
        while i < dbs.len()
            invariant
                0 <= i <= dbs@.len(),
                iv == strings_view(installed@),
                strings_view(lines@) == list_lines(dbs@.take(i as int), iv, args.quiet),
            decreases dbs@.len() - i,
        {
            proof {
                assert(dbs@.take(i + 1).drop_last() =~= dbs@.take(i as int));
            }
            list_db(&dbs[i], installed, args.quiet, &mut lines);
            i = i + 1;
        }
        proof {
            assert(dbs@.take(dbs@.len() as int) =~= dbs@);
        }
        let diagnostics: Vec<String> = Vec::new();
        proof {
            assert(strings_view(diagnostics@) =~= seq![]);
        }
        return SyncReport::Listing { lines, diagnostics, error: None };
    }
    let ghost ts = strings_view(args.targets@);
    let ghost mut found: Seq<RepoDb> = seq![];
    let mut i: usize = 0;
    while i < args.targets.len()
        invariant
            0 <= i <= args.targets@.len(),
            iv == strings_view(installed@),
            ts == strings_view(args.targets@),
            named_dbs(dbs@, ts.take(i as int)) == Ok::<Seq<RepoDb>, Seq<char>>(found),
            strings_view(lines@) == list_lines(found, iv, args.quiet),
        decreases args.targets@.len() - i,
    {
        let name = &args.targets[i];
        proof {
            assert(ts.take(i + 1).drop_last() =~= ts.take(i as int));
            assert(ts.take(i + 1).last() == name@);
        }
        match find_db(dbs, name.as_str()) {
            Some(db) => {
                list_db(db, installed, args.quiet, &mut lines);
                proof {
                    assert(found.push(*db).drop_last() =~= found);
                    found = found.push(*db);
                }
            },
            None => {
                proof {
                    lemma_named_dbs_prefix(dbs@, ts, i + 1);
                    reveal_strlit("repository '");
                    reveal_strlit("' was not found");
                }
                let mut m = to_owned("repository '");
                push_str(&mut m, name.as_str());
                push_str(&mut m, "' was not found");
                let mut diagnostics: Vec<String> = Vec::new();
                diagnostics.push(m);
                proof {
                    assert(strings_view(diagnostics@) =~= seq![repo_missing_line(name@)]);
                }
                let none: Vec<String> = Vec::new();
                proof {
                    assert(strings_view(none@) =~= seq![]);
                }
                return SyncReport::Listing { lines: none, diagnostics, error: Some(name.clone()) };
            },
        }
        i = i + 1;
    }
    proof {
        assert(ts.take(ts.len() as int) =~= ts);
    }
    let diagnostics: Vec<String> = Vec::new();
    proof {
        assert(strings_view(diagnostics@) =~= seq![]);
    }
    SyncReport::Listing { lines, diagnostics, error: None }
}

// ---------------------------------------------------------------------------
// -Sg
// ---------------------------------------------------------------------------

/// The first group of `gs` named `name`.
pub open spec fn group_named(gs: Seq<RepoGroup>, name: Seq<char>) -> Option<RepoGroup>
    decreases gs.len(),
{
    if gs.len() == 0 {
        None
    } else if gs[0].name@ == name {
        Some(gs[0])
    } else {
        group_named(gs.drop_first(), name)
    }
}

/// The group of `db` named `name`, if its groups could be listed.
pub open spec fn group_of(db: RepoDb, name: Seq<char>) -> Option<RepoGroup> {
    match db.groups {
        Some(gs) => group_named(gs@, name),
        None => None,
    }
}

/// The names of the groups of `db` (none when they could not be listed).
pub open spec fn db_group_names(db: RepoDb) -> Seq<Seq<char>> {
    match db.groups {
        Some(gs) => gs@.map_values(|g: RepoGroup| g.name@),
        None => seq![],
    }
}

/// `seen` followed by each of `names` not seen before, in order.
pub open spec fn add_unseen(seen: Seq<Seq<char>>, names: Seq<Seq<char>>) -> Seq<Seq<char>>
    decreases names.len(),
{
    if names.len() == 0 {
        seen
    } else {
        let r = add_unseen(seen, names.drop_last());
        if r.contains(names.last()) {
            r
        } else {
            r.push(names.last())
        }
    }
}

/// Every group name of every database, each once, in first-seen order.
pub open spec fn all_groups(dbs: Seq<RepoDb>) -> Seq<Seq<char>>
    decreases dbs.len(),
{
    if dbs.len() == 0 {
        seq![]
    } else {
        add_unseen(all_groups(dbs.drop_last()), db_group_names(dbs.last()))
    }
}

/// The lines for the members of group `t`: the name alone when quiet, else
/// `group name`.
pub open spec fn member_lines(t: Seq<char>, members: Seq<Seq<char>>, quiet: bool) -> Seq<Seq<char>> {
    members.map_values(|m: Seq<char>| if quiet {
        m
    } else {
        t + " "@ + m
    })
}

/// The member lines of group `t` in every database that has it, in order.
pub open spec fn group_lines(dbs: Seq<RepoDb>, t: Seq<char>, quiet: bool) -> Seq<Seq<char>>
    decreases dbs.len(),
{
    if dbs.len() == 0 {
        seq![]
    } else {
        group_lines(dbs.drop_last(), t, quiet) + match group_of(dbs.last(), t) {
            Some(g) => member_lines(t, strings_view(g.packages@), quiet),
            None => seq![],
        }
    }
}

/// Whether some database has group `t`.
pub open spec fn group_found(dbs: Seq<RepoDb>, t: Seq<char>) -> bool {
    exists|i: int| 0 <= i < dbs.len() && (#[trigger] group_of(dbs[i], t)) is Some
}

/// The diagnostic for a group that is not there.
pub open spec fn group_missing_line(t: Seq<char>) -> Seq<char> {
    "group '"@ + t + "' was not found"@
}

/// The lines and diagnostics of `-Sg target...`, in the targets' order.
pub open spec fn groups_scan(dbs: Seq<RepoDb>, ts: Seq<Seq<char>>, quiet: bool) -> (Seq<Seq<char>>, Seq<Seq<char>>)
    decreases ts.len(),
{
    if ts.len() == 0 {
        (seq![], seq![])
    } else {
        let (ls, ds) = groups_scan(dbs, ts.drop_last(), quiet);
        let t = ts.last();
        (ls + group_lines(dbs, t, quiet), if group_found(dbs, t) {
            ds
        } else {
            ds.push(group_missing_line(t))
        })
    }
}

/// The error of a sweep with missing targets: all targets, comma-joined.
pub open spec fn sweep_error(ts: Seq<Seq<char>>, ds: Seq<Seq<char>>) -> Option<Seq<char>> {
    if ds.len() == 0 {
        None
    } else {
        Some(join(ts, ", "@))
    }
}

fn find_group<'a>(db: &'a RepoDb, name: &str) -> (r: Option<&'a RepoGroup>)
    ensures
        match r {
            Some(g) => group_of(*db, name@) == Some(*g),
            None => group_of(*db, name@) is None,
        },
{
    match &db.groups {
        None => None,
        Some(gs) => {
            let mut i: usize = 0;
            proof {
                assert(gs@.skip(0) =~= gs@);
            }
            while i < gs.len()
                invariant
                    0 <= i <= gs@.len(),
                    db.groups == Some(*gs),
                    group_named(gs@, name@) == group_named(gs@.skip(i as int), name@),
                decreases gs@.len() - i,
            {
                proof {
                    assert(gs@.skip(i as int).drop_first() =~= gs@.skip(i + 1));
                    assert(gs@.skip(i as int)[0] == gs@[i as int]);
                }
                if crate::text::str_eq(gs[i].name.as_str(), name) {
                    proof {
                        assert(group_named(gs@.skip(i as int), name@) == Some(gs@[i as int]));
                    }
                    return Some(&gs[i]);
                }
                i = i + 1;
            }
            None
        },
    }
}

fn push_members(t: &str, g: &RepoGroup, quiet: bool, lines: &mut Vec<String>)
    ensures
        strings_view(final(lines)@) == strings_view(old(lines)@) + member_lines(t@, strings_view(g.packages@), quiet),
{
    let ghost start = strings_view(lines@);
    let ghost ms = strings_view(g.packages@);
    let mut i: usize = 0;
    while i < g.packages.len()
        invariant
            0 <= i <= g.packages@.len(),
            ms == strings_view(g.packages@),
            strings_view(lines@) == start + member_lines(t@, ms.take(i as int), quiet),
        decreases g.packages@.len() - i,
    {
        let ghost before = strings_view(lines@);
        if quiet {
            lines.push(g.packages[i].clone());
        } else {
            let mut l = to_owned(t);
            push_str(&mut l, " ");
            push_str(&mut l, g.packages[i].as_str());
            lines.push(l);
        }
        proof {
            let m = ms[i as int];
            assert(m == g.packages@[i as int]@);
            assert(ms.take(i + 1) =~= ms.take(i as int).push(m));
            assert(member_lines(t@, ms.take(i + 1), quiet) =~= member_lines(t@, ms.take(i as int), quiet).push(
                if quiet {
                    m
                } else {
                    t@ + " "@ + m
                },
            ));
            assert(strings_view(lines@) =~= before.push(if quiet {
                m
            } else {
                t@ + " "@ + m
            }));
        }
        i = i + 1;
    }
    proof {
        assert(ms.take(ms.len() as int) =~= ms);
    }
}

fn all_group_names(dbs: &Vec<RepoDb>) -> (r: Vec<String>)
    ensures
        strings_view(r@) == all_groups(dbs@),
{
    let mut seen: Vec<String> = Vec::new();
    let mut i: usize = 0;
    while i < dbs.len()
        invariant
            0 <= i <= dbs@.len(),
            strings_view(seen@) == all_groups(dbs@.take(i as int)),
        decreases dbs@.len() - i,
    {
        let db = &dbs[i];
        proof {
            assert(dbs@.take(i + 1).drop_last() =~= dbs@.take(i as int));
            assert(dbs@.take(i + 1).last() == *db);
        }
        let ghost base = strings_view(seen@);
        match &db.groups {
            None => {
                proof {
                    assert(add_unseen(base, seq![]) == base);
                }
            },
            Some(gs) => {
                let ghost names = gs@.map_values(|g: RepoGroup| g.name@);
                let mut j: usize = 0;
                while j < gs.len()
                    invariant
                        0 <= j <= gs@.len(),
                        names == gs@.map_values(|g: RepoGroup| g.name@),
                        strings_view(seen@) == add_unseen(base, names.take(j as int)),
                    decreases gs@.len() - j,
                {
                    proof {
                        assert(names.take(j + 1).drop_last() =~= names.take(j as int));
                        assert(names.take(j + 1).last() == gs@[j as int].name@);
                    }
                    if !set_contains(&seen, gs[j].name.as_str()) {
                        let ghost before = strings_view(seen@);
                        seen.push(gs[j].name.clone());
                        proof {
                            assert(strings_view(seen@) =~= before.push(gs@[j as int].name@));
                        }
                    }
                    j = j + 1;
                }
                proof {
                    assert(names.take(gs@.len() as int) =~= names);
                }
            },
        }
        i = i + 1;
    }
    proof {
        assert(dbs@.take(dbs@.len() as int) =~= dbs@);
    }
    seen
}

/// `-Sg [group...]`: with no target, every group name once; else each
/// target's members in every database that has the group, and a diagnostic
/// for each group found nowhere.
pub fn sync_groups(args: &Args, dbs: &Vec<RepoDb>) -> (r: SyncReport)
    ensures
        args.targets@.len() == 0 ==> listing_is(r, all_groups(dbs@), seq![], None),
        args.targets@.len() > 0 ==> ({
            let (ls, ds) = groups_scan(dbs@, strings_view(args.targets@), args.quiet);
            listing_is(r, ls, ds, sweep_error(strings_view(args.targets@), ds))
        }),
{
    if args.targets.len() == 0 {
        let lines = all_group_names(dbs);
        let diagnostics: Vec<String> = Vec::new();
        proof {
            assert(strings_view(diagnostics@) =~= seq![]);
        }
        return SyncReport::Listing { lines, diagnostics, error: None };
    }
    let ghost ts = strings_view(args.targets@);
    let mut lines: Vec<String> = Vec::new();
    let mut diagnostics: Vec<String> = Vec::new();
    let mut i: usize = 0;
    while i < args.targets.len()
        invariant
            0 <= i <= args.targets@.len(),
            ts == strings_view(args.targets@),
            (strings_view(lines@), strings_view(diagnostics@)) == groups_scan(dbs@, ts.take(i as int), args.quiet),
        decreases args.targets@.len() - i,
    {
        let name = &args.targets[i];
        proof {
            assert(ts.take(i + 1).drop_last() =~= ts.take(i as int));
            assert(ts.take(i + 1).last() == name@);
        }
        let ghost l0 = strings_view(lines@);
        let mut found = false;
        let mut k: usize = 0;
        while k < dbs.len()
            invariant
                0 <= k <= dbs@.len(),
                strings_view(lines@) == l0 + group_lines(dbs@.take(k as int), name@, args.quiet),
                found == exists|j: int| 0 <= j < k && (#[trigger] group_of(dbs@[j], name@)) is Some,
            decreases dbs@.len() - k,
        {
            proof {
                assert(dbs@.take(k + 1).drop_last() =~= dbs@.take(k as int));
                assert(dbs@.take(k + 1).last() == dbs@[k as int]);
            }
            match find_group(&dbs[k], name.as_str()) {
                Some(g) => {
                    let ghost before = strings_view(lines@);
                    push_members(name.as_str(), g, args.quiet, &mut lines);
                    found = true;
                    proof {
                        assert(strings_view(lines@) =~= l0 + group_lines(dbs@.take(k + 1), name@, args.quiet));
                    }
                },
                None => {
                    proof {
                        assert(group_lines(dbs@.take(k + 1), name@, args.quiet) =~= group_lines(dbs@.take(k as int), name@, args.quiet));
                    }
                },
            }
            k = k + 1;
        }
        proof {
            assert(dbs@.take(dbs@.len() as int) =~= dbs@);
            if found {
                let j = choose|j: int| 0 <= j < dbs@.len() && (#[trigger] group_of(dbs@[j], name@)) is Some;
                assert(group_of(dbs@[j], name@) is Some);
            }
            if group_found(dbs@, name@) {
                let j = choose|j: int| 0 <= j < dbs@.len() && (#[trigger] group_of(dbs@[j], name@)) is Some;
                assert(group_of(dbs@[j], name@) is Some);
            }
        }
        if !found {
            proof {
                reveal_strlit("group '");
                reveal_strlit("' was not found");
            }
            let mut m = to_owned("group '");
            push_str(&mut m, name.as_str());
            push_str(&mut m, "' was not found");
            let ghost before = strings_view(diagnostics@);
            diagnostics.push(m);
            proof {
                assert(strings_view(diagnostics@) =~= before.push(group_missing_line(name@)));
            }
        }
        i = i + 1;
    }
    proof {
        assert(ts.take(ts.len() as int) =~= ts);
    }
    let error = if diagnostics.len() == 0 {
        None
    } else {
        Some(join_strings(&args.targets, ", "))
    };
    SyncReport::Listing { lines, diagnostics, error }
}

// ---------------------------------------------------------------------------
// -Si
// ---------------------------------------------------------------------------

/// One `{key:<19}: {value}` line.
pub open spec fn label_line(key: Seq<char>, value: Seq<char>) -> Seq<char> {
    pad_right(key, 19) + ": "@ + value
}

pub open spec fn label_lines(ls: Seq<(Seq<char>, Seq<char>)>) -> Seq<Seq<char>> {
    ls.map_values(|e: (Seq<char>, Seq<char>)| label_line(e.0, e.1))
}

/// The `-Si` label fields of a sync package of database `db`.
pub open spec fn repo_labels(db: Seq<char>, p: RepoPkg) -> Seq<(Seq<char>, Seq<char>)> {
    seq![
        ("Repository"@, db),
        ("Name"@, p.name@),
        ("Version"@, p.version@),
        ("Description"@, text_or_none(p.desc)),
        ("Architecture"@, text_or_none(p.arch)),
        ("URL"@, text_or_none(p.url)),
        ("Licenses"@, list_or_none(strings_view(p.licenses@))),
        ("Groups"@, list_or_none(strings_view(p.groups@))),
        ("Provides"@, list_or_none(strings_view(p.provides@))),
        ("Depends On"@, list_or_none(strings_view(p.depends@))),
        ("Optional Deps"@, if p.optdepends@.len() == 0 {
            "None"@
        } else {
            join(strings_view(p.optdepends@), optdeps_sep())
        }),
        ("Conflicts With"@, list_or_none(strings_view(p.conflicts@))),
        ("Replaces"@, list_or_none(strings_view(p.replaces@))),
        ("Download Size"@, size_text(p.size as int)),
        ("Installed Size"@, size_text(p.isize as int)),
        ("Packager"@, text_or_none(p.packager)),
        ("Build Date"@, date_text(p.build_date as int)),
        ("Validated By"@, validation_text(p.validation)),
    ]
}

/// With `-Sii`, the backup listing: a `None` label when there is none, else
/// a header and one `path<TAB>hash` line each.
pub open spec fn backup_part(level: u8, b: Seq<(Seq<char>, Seq<char>)>) -> Seq<Seq<char>> {
    if level < 2 {
        seq![]
    } else if b.len() == 0 {
        seq![label_line("Backup Files"@, "None"@)]
    } else {
        seq!["Backup Files       :"@] + backup_lines(b)
    }
}

/// The `-Si` lines of one package, ending in an empty line.
pub open spec fn info_lines(db: Seq<char>, p: RepoPkg, level: u8) -> Seq<Seq<char>> {
    label_lines(repo_labels(db, p)) + backup_part(level, pairs_view(p.backup@)) + seq![seq![]]
}

/// The `-Si` lines of packages of database `db`, in order.
pub open spec fn db_info_lines(db: Seq<char>, ps: Seq<RepoPkg>, level: u8) -> Seq<Seq<char>>
    decreases ps.len(),
{
    if ps.len() == 0 {
        seq![]
    } else {
        db_info_lines(db, ps.drop_last(), level) + info_lines(db, ps.last(), level)
    }
}

/// The `-Si` lines of every package of every database.
pub open spec fn all_info_lines(dbs: Seq<RepoDb>, level: u8) -> Seq<Seq<char>>
    decreases dbs.len(),
{
    if dbs.len() == 0 {
        seq![]
    } else {
        all_info_lines(dbs.drop_last(), level) + db_info_lines(dbs.last().name@, dbs.last().pkgs@, level)
    }
}

/// The first package of `ps` named `name`.
pub open spec fn repo_pkg_named(ps: Seq<RepoPkg>, name: Seq<char>) -> Option<RepoPkg>
    decreases ps.len(),
{
    if ps.len() == 0 {
        None
    } else if ps[0].name@ == name {
        Some(ps[0])
    } else {
        repo_pkg_named(ps.drop_first(), name)
    }
}

/// The package a `-Si` target names: in the first database (the named one,
/// if given) that has it.
pub open spec fn info_lookup(dbs: Seq<RepoDb>, repo: Option<Seq<char>>, name: Seq<char>) -> Option<(RepoDb, RepoPkg)>
    decreases dbs.len(),
{
    if dbs.len() == 0 {
        None
    } else {
        let db = dbs[0];
        let eligible = match repo {
            Some(r) => db.name@ == r,
            None => true,
        };
        if eligible && repo_pkg_named(db.pkgs@, name) is Some {
            Some((db, repo_pkg_named(db.pkgs@, name)->0))
        } else {
            info_lookup(dbs.drop_first(), repo, name)
        }
    }
}

/// The diagnostic for a package that is not there.
pub open spec fn pkg_missing_line(t: Seq<char>) -> Seq<char> {
    "package '"@ + t + "' was not found"@
}

/// The lines and diagnostics of `-Si target...`, in the targets' order.
pub open spec fn info_scan(dbs: Seq<RepoDb>, ts: Seq<Seq<char>>, level: u8) -> (Seq<Seq<char>>, Seq<Seq<char>>)
    decreases ts.len(),
{
    if ts.len() == 0 {
        (seq![], seq![])
    } else {
        let (ls, ds) = info_scan(dbs, ts.drop_last(), level);
        let t = ts.last();
        match info_lookup(dbs, repo_split(t).0, repo_split(t).1) {
            Some((db, p)) => (ls + info_lines(db.name@, p, level), ds),
            None => (ls, ds.push(pkg_missing_line(t))),
        }
    }
}

fn push_label(
    lines: &mut Vec<String>,
    start: Ghost<Seq<Seq<char>>>,
    ls: Ghost<Seq<(Seq<char>, Seq<char>)>>,
    key: &str,
    value: &str,
) -> (r: Ghost<Seq<(Seq<char>, Seq<char>)>>)
    requires
        strings_view(old(lines)@) == start@ + label_lines(ls@),
    ensures
        strings_view(final(lines)@) == start@ + label_lines(r@),
        r@ == ls@.push((key@, value@)),
{
    let mut l = String::new();
    push_key_padded(&mut l, key);
    push_str(&mut l, ": ");
    push_str(&mut l, value);
    let ghost before = lines@;
    lines.push(l);
    proof {
        assert(l@ =~= label_line(key@, value@));
        assert(label_lines(ls@.push((key@, value@))) =~= label_lines(ls@).push(label_line(key@, value@)));
        assert(strings_view(lines@) =~= strings_view(before).push(l@));
    }
    Ghost(ls@.push((key@, value@)))
}

#[verifier::spinoff_prover]
#[verifier::rlimit(80)]
fn push_labels(lines: &mut Vec<String>, db: &str, p: &RepoPkg)
    ensures
        strings_view(final(lines)@) == strings_view(old(lines)@) + label_lines(repo_labels(db@, *p)),
{
    let ghost start = strings_view(lines@);
    let s = Ghost(start);
    let ghost empty: Seq<(Seq<char>, Seq<char>)> = seq![];
    proof {
        assert(start + label_lines(empty) =~= start);
    }
    let g = push_label(lines, s, Ghost(empty), "Repository", db);
    let g = push_label(lines, s, g, "Name", p.name.as_str());
    let g = push_label(lines, s, g, "Version", p.version.as_str());
    let t = or_none(&p.desc);
    let g = push_label(lines, s, g, "Description", t.as_str());
    let t = or_none(&p.arch);
    let g = push_label(lines, s, g, "Architecture", t.as_str());
    let t = or_none(&p.url);
    let g = push_label(lines, s, g, "URL", t.as_str());
    let t = list_none(&p.licenses);
    let g = push_label(lines, s, g, "Licenses", t.as_str());
    let t = list_none(&p.groups);
    let g = push_label(lines, s, g, "Groups", t.as_str());
    let t = list_none(&p.provides);
    let g = push_label(lines, s, g, "Provides", t.as_str());
    let t = list_none(&p.depends);
    let g = push_label(lines, s, g, "Depends On", t.as_str());
    let t = if p.optdepends.len() == 0 {
        to_owned("None")
    } else {
        join_strings(&p.optdepends, "\n                     ")
    };
    let g = push_label(lines, s, g, "Optional Deps", t.as_str());
    let t = list_none(&p.conflicts);
    let g = push_label(lines, s, g, "Conflicts With", t.as_str());
    let t = list_none(&p.replaces);
    let g = push_label(lines, s, g, "Replaces", t.as_str());
    let t = format_size(p.size);
    let g = push_label(lines, s, g, "Download Size", t.as_str());
    let t = format_size(p.isize);
    let g = push_label(lines, s, g, "Installed Size", t.as_str());
    let t = or_none(&p.packager);
    let g = push_label(lines, s, g, "Packager", t.as_str());
    let t = format_date(p.build_date);
    let g = push_label(lines, s, g, "Build Date", t.as_str());
    let t = format_validation(p.validation);
    let g = push_label(lines, s, g, "Validated By", t.as_str());
    proof {
        assert(g@ =~= repo_labels(db@, *p));
    }
}

/// Append the `-Si` lines of one package.
fn push_info(lines: &mut Vec<String>, db: &str, p: &RepoPkg, level: u8)
    ensures
        strings_view(final(lines)@) == strings_view(old(lines)@) + info_lines(db@, *p, level),
{
    let ghost start = strings_view(lines@);
    push_labels(lines, db, p);
    let ghost mid = strings_view(lines@);
    let ghost bv = pairs_view(p.backup@);
    if level >= 2 {
        if p.backup.len() == 0 {
            let ghost none: Seq<(Seq<char>, Seq<char>)> = seq![];
            proof {
                assert(mid + label_lines(none) =~= mid);
            }
            let _ = push_label(lines, Ghost(mid), Ghost(none), "Backup Files", "None");
            proof {
                assert(label_lines(seq![("Backup Files"@, "None"@)]) =~= seq![label_line("Backup Files"@, "None"@)]);
            }
        } else {
            lines.push(to_owned("Backup Files       :"));
            let ghost head = strings_view(lines@);
            let mut i: usize = 0;
            while i < p.backup.len()
                invariant
                    0 <= i <= p.backup@.len(),
                    bv == pairs_view(p.backup@),
                    strings_view(lines@) == head + backup_lines(bv).take(i as int),
                decreases p.backup@.len() - i,
            {
                let mut l = p.backup[i].0.clone();
                push_str(&mut l, "\t");
                push_str(&mut l, p.backup[i].1.as_str());
                let ghost before = strings_view(lines@);
                lines.push(l);
                proof {
                    assert(bv[i as int] == (p.backup@[i as int].0@, p.backup@[i as int].1@));
                    assert(backup_lines(bv)[i as int] == l@);
                    assert(backup_lines(bv).take(i + 1) =~= backup_lines(bv).take(i as int).push(l@));
                    assert(strings_view(lines@) =~= before.push(l@));
                }
                i = i + 1;
            }
            proof {
                assert(backup_lines(bv).take(p.backup@.len() as int) =~= backup_lines(bv));
                assert(strings_view(lines@) =~= mid + backup_part(level, bv));
            }
        }
    } else {
        proof {
            assert(mid + backup_part(level, bv) =~= mid);
        }
    }
    let ghost before = strings_view(lines@);
    lines.push(String::new());
    proof {
        assert(strings_view(lines@) =~= before.push(seq![]));
        assert(strings_view(lines@) =~= start + info_lines(db@, *p, level));
    }
}

fn push_db_info(lines: &mut Vec<String>, db: &RepoDb, level: u8)
    ensures
        strings_view(final(lines)@) == strings_view(old(lines)@) + db_info_lines(db.name@, db.pkgs@, level),
{
    let ghost start = strings_view(lines@);
    let mut i: usize = 0;
    while i < db.pkgs.len()
        invariant
            0 <= i <= db.pkgs@.len(),
            strings_view(lines@) == start + db_info_lines(db.name@, db.pkgs@.take(i as int), level),
        decreases db.pkgs@.len() - i,
    {
        proof {
            assert(db.pkgs@.take(i + 1).drop_last() =~= db.pkgs@.take(i as int));
            assert(db.pkgs@.take(i + 1).last() == db.pkgs@[i as int]);
        }
        push_info(lines, db.name.as_str(), &db.pkgs[i], level);
        i = i + 1;
    }
    proof {
        assert(db.pkgs@.take(db.pkgs@.len() as int) =~= db.pkgs@);
    }
}

fn find_repo_pkg(pkgs: &Vec<RepoPkg>, name: &str) -> (r: Option<usize>)
    ensures
        match repo_pkg_named(pkgs@, name@) {
            Some(p) => r matches Some(i) && i < pkgs@.len() && pkgs@[i as int] == p,
            None => r is None,
        },
{
    let mut i: usize = 0;
    proof {
        assert(pkgs@.skip(0) =~= pkgs@);
    }
    while i < pkgs.len()
        invariant
            0 <= i <= pkgs@.len(),
            repo_pkg_named(pkgs@.skip(i as int), name@) == repo_pkg_named(pkgs@, name@),
        decreases pkgs@.len() - i,
    {
        proof {
            assert(pkgs@.skip(i as int)[0] == pkgs@[i as int]);
            assert(pkgs@.skip(i as int).drop_first() =~= pkgs@.skip(i + 1));
        }
        if crate::text::str_eq(pkgs[i].name.as_str(), name) {
            return Some(i);
        }
        i = i + 1;
    }
    None
}

fn find_info_target(dbs: &Vec<RepoDb>, repo: Option<&str>, name: &str) -> (r: Option<(usize, usize)>)
    ensures
        match info_lookup(dbs@, opt_str(repo), name@) {
            Some((db, p)) => r matches Some((d, k)) && d < dbs@.len() && k < dbs@[d as int].pkgs@.len() && dbs@[d as int] == db && dbs@[d as int].pkgs@[k as int] == p,
            None => r is None,
        },
{
    let mut i: usize = 0;
    proof {
        assert(dbs@.skip(0) =~= dbs@);
    }
    while i < dbs.len()
        invariant
            0 <= i <= dbs@.len(),
            info_lookup(dbs@.skip(i as int), opt_str(repo), name@) == info_lookup(dbs@, opt_str(repo), name@),
        decreases dbs@.len() - i,
    {
        proof {
            assert(dbs@.skip(i as int)[0] == dbs@[i as int]);
            assert(dbs@.skip(i as int).drop_first() =~= dbs@.skip(i + 1));
        }
        let eligible = match repo {
            Some(r) => crate::text::str_eq(dbs[i].name.as_str(), r),
            None => true,
        };
        if eligible {
            match find_repo_pkg(&dbs[i].pkgs, name) {
                Some(k) => {
                    return Some((i, k));
                },
                None => {},
            }
        }
        i = i + 1;
    }
    None
}

/// `-Si [target...]`: with no target, every package of every database;
/// else each target's package (as `repo/name` or `name`) from the first
/// database that has it, and a diagnostic for each found nowhere. With
/// `-Sii`, each block also lists the backup files.
pub fn sync_info(args: &Args, dbs: &Vec<RepoDb>) -> (r: SyncReport)
    ensures
        args.targets@.len() == 0 ==> listing_is(r, all_info_lines(dbs@, args.info), seq![], None),
        args.targets@.len() > 0 ==> ({
            let (ls, ds) = info_scan(dbs@, strings_view(args.targets@), args.info);
            listing_is(r, ls, ds, sweep_error(strings_view(args.targets@), ds))
        }),
{
    let mut lines: Vec<String> = Vec::new();
    let mut diagnostics: Vec<String> = Vec::new();
    if args.targets.len() == 0 {
        let mut i: usize = 0;
        while i < dbs.len()
            invariant
                0 <= i <= dbs@.len(),
                diagnostics@.len() == 0,
                strings_view(lines@) == all_info_lines(dbs@.take(i as int), args.info),
            decreases dbs@.len() - i,
        {
            proof {
                assert(dbs@.take(i + 1).drop_last() =~= dbs@.take(i as int));
                assert(dbs@.take(i + 1).last() == dbs@[i as int]);
            }
            push_db_info(&mut lines, &dbs[i], args.info);
            i = i + 1;
        }
        proof {
            assert(dbs@.take(dbs@.len() as int) =~= dbs@);
            assert(strings_view(diagnostics@) =~= seq![]);
        }
        return SyncReport::Listing { lines, diagnostics, error: None };
    }
    let ghost ts = strings_view(args.targets@);
    let mut i: usize = 0;
    while i < args.targets.len()
        invariant
            0 <= i <= args.targets@.len(),
            ts == strings_view(args.targets@),
            (strings_view(lines@), strings_view(diagnostics@)) == info_scan(dbs@, ts.take(i as int), args.info),
        decreases args.targets@.len() - i,
    {
        let target = args.targets[i].as_str();
        proof {
            assert(ts.take(i + 1).drop_last() =~= ts.take(i as int));
            assert(ts.take(i + 1).last() == target@);
        }
        let (repo, name) = split_repo_target(target);
        match find_info_target(dbs, repo, name) {
            Some((d, k)) => {
                push_info(&mut lines, dbs[d].name.as_str(), &dbs[d].pkgs[k], args.info);
            },
            None => {
                proof {
                    reveal_strlit("package '");
                    reveal_strlit("' was not found");
                }
                let mut m = to_owned("package '");
                push_str(&mut m, target);
                push_str(&mut m, "' was not found");
                let ghost before = strings_view(diagnostics@);
                diagnostics.push(m);
                proof {
                    assert(strings_view(diagnostics@) =~= before.push(pkg_missing_line(target@)));
                }
            },
        }
        i = i + 1;
    }
    proof {
        assert(ts.take(ts.len() as int) =~= ts);
    }
    let error = if diagnostics.len() == 0 {
        None
    } else {
        Some(join_strings(&args.targets, ", "))
    };
    SyncReport::Listing { lines, diagnostics, error }
}

// ---------------------------------------------------------------------------
// -S
// ---------------------------------------------------------------------------

/// What `-S` does once the cache is cleaned (`-Sc` returns first) and the
/// databases are refreshed (with `-Sy`).
pub enum SyncAction {
    Search(String),
    List,
    Groups,
    Info,
    /// Install the targets and/or upgrade the system.
    Install,
    Done,
    NotImplemented,
}

/// Choose what `-S` does: search, list, groups, info, an install when there
/// are targets or `-Su`, nothing more for a bare `--print` or a plain
/// refresh, else an unsupported combination.
pub fn sync_action(args: &Args) -> (r: SyncAction)
    ensures
        match args.search {
            Some(p) => r matches SyncAction::Search(x) && x@ == p@,
            None => if args.list {
                r is List
            } else if args.groups {
                r is Groups
            } else if args.info > 0 {
                r is Info
            } else if args.targets@.len() > 0 || args.sysupgrade > 0 {
                r is Install
            } else if args.print {
                r is Done
            } else if args.refresh > 0 && !args.downloadonly {
                r is Done
            } else {
                r is NotImplemented
            },
        },
{
    match &args.search {
        Some(p) => SyncAction::Search(p.clone()),
        None => if args.list {
            SyncAction::List
        } else if args.groups {
            SyncAction::Groups
        } else if args.info > 0 {
            SyncAction::Info
        } else if args.targets.len() > 0 || args.sysupgrade > 0 {
            SyncAction::Install
        } else if args.print {
            SyncAction::Done
        } else if args.refresh > 0 && !args.downloadonly {
            SyncAction::Done
        } else {
            SyncAction::NotImplemented
        },
    }
}

} // verus!
