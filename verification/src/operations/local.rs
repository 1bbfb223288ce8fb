//! `-Q` over the local package database, on what libalpm reports for each
//! installed package: the `-Qi` block, the `-Qk` file check, the selection
//! filters and not-found sweep of a plain query, search, ownership and group
//! listings.
use crate::common::fmt::{dec, dec_int, digit, join, join_strings, size_text, date_text, strings_view};
use crate::common::imagedb::{pairs_view, ImagePackage};
use crate::images::format::{fields_are, is_label, label, text_or_none};
use crate::operations::query::{
    backup_lines, bare_name, build_image_check, dep_bare_name, image_info_block, image_labels,
    is_required, list_or_none, missing_count, missing_lines, name_or_provides_required,
    optdeps_sep, Body,
};
use crate::params::query::Params as Args;
use crate::report::{CheckResult, FileLine, InfoBlock, InfoField, PkgLine, QueryBody, QueryError, QueryReport};
use crate::text::{chars_of, push_str, str_eq, to_owned};
use vstd::prelude::*;

verus! {

/// One file a package owns, as its database records it.
pub struct PkgFile {
    /// The path relative to the root; a directory ends in `/`.
    pub name: String,
    pub mode: u32,
    pub size: i64,
}

/// What the filesystem shows for one owned file.
pub enum FileState {
    Missing,
    /// Any other failure to read its metadata, with the system's message.
    Unreadable(String),
    Present { mode: u32, is_file: bool, size: i64 },
}

/// What `-Q` reads of an installed package.
pub struct LocalPkg {
    pub name: String,
    pub version: String,
    pub desc: Option<String>,
    pub arch: Option<String>,
    pub url: Option<String>,
    pub licenses: Vec<String>,
    pub groups: Vec<String>,
    /// Dependency lists, each entry as its dependency string.
    pub provides: Vec<String>,
    pub depends: Vec<String>,
    pub optdepends: Vec<String>,
    pub required_by: Vec<String>,
    pub optional_for: Vec<String>,
    pub conflicts: Vec<String>,
    pub replaces: Vec<String>,
    pub isize: i64,
    pub packager: Option<String>,
    pub build_date: i64,
    pub install_date: Option<i64>,
    /// Installed explicitly, not as a dependency.
    pub explicit: bool,
    pub has_scriptlet: bool,
    /// libalpm's validation bits: none, MD5, SHA-256, signature.
    pub validation: u32,
    /// `(path, hash)` backup entries.
    pub backup: Vec<(String, String)>,
    pub files: Vec<PkgFile>,
    /// A newer version is in a sync database.
    pub upgradable: bool,
    /// The changelog, or the error reading it; `None` when there is none.
    /// Read only for `-Qc`.
    pub changelog: Option<Result<String, String>>,
    /// The state of each of `files`, in order. Read only for `-Qk`.
    pub states: Vec<FileState>,
}

// ---------------------------------------------------------------------------
// -Qi
// ---------------------------------------------------------------------------

/// The validation methods named by libalpm's bits, two-space-joined, or
/// `Unknown` when none is set.
pub open spec fn validation_text(v: u32) -> Seq<char> {
    let parts = (if v & 1 != 0 {
        seq!["None"@]
    } else {
        seq![]
    }) + (if v & 2 != 0 {
        seq!["MD5 Sum"@]
    } else {
        seq![]
    }) + (if v & 4 != 0 {
        seq!["SHA-256 Sum"@]
    } else {
        seq![]
    }) + (if v & 8 != 0 {
        seq!["Signature"@]
    } else {
        seq![]
    });
    if parts.len() == 0 {
        "Unknown"@
    } else {
        join(parts, "  "@)
    }
}

fn push_part(parts: &mut Vec<String>, on: bool, name: &str)
    ensures
        strings_view(final(parts)@) == strings_view(old(parts)@) + if on {
            seq![name@]
        } else {
            seq![]
        },
{
    if on {
        let ghost before = parts@;
        parts.push(to_owned(name));
        proof {
            assert(strings_view(parts@) =~= strings_view(before) + seq![name@]);
        }
    } else {
        proof {
            assert(strings_view(parts@) =~= strings_view(old(parts)@) + seq![]);
        }
    }
}

/// The `Validated By` text of libalpm's validation bits.
pub fn format_validation(v: u32) -> (r: String)
    ensures
        r@ == validation_text(v),
{
    let mut parts: Vec<String> = Vec::new();
    push_part(&mut parts, v & 1 != 0, "None");
    push_part(&mut parts, v & 2 != 0, "MD5 Sum");
    push_part(&mut parts, v & 4 != 0, "SHA-256 Sum");
    push_part(&mut parts, v & 8 != 0, "Signature");
    proof {
        let a: Seq<Seq<char>> = if v & 1 != 0 { seq!["None"@] } else { seq![] };
        let b: Seq<Seq<char>> = if v & 2 != 0 { seq!["MD5 Sum"@] } else { seq![] };
        let c: Seq<Seq<char>> = if v & 4 != 0 { seq!["SHA-256 Sum"@] } else { seq![] };
        let d: Seq<Seq<char>> = if v & 8 != 0 { seq!["Signature"@] } else { seq![] };
        assert(strings_view(parts@) =~= a + b + c + d);
    }
    if parts.len() == 0 {
        to_owned("Unknown")
    } else {
        join_strings(&parts, "  ")
    }
}

/// The `-Qi` label fields of an installed package, before any backup
/// listing.
pub open spec fn local_labels(p: LocalPkg) -> Seq<(Seq<char>, Seq<char>)> {
    seq![
        ("Name"@, p.name@),
        ("Version"@, p.version@),
        ("Description"@, text_or_none(p.desc)),
        ("Architecture"@, text_or_none(p.arch)),
        ("URL"@, text_or_none(p.url)),
        ("Licenses"@, list_or_none(strings_view(p.licenses@))),
        ("Groups"@, list_or_none(strings_view(p.groups@))),
        ("Provides"@, list_or_none(strings_view(p.provides@))),
        ("Depends On"@, list_or_none(strings_view(p.depends@))),
        ("Optional Deps"@, if p.optdepends@.len() == 0 {
            "None"@
        } else {
            join(strings_view(p.optdepends@), optdeps_sep())
        }),
        ("Required By"@, list_or_none(strings_view(p.required_by@))),
        ("Optional For"@, list_or_none(strings_view(p.optional_for@))),
        ("Conflicts With"@, list_or_none(strings_view(p.conflicts@))),
        ("Replaces"@, list_or_none(strings_view(p.replaces@))),
        ("Installed Size"@, size_text(p.isize as int)),
        ("Packager"@, text_or_none(p.packager)),
        ("Build Date"@, date_text(p.build_date as int)),
        ("Install Date"@, match p.install_date {
            Some(d) => date_text(d as int),
            None => "Unknown"@,
        }),
        ("Install Reason"@, if p.explicit {
            "Explicitly installed"@
        } else {
            "Installed as a dependency for another package"@
        }),
        ("Install Script"@, if p.has_scriptlet {
            "Yes"@
        } else {
            "No"@
        }),
        ("Validated By"@, validation_text(p.validation)),
    ]
}

/// `fs` are the label fields `ls`, then, with `with_backup`, the backup
/// listing: a `None` label when `backup` is empty, else the lines.
pub open spec fn block_is(
    fs: Seq<InfoField>,
    ls: Seq<(Seq<char>, Seq<char>)>,
    with_backup: bool,
    backup: Seq<Seq<char>>,
) -> bool {
    if !with_backup {
        fields_are(fs, ls)
    } else if backup.len() == 0 {
        fields_are(fs, ls.push(("Backup Files"@, "None"@)))
    } else {
        &&& fs.len() == ls.len() + 1
        &&& fields_are(fs.drop_last(), ls)
        &&& fs.last() matches InfoField::Backup(lines) && strings_view(lines@) == backup
    }
}

fn push_l(fields: &mut Vec<InfoField>, ls: Ghost<Seq<(Seq<char>, Seq<char>)>>, key: &str, value: &str) -> (r: Ghost<Seq<(Seq<char>, Seq<char>)>>)
    requires
        fields_are(old(fields)@, ls@),
    ensures
        fields_are(final(fields)@, r@),
        r@ == ls@.push((key@, value@)),
{
    let ghost f0 = fields@;
    label(fields, key, value);
    proof {
        assert forall|k: int| 0 <= k < ls@.len() + 1 implies is_label(
            #[trigger] fields@[k],
            ls@.push((key@, value@))[k].0,
            ls@.push((key@, value@))[k].1,
        ) by {
            if k < ls@.len() {
                assert(fields@[k] == fields@.take(f0.len() as int)[k]);
            }
        }
    }
    Ghost(ls@.push((key@, value@)))
}

pub(crate) fn or_none(o: &Option<String>) -> (r: String)
    ensures
        r@ == text_or_none(*o),
{
    match o {
        Some(v) => v.clone(),
        None => to_owned("None"),
    }
}

pub(crate) fn list_none(v: &Vec<String>) -> (r: String)
    ensures
        r@ == list_or_none(strings_view(v@)),
{
    if v.len() == 0 {
        to_owned("None")
    } else {
        join_strings(v, "  ")
    }
}

/// Finish a block: with `-ii`, the backup listing (or `None`).
fn push_backup(
    fields: &mut Vec<InfoField>,
    ls: Ghost<Seq<(Seq<char>, Seq<char>)>>,
    with_backup: bool,
    backup: &Vec<(String, String)>,
)
    requires
        fields_are(old(fields)@, ls@),
    ensures
        block_is(final(fields)@, ls@, with_backup, backup_lines(pairs_view(backup@))),
{
    if with_backup {
        if backup.len() == 0 {
            let _ = push_l(fields, ls, "Backup Files", "None");
        } else {
            let mut lines: Vec<String> = Vec::new();
            let mut i: usize = 0;
            while i < backup.len()
                invariant
                    0 <= i <= backup@.len(),
                    strings_view(lines@) == backup_lines(pairs_view(backup@)).take(i as int),
                decreases backup@.len() - i,
            {
                let mut l = backup[i].0.clone();
                push_str(&mut l, "\t");
                push_str(&mut l, backup[i].1.as_str());
                let ghost before = lines@;
                lines.push(l);
                proof {
                    let bl = backup_lines(pairs_view(backup@));
                    assert(pairs_view(backup@)[i as int] == (backup@[i as int].0@, backup@[i as int].1@));
                    assert(bl[i as int] == l@);
                    assert(bl.take(i + 1) =~= bl.take(i as int).push(l@));
                    assert(strings_view(lines@) =~= strings_view(before).push(l@));
                }
                i = i + 1;
            }
            let ghost f0 = fields@;
            fields.push(InfoField::Backup(lines));
            proof {
                assert(backup_lines(pairs_view(backup@)).take(backup@.len() as int) =~= backup_lines(
                    pairs_view(backup@),
                ));
                assert(fields@.drop_last() =~= f0);
            }
        }
    }
}

/// The `-Qi` block of an installed package; with `-ii` also its backup
/// files.
#[verifier::spinoff_prover]
#[verifier::rlimit(80)]
pub fn info_block(args: &Args, pkg: &LocalPkg) -> (r: InfoBlock)
    ensures
        block_is(r.fields@, local_labels(*pkg), args.info >= 2, backup_lines(pairs_view(pkg.backup@))),
{
    let mut fields: Vec<InfoField> = Vec::new();
    let ghost empty: Seq<(Seq<char>, Seq<char>)> = seq![];
    let g = Ghost(empty);
    let g = push_l(&mut fields, g, "Name", pkg.name.as_str());
    let g = push_l(&mut fields, g, "Version", pkg.version.as_str());
    let t = or_none(&pkg.desc);
    let g = push_l(&mut fields, g, "Description", t.as_str());
    let t = or_none(&pkg.arch);
    let g = push_l(&mut fields, g, "Architecture", t.as_str());
    let t = or_none(&pkg.url);
    let g = push_l(&mut fields, g, "URL", t.as_str());
    let t = list_none(&pkg.licenses);
    let g = push_l(&mut fields, g, "Licenses", t.as_str());
    let t = list_none(&pkg.groups);
    let g = push_l(&mut fields, g, "Groups", t.as_str());
    let t = list_none(&pkg.provides);
    let g = push_l(&mut fields, g, "Provides", t.as_str());
    let t = list_none(&pkg.depends);
    let g = push_l(&mut fields, g, "Depends On", t.as_str());
    let t = if pkg.optdepends.len() == 0 {
        to_owned("None")
    } else {
        join_strings(&pkg.optdepends, "\n                     ")
    };
    let g = push_l(&mut fields, g, "Optional Deps", t.as_str());
    let t = list_none(&pkg.required_by);
    let g = push_l(&mut fields, g, "Required By", t.as_str());
    let t = list_none(&pkg.optional_for);
    let g = push_l(&mut fields, g, "Optional For", t.as_str());
    let t = list_none(&pkg.conflicts);
    let g = push_l(&mut fields, g, "Conflicts With", t.as_str());
    let t = list_none(&pkg.replaces);
    let g = push_l(&mut fields, g, "Replaces", t.as_str());
    let t = crate::common::fmt::format_size(pkg.isize);
    let g = push_l(&mut fields, g, "Installed Size", t.as_str());
    let t = or_none(&pkg.packager);
    let g = push_l(&mut fields, g, "Packager", t.as_str());
    let t = crate::common::fmt::format_date(pkg.build_date);
    let g = push_l(&mut fields, g, "Build Date", t.as_str());
    let t = match pkg.install_date {
        Some(d) => crate::common::fmt::format_date(d),
        None => to_owned("Unknown"),
    };
    let g = push_l(&mut fields, g, "Install Date", t.as_str());
    let t = if pkg.explicit {
        "Explicitly installed"
    } else {
        "Installed as a dependency for another package"
    };
    let g = push_l(&mut fields, g, "Install Reason", t);
    let t = if pkg.has_scriptlet {
        "Yes"
    } else {
        "No"
    };
    let g = push_l(&mut fields, g, "Install Script", t);
    let t = format_validation(pkg.validation);
    let g = push_l(&mut fields, g, "Validated By", t.as_str());
    proof {
        assert(g@ =~= local_labels(*pkg));
    }
    push_backup(&mut fields, g, args.info >= 2, &pkg.backup);
    InfoBlock { fields }
}

// ---------------------------------------------------------------------------
// -Qk
// ---------------------------------------------------------------------------

/// Four octal digits of `n` (`{:04o}` for `n < 4096`).
pub open spec fn oct4(n: int) -> Seq<char> {
    seq![digit((n / 512) % 8), digit((n / 64) % 8), digit((n / 8) % 8), digit(n % 8)]
}

/// What checking one owned file gives: its problem lines, whether it is
/// missing, and whether it is altered (`deep` is `-kk`). Missing files are
/// reported unless quiet; permission and size mismatches always.
pub open spec fn file_check(name: Seq<char>, f: PkgFile, st: FileState, quiet: bool, deep: bool) -> (
    Seq<Seq<char>>,
    bool,
    bool,
) {
    let rel = f.name@;
    match st {
        FileState::Missing => (if quiet {
            seq![]
        } else {
            seq![name + ": /"@ + rel + " (Missing file)"@]
        }, true, false),
        FileState::Unreadable(e) => (if quiet {
            seq![]
        } else {
            seq![name + ": /"@ + rel + " ("@ + e@ + ")"@]
        }, true, false),
        FileState::Present { mode, is_file, size } => if !deep {
            (seq![], false, false)
        } else {
            let em = f.mode & 4095;
            let am = mode & 4095;
            let perm = em != 0 && em != am;
            let is_dir = rel.len() > 0 && rel.last() == '/';
            let sz = !is_dir && is_file && f.size > 0 && f.size != size;
            ((if perm {
                seq![name + ": /"@ + rel + " (Permissions mismatch, expected "@ + oct4(em as int)
                    + " actual "@ + oct4(am as int) + ")"@]
            } else {
                seq![]
            }) + (if sz {
                seq![name + ": /"@ + rel + " (Size mismatch, expected "@ + dec_int(f.size as int)
                    + " actual "@ + dec_int(size as int) + ")"@]
            } else {
                seq![]
            }), false, perm || sz)
        },
    }
}

/// The problems, missing count and altered count over a package's files.
pub open spec fn check_fold(name: Seq<char>, fs: Seq<PkgFile>, sts: Seq<FileState>, quiet: bool, deep: bool) -> (
    Seq<Seq<char>>,
    int,
    int,
)
    decreases fs.len(),
{
    if fs.len() == 0 || sts.len() == 0 {
        (seq![], 0, 0)
    } else {
        let (p, m, a) = check_fold(name, fs.drop_last(), sts.drop_last(), quiet, deep);
        let (q, mi, al) = file_check(name, fs.last(), sts.last(), quiet, deep);
        (p + q, m + if mi {
            1int
        } else {
            0
        }, a + if al {
            1int
        } else {
            0
        })
    }
}

proof fn lemma_check_fold_bounds(name: Seq<char>, fs: Seq<PkgFile>, sts: Seq<FileState>, quiet: bool, deep: bool)
    requires
        fs.len() == sts.len(),
    ensures
        0 <= check_fold(name, fs, sts, quiet, deep).1 <= fs.len(),
        0 <= check_fold(name, fs, sts, quiet, deep).2 <= fs.len(),
    decreases fs.len(),
{
    if fs.len() > 0 {
        lemma_check_fold_bounds(name, fs.drop_last(), sts.drop_last(), quiet, deep);
    }
}

fn push_oct4(out: &mut String, n: u32)
    requires
        n < 4096,
    ensures
        final(out)@ == old(out)@ + oct4(n as int),
{
    let n64 = n as u64;
    out.push(crate::common::fmt::digit_char((n64 / 512) % 8));
    out.push(crate::common::fmt::digit_char((n64 / 64) % 8));
    out.push(crate::common::fmt::digit_char((n64 / 8) % 8));
    out.push(crate::common::fmt::digit_char(n64 % 8));
    proof {
        assert(out@ =~= old(out)@ + oct4(n as int));
    }
}

/// Check one file, appending its problem lines.
fn check_file(name: &str, f: &PkgFile, st: &FileState, quiet: bool, deep: bool, problems: &mut Vec<String>) -> (r: (bool, bool))
    ensures
        strings_view(final(problems)@) == strings_view(old(problems)@) + file_check(name@, *f, *st, quiet, deep).0,
        r.0 == file_check(name@, *f, *st, quiet, deep).1,
        r.1 == file_check(name@, *f, *st, quiet, deep).2,
{
    let ghost start = strings_view(problems@);
    match st {
        FileState::Missing => {
            if !quiet {
                let mut l = to_owned(name);
                push_str(&mut l, ": /");
                push_str(&mut l, f.name.as_str());
                push_str(&mut l, " (Missing file)");
                problems.push(l);
            }
            proof {
                assert(strings_view(problems@) =~= start + file_check(name@, *f, *st, quiet, deep).0);
            }
            (true, false)
        },
        FileState::Unreadable(e) => {
            if !quiet {
                let mut l = to_owned(name);
                push_str(&mut l, ": /");
                push_str(&mut l, f.name.as_str());
                push_str(&mut l, " (");
                push_str(&mut l, e.as_str());
                push_str(&mut l, ")");
                problems.push(l);
            }
            proof {
                assert(strings_view(problems@) =~= start + file_check(name@, *f, *st, quiet, deep).0);
            }
            (true, false)
        },
        FileState::Present { mode, is_file, size } => {
            if !deep {
                proof {
                    assert(strings_view(problems@) =~= start + file_check(name@, *f, *st, quiet, deep).0);
                }
                return (false, false);
            }
            let fm: u32 = f.mode;
            let dm: u32 = *mode;
            let em = fm & 4095;
            let am = dm & 4095;
            proof {
                assert(em < 4096) by (bit_vector)
                    requires
                        em == fm & 4095,
                ;
                assert(am < 4096) by (bit_vector)
                    requires
                        am == dm & 4095,
                ;
            }
            let perm = em != 0 && em != am;
            if perm {
                let mut l = to_owned(name);
                push_str(&mut l, ": /");
                push_str(&mut l, f.name.as_str());
                push_str(&mut l, " (Permissions mismatch, expected ");
                push_oct4(&mut l, em);
                push_str(&mut l, " actual ");
                push_oct4(&mut l, am);
                push_str(&mut l, ")");
                problems.push(l);
            }
            let ghost mid = strings_view(problems@);
            let rv = chars_of(f.name.as_str());
            let is_dir = rv.len() > 0 && rv[rv.len() - 1] == '/';
            let sz = !is_dir && *is_file && f.size > 0 && f.size != *size;
            if sz {
                let mut l = to_owned(name);
                push_str(&mut l, ": /");
                push_str(&mut l, f.name.as_str());
                push_str(&mut l, " (Size mismatch, expected ");
                crate::common::fmt::push_dec_i64(&mut l, f.size);
                push_str(&mut l, " actual ");
                crate::common::fmt::push_dec_i64(&mut l, *size);
                push_str(&mut l, ")");
                problems.push(l);
            }
            proof {
                if rv@.len() > 0 {
                    assert(f.name@.last() == rv@[rv@.len() - 1]);
                }
                assert(strings_view(problems@) =~= start + file_check(name@, *f, *st, quiet, deep).0);
            }
            (false, perm || sz)
        },
    }
}

/// The `-Qk` (`-Qkk` when `check >= 2`) result of an installed package, from
/// the state of each of its files. Returns the result and whether any file
/// is missing or altered.
pub fn build_check(args: &Args, pkg: &LocalPkg) -> (r: (CheckResult, bool))
    requires
        pkg.states@.len() == pkg.files@.len(),
    ensures
        ({
            let (p, m, a) = check_fold(pkg.name@, pkg.files@, pkg.states@, args.quiet, args.check >= 2);
            &&& strings_view(r.0.problems@) == p
            &&& r.0.summary@ == pkg.name@ + ": "@ + dec(pkg.files@.len() as nat) + " total files, "@ + dec(
                m as nat,
            ) + " missing files"@ + if args.check >= 2 {
                ", "@ + dec(a as nat) + " altered files"@
            } else {
                seq![]
            }
            &&& r.1 == (m > 0 || a > 0)
        }),
{
    let deep = args.check >= 2;
    let mut problems: Vec<String> = Vec::new();
    let mut missing: u64 = 0;
    let mut altered: u64 = 0;
    let mut i: usize = 0;
    while i < pkg.files.len()
        invariant
            0 <= i <= pkg.files@.len() == pkg.states@.len(),
            deep == (args.check >= 2),
            ({
                let (p, m, a) = check_fold(
                    pkg.name@,
                    pkg.files@.take(i as int),
                    pkg.states@.take(i as int),
                    args.quiet,
                    deep,
                );
                &&& strings_view(problems@) == p
                &&& missing == m
                &&& altered == a
            }),
            missing <= i,
            altered <= i,
        decreases pkg.files@.len() - i,
    {
        proof {
            assert(pkg.files@.take(i + 1).drop_last() =~= pkg.files@.take(i as int));
            assert(pkg.states@.take(i + 1).drop_last() =~= pkg.states@.take(i as int));
        }
        let (mi, al) = check_file(pkg.name.as_str(), &pkg.files[i], &pkg.states[i], args.quiet, deep, &mut problems);
        if mi {
            missing = missing + 1;
        }
        if al {
            altered = altered + 1;
        }
        i = i + 1;
    }
    proof {
        assert(pkg.files@.take(pkg.files@.len() as int) =~= pkg.files@);
        assert(pkg.states@.take(pkg.states@.len() as int) =~= pkg.states@);
    }
    let mut summary = to_owned(pkg.name.as_str());
    push_str(&mut summary, ": ");
    crate::common::fmt::push_dec(&mut summary, pkg.files.len() as u64);
    push_str(&mut summary, " total files, ");
    crate::common::fmt::push_dec(&mut summary, missing);
    push_str(&mut summary, " missing files");
    if deep {
        push_str(&mut summary, ", ");
        crate::common::fmt::push_dec(&mut summary, altered);
        push_str(&mut summary, " altered files");
    }
    proof {
        if deep {
            assert(summary@ =~= pkg.name@ + ": "@ + dec(pkg.files@.len() as nat) + " total files, "@
                + dec(missing as nat) + " missing files"@ + (", "@ + dec(altered as nat)
                + " altered files"@));
        }
    }
    (CheckResult { problems, summary }, missing > 0 || altered > 0)
}

// ---------------------------------------------------------------------------
// -Q: the plain query
// ---------------------------------------------------------------------------

/// Whether an installed package passes `-Q`'s filters: `-d`/`-e` on the
/// install reason, `-t` (not required), `-m`/`-n` on whether a sync database
/// has it (`sync` holds those names), `-u` on a newer version, and the
/// named targets.
pub open spec fn local_selected(args: Args, p: LocalPkg, sync: Seq<Seq<char>>, required: Seq<Seq<char>>) -> bool {
    &&& !(args.deps && p.explicit)
    &&& !(args.explicit && !p.explicit)
    &&& !(args.unrequired && is_required(p.name@, strings_view(p.provides@), required))
    &&& !(args.foreign && sync.contains(p.name@))
    &&& !(args.native && !sync.contains(p.name@))
    &&& !(args.upgrades && !p.upgradable)
    &&& (args.packages@.len() == 0 || strings_view(args.packages@).contains(p.name@))
}

/// Whether an image package passes the same filters (`-u` never matches
/// one: the image updates as a whole).
pub open spec fn image_selected(args: Args, p: ImagePackage, sync: Seq<Seq<char>>, required: Seq<Seq<char>>) -> bool {
    &&& !args.upgrades
    &&& !(args.deps && p.explicit)
    &&& !(args.explicit && !p.explicit)
    &&& !(args.unrequired && is_required(p.name@, strings_view(p.provides@), required))
    &&& !(args.foreign && sync.contains(p.name@))
    &&& !(args.native && !sync.contains(p.name@))
    &&& (args.packages@.len() == 0 || strings_view(args.packages@).contains(p.name@))
}

/// The names of the installed packages.
pub open spec fn local_names(ps: Seq<LocalPkg>) -> Seq<Seq<char>> {
    ps.map_values(|p: LocalPkg| p.name@)
}

/// The image packages not shadowed by an installed package of the same name.
pub open spec fn unshadowed(images: Seq<(ImagePackage, Vec<bool>)>, locals: Seq<LocalPkg>) -> Seq<
    (ImagePackage, Vec<bool>),
>
    decreases images.len(),
{
    if images.len() == 0 {
        seq![]
    } else {
        let r = unshadowed(images.drop_last(), locals);
        if local_names(locals).contains(images.last().0.name@) {
            r
        } else {
            r.push(images.last())
        }
    }
}

/// The selected installed packages, in order.
pub open spec fn sel_locals(args: Args, ps: Seq<LocalPkg>, sync: Seq<Seq<char>>, required: Seq<Seq<char>>) -> Seq<
    LocalPkg,
>
    decreases ps.len(),
{
    if ps.len() == 0 {
        seq![]
    } else {
        let r = sel_locals(args, ps.drop_last(), sync, required);
        if local_selected(args, ps.last(), sync, required) {
            r.push(ps.last())
        } else {
            r
        }
    }
}

/// The selected image packages (with their missing-file flags), in order.
pub open spec fn sel_images(
    args: Args,
    ps: Seq<(ImagePackage, Vec<bool>)>,
    sync: Seq<Seq<char>>,
    required: Seq<Seq<char>>,
) -> Seq<(ImagePackage, Vec<bool>)>
    decreases ps.len(),
{
    if ps.len() == 0 {
        seq![]
    } else {
        let r = sel_images(args, ps.drop_last(), sync, required);
        if image_selected(args, ps.last().0, sync, required) {
            r.push(ps.last())
        } else {
            r
        }
    }
}

/// The bare names of every dependency and optional dependency of the
/// installed and the unshadowed image packages.
pub open spec fn required_of(locals: Seq<LocalPkg>, images: Seq<(ImagePackage, Vec<bool>)>) -> Seq<Seq<char>> {
    locals.fold_left(
        seq![],
        |acc: Seq<Seq<char>>, p: LocalPkg|
            acc + strings_view(p.depends@).map_values(|d: Seq<char>| bare_name(d)) + strings_view(
                p.optdepends@,
            ).map_values(|d: Seq<char>| bare_name(d)),
    ) + images.fold_left(
        seq![],
        |acc: Seq<Seq<char>>, e: (ImagePackage, Vec<bool>)|
            acc + strings_view(e.0.depends@).map_values(|d: Seq<char>| bare_name(d)) + strings_view(
                e.0.optdepends@,
            ).map_values(|d: Seq<char>| bare_name(d)),
    )
}

/// Append the bare names of `deps`.
fn push_bare_names(out: &mut Vec<String>, deps: &Vec<String>)
    ensures
        strings_view(final(out)@) == strings_view(old(out)@) + strings_view(deps@).map_values(
            |d: Seq<char>| bare_name(d),
        ),
{
    let ghost start = strings_view(out@);
    let mut i: usize = 0;
    while i < deps.len()
        invariant
            0 <= i <= deps@.len(),
            strings_view(out@) == start + strings_view(deps@).take(i as int).map_values(
                |d: Seq<char>| bare_name(d),
            ),
        decreases deps@.len() - i,
    {
        let b = dep_bare_name(deps[i].as_str());
        let ghost before = out@;
        out.push(b);
        proof {
            assert(strings_view(deps@).take(i + 1).map_values(|d: Seq<char>| bare_name(d))
                =~= strings_view(deps@).take(i as int).map_values(|d: Seq<char>| bare_name(d)).push(
                bare_name(deps@[i as int]@),
            ));
            assert(strings_view(out@) =~= strings_view(before).push(b@));
        }
        i = i + 1;
    }
    proof {
        assert(strings_view(deps@).take(deps@.len() as int) =~= strings_view(deps@));
    }
}

/// The names `-Qt` treats as required (see [`required_of`]).
pub fn merged_required_names(locals: &Vec<LocalPkg>, images: &Vec<(ImagePackage, Vec<bool>)>) -> (r: Vec<String>)
    ensures
        strings_view(r@) == required_of(locals@, images@),
{
    let mut out: Vec<String> = Vec::new();
    let mut i: usize = 0;
    while i < locals.len()
        invariant
            0 <= i <= locals@.len(),
            strings_view(out@) == locals@.take(i as int).fold_left(
                seq![],
                |acc: Seq<Seq<char>>, p: LocalPkg|
                    acc + strings_view(p.depends@).map_values(|d: Seq<char>| bare_name(d))
                        + strings_view(p.optdepends@).map_values(|d: Seq<char>| bare_name(d)),
            ),
        decreases locals@.len() - i,
    {
        proof {
            assert(locals@.take(i + 1).drop_last() =~= locals@.take(i as int));
        }
        push_bare_names(&mut out, &locals[i].depends);
        push_bare_names(&mut out, &locals[i].optdepends);
        i = i + 1;
    }
    proof {
        assert(locals@.take(locals@.len() as int) =~= locals@);
    }
    let ghost first = strings_view(out@);
    let mut j: usize = 0;
    while j < images.len()
        invariant
            0 <= j <= images@.len(),
            strings_view(out@) == first + images@.take(j as int).fold_left(
                seq![],
                |acc: Seq<Seq<char>>, e: (ImagePackage, Vec<bool>)|
                    acc + strings_view(e.0.depends@).map_values(|d: Seq<char>| bare_name(d))
                        + strings_view(e.0.optdepends@).map_values(|d: Seq<char>| bare_name(d)),
            ),
        decreases images@.len() - j,
    {
        proof {
            assert(images@.take(j + 1).drop_last() =~= images@.take(j as int));
        }
        let ghost before = strings_view(out@);
        push_bare_names(&mut out, &images[j].0.depends);
        push_bare_names(&mut out, &images[j].0.optdepends);
        proof {
            assert(strings_view(out@) =~= first + images@.take(j + 1).fold_left(
                seq![],
                |acc: Seq<Seq<char>>, e: (ImagePackage, Vec<bool>)|
                    acc + strings_view(e.0.depends@).map_values(|d: Seq<char>| bare_name(d))
                        + strings_view(e.0.optdepends@).map_values(|d: Seq<char>| bare_name(d)),
            ));
        }
        j = j + 1;
    }
    proof {
        assert(images@.take(images@.len() as int) =~= images@);
    }
    out
}

fn selects_local(args: &Args, p: &LocalPkg, sync: &Vec<String>, required: &Vec<String>) -> (r: bool)
    ensures
        r == local_selected(*args, *p, strings_view(sync@), strings_view(required@)),
{
    if args.deps && p.explicit {
        return false;
    }
    if args.explicit && !p.explicit {
        return false;
    }
    if args.unrequired && name_or_provides_required(p.name.as_str(), &p.provides, required) {
        return false;
    }
    let in_sync = crate::operations::query::set_contains(sync, p.name.as_str());
    if args.foreign && in_sync {
        return false;
    }
    if args.native && !in_sync {
        return false;
    }
    if args.upgrades && !p.upgradable {
        return false;
    }
    args.packages.len() == 0 || crate::operations::query::set_contains(&args.packages, p.name.as_str())
}

fn selects_image(args: &Args, p: &ImagePackage, sync: &Vec<String>, required: &Vec<String>) -> (r: bool)
    ensures
        r == image_selected(*args, *p, strings_view(sync@), strings_view(required@)),
{
    if args.upgrades {
        return false;
    }
    if args.deps && p.explicit {
        return false;
    }
    if args.explicit && !p.explicit {
        return false;
    }
    if args.unrequired && name_or_provides_required(p.name.as_str(), &p.provides, required) {
        return false;
    }
    let in_sync = crate::operations::query::set_contains(sync, p.name.as_str());
    if args.foreign && in_sync {
        return false;
    }
    if args.native && !in_sync {
        return false;
    }
    args.packages.len() == 0 || crate::operations::query::set_contains(&args.packages, p.name.as_str())
}

fn is_local_name(locals: &Vec<LocalPkg>, name: &str) -> (r: bool)
    ensures
        r == local_names(locals@).contains(name@),
{
    let mut i: usize = 0;
    while i < locals.len()
        invariant
            0 <= i <= locals@.len(),
            forall|k: int| 0 <= k < i ==> locals@[k].name@ != name@,
        decreases locals@.len() - i,
    {
        if str_eq(locals[i].name.as_str(), name) {
            proof {
                assert(local_names(locals@)[i as int] == name@);
            }
            return true;
        }
        i = i + 1;
    }
    proof {
        if local_names(locals@).contains(name@) {
            let k = choose|k: int| 0 <= k < local_names(locals@).len() && local_names(locals@)[k] == name@;
            assert(locals@[k].name@ == name@);
        }
    }
    false
}

/// The image packages not shadowed by an installed package.
pub fn unshadowed_images(images: Vec<(ImagePackage, Vec<bool>)>, locals: &Vec<LocalPkg>) -> (r: Vec<(ImagePackage, Vec<bool>)>)
    ensures
        r@ == unshadowed(images@, locals@),
{
    let ghost all = images@;
    let mut rest = images;
    let mut out: Vec<(ImagePackage, Vec<bool>)> = Vec::new();
    while rest.len() > 0
        invariant
            rest@.len() <= all.len(),
            rest@ == all.skip(all.len() - rest@.len()),
            out@ == unshadowed(all.take(all.len() - rest@.len()), locals@),
        decreases rest@.len(),
    {
        let ghost n = all.len() - rest@.len();
        let e = rest.remove(0);
        proof {
            assert(all.take(n + 1).drop_last() =~= all.take(n));
            assert(e == all[n]);
            assert(all.take(n + 1).last() == all[n]);
            assert(rest@ =~= all.skip(n + 1));
        }
        if !is_local_name(locals, e.0.name.as_str()) {
            out.push(e);
        }
    }
    proof {
        assert(all.take(all.len() as int) =~= all);
    }
    out
}

/// The `(name, version)` of package lines.
pub open spec fn lines_view(v: Seq<PkgLine>) -> Seq<(Seq<char>, Seq<char>)> {
    v.map_values(|l: PkgLine| (l.name@, l.version@))
}

/// The `(package, file)` of file lines.
pub open spec fn file_lines_view(v: Seq<FileLine>) -> Seq<(Seq<char>, Seq<char>)> {
    v.map_values(|l: FileLine| (l.pkg@, l.file@))
}

/// The `-Ql` lines of installed packages.
pub open spec fn local_files(ps: Seq<LocalPkg>) -> Seq<(Seq<char>, Seq<char>)>
    decreases ps.len(),
{
    if ps.len() == 0 {
        seq![]
    } else {
        local_files(ps.drop_last()) + ps.last().files@.map_values(|f: PkgFile| (ps.last().name@, f.name@))
    }
}

/// The `-Ql` lines of image packages.
pub open spec fn image_files(ps: Seq<(ImagePackage, Vec<bool>)>) -> Seq<(Seq<char>, Seq<char>)>
    decreases ps.len(),
{
    if ps.len() == 0 {
        seq![]
    } else {
        image_files(ps.drop_last()) + ps.last().0.files@.map_values(|f: String| (ps.last().0.name@, f@))
    }
}

/// The plain `-Q` lines.
fn list_mode(args: &Args, locals: &Vec<LocalPkg>, images: &Vec<(ImagePackage, Vec<bool>)>, sync: &Vec<String>, req: &Vec<String>) -> (r: Vec<PkgLine>)
    ensures
        lines_view(r@) == sel_locals(*args, locals@, strings_view(sync@), strings_view(req@)).map_values(
            |p: LocalPkg| (p.name@, p.version@),
        ) + sel_images(*args, images@, strings_view(sync@), strings_view(req@)).map_values(
            |e: (ImagePackage, Vec<bool>)| (e.0.name@, e.0.version@),
        ),
{
    let ghost sv = strings_view(sync@);
    let ghost rv = strings_view(req@);
    let mut out: Vec<PkgLine> = Vec::new();
    let mut i: usize = 0;
    while i < locals.len()
        invariant
            0 <= i <= locals@.len(),
            sv == strings_view(sync@),
            rv == strings_view(req@),
            lines_view(out@) == sel_locals(*args, locals@.take(i as int), sv, rv).map_values(
                |p: LocalPkg| (p.name@, p.version@),
            ),
        decreases locals@.len() - i,
    {
        proof {
            assert(locals@.take(i + 1).drop_last() =~= locals@.take(i as int));
        }
        if selects_local(args, &locals[i], sync, req) {
            let ghost before = out@;
            out.push(PkgLine { name: locals[i].name.clone(), version: locals[i].version.clone() });
            proof {
                assert(lines_view(out@) =~= lines_view(before).push((locals@[i as int].name@, locals@[i as int].version@)));
            }
        }
        i = i + 1;
    }
    proof {
        assert(locals@.take(locals@.len() as int) =~= locals@);
    }
    let ghost first = lines_view(out@);
    let mut j: usize = 0;
    while j < images.len()
        invariant
            0 <= j <= images@.len(),
            sv == strings_view(sync@),
            rv == strings_view(req@),
            lines_view(out@) == first + sel_images(*args, images@.take(j as int), sv, rv).map_values(
                |e: (ImagePackage, Vec<bool>)| (e.0.name@, e.0.version@),
            ),
        decreases images@.len() - j,
    {
        proof {
            assert(images@.take(j + 1).drop_last() =~= images@.take(j as int));
        }
        if selects_image(args, &images[j].0, sync, req) {
            let ghost before = out@;
            out.push(PkgLine { name: images[j].0.name.clone(), version: images[j].0.version.clone() });
            proof {
                assert(lines_view(out@) =~= lines_view(before).push((images@[j as int].0.name@, images@[j as int].0.version@)));
            }
        }
        j = j + 1;
    }
    proof {
        assert(images@.take(images@.len() as int) =~= images@);
    }
    out
}

/// The `-Ql` lines.
fn files_mode(args: &Args, locals: &Vec<LocalPkg>, images: &Vec<(ImagePackage, Vec<bool>)>, sync: &Vec<String>, req: &Vec<String>) -> (r: Vec<FileLine>)
    ensures
        file_lines_view(r@) == local_files(sel_locals(*args, locals@, strings_view(sync@), strings_view(req@)))
            + image_files(sel_images(*args, images@, strings_view(sync@), strings_view(req@))),
{
    let ghost sv = strings_view(sync@);
    let ghost rv = strings_view(req@);
    let mut out: Vec<FileLine> = Vec::new();
    let mut i: usize = 0;
    while i < locals.len()
        invariant
            0 <= i <= locals@.len(),
            sv == strings_view(sync@),
            rv == strings_view(req@),
            file_lines_view(out@) == local_files(sel_locals(*args, locals@.take(i as int), sv, rv)),
        decreases locals@.len() - i,
    {
        proof {
            assert(locals@.take(i + 1).drop_last() =~= locals@.take(i as int));
        }
        if selects_local(args, &locals[i], sync, req) {
            let p = &locals[i];
            let ghost start = file_lines_view(out@);
            let mut k: usize = 0;
            while k < p.files.len()
                invariant
                    0 <= k <= p.files@.len(),
                    start == local_files(sel_locals(*args, locals@.take(i as int), sv, rv)),
                    file_lines_view(out@) == start + p.files@.take(k as int).map_values(
                        |f: PkgFile| (p.name@, f.name@),
                    ),
                decreases p.files@.len() - k,
            {
                let ghost before = out@;
                out.push(FileLine { pkg: p.name.clone(), file: p.files[k].name.clone() });
                proof {
                    assert(file_lines_view(out@) =~= file_lines_view(before).push((p.name@, p.files@[k as int].name@)));
                    assert(p.files@.take(k + 1).map_values(|f: PkgFile| (p.name@, f.name@)) =~= p.files@.take(
                        k as int,
                    ).map_values(|f: PkgFile| (p.name@, f.name@)).push((p.name@, p.files@[k as int].name@)));
                    assert(file_lines_view(out@) =~= start + p.files@.take(k + 1).map_values(
                        |f: PkgFile| (p.name@, f.name@),
                    ));
                }
                k = k + 1;
            }
            proof {
                assert(p.files@.take(p.files@.len() as int) =~= p.files@);
                let t1 = locals@.take(i + 1);
                assert(t1.last() == locals@[i as int]);
                let sl = sel_locals(*args, t1, sv, rv);
                assert(sl == sel_locals(*args, locals@.take(i as int), sv, rv).push(locals@[i as int]));
                assert(sl.drop_last() =~= sel_locals(*args, locals@.take(i as int), sv, rv));
                assert(local_files(sl) =~= start + p.files@.map_values(|f: PkgFile| (p.name@, f.name@)));
            }
        }
        i = i + 1;
    }
    proof {
        assert(locals@.take(locals@.len() as int) =~= locals@);
    }
    let ghost first = file_lines_view(out@);
    let mut j: usize = 0;
    while j < images.len()
        invariant
            0 <= j <= images@.len(),
            sv == strings_view(sync@),
            rv == strings_view(req@),
            file_lines_view(out@) == first + image_files(sel_images(*args, images@.take(j as int), sv, rv)),
        decreases images@.len() - j,
    {
        proof {
            assert(images@.take(j + 1).drop_last() =~= images@.take(j as int));
        }
        if selects_image(args, &images[j].0, sync, req) {
            let p = &images[j].0;
            let ghost start = file_lines_view(out@);
            let mut k: usize = 0;
            while k < p.files.len()
                invariant
                    0 <= k <= p.files@.len(),
                    start == first + image_files(sel_images(*args, images@.take(j as int), sv, rv)),
                    file_lines_view(out@) == start + p.files@.take(k as int).map_values(
                        |f: String| (p.name@, f@),
                    ),
                decreases p.files@.len() - k,
            {
                let ghost before = out@;
                out.push(FileLine { pkg: p.name.clone(), file: p.files[k].clone() });
                proof {
                    assert(file_lines_view(out@) =~= file_lines_view(before).push((p.name@, p.files@[k as int]@)));
                    assert(p.files@.take(k + 1).map_values(|f: String| (p.name@, f@)) =~= p.files@.take(
                        k as int,
                    ).map_values(|f: String| (p.name@, f@)).push((p.name@, p.files@[k as int]@)));
                    assert(file_lines_view(out@) =~= start + p.files@.take(k + 1).map_values(
                        |f: String| (p.name@, f@),
                    ));
                }
                k = k + 1;
            }
            proof {
                assert(p.files@.take(p.files@.len() as int) =~= p.files@);
                let t1 = images@.take(j + 1);
                assert(t1.last() == images@[j as int]);
                let si = sel_images(*args, t1, sv, rv);
                assert(si == sel_images(*args, images@.take(j as int), sv, rv).push(images@[j as int]));
                assert(si.drop_last() =~= sel_images(*args, images@.take(j as int), sv, rv));
                assert(first + image_files(si) =~= start + p.files@.map_values(|f: String| (p.name@, f@)));
            }
        }
        j = j + 1;
    }
    proof {
        assert(images@.take(images@.len() as int) =~= images@);
    }
    out
}

/// The `-Qi` blocks of the selected packages, installed ones first.
fn info_mode(args: &Args, locals: &Vec<LocalPkg>, images: &Vec<(ImagePackage, Vec<bool>)>, sync: &Vec<String>, req: &Vec<String>) -> (r: Vec<InfoBlock>)
    ensures
        ({
            let sl = sel_locals(*args, locals@, strings_view(sync@), strings_view(req@));
            let si = sel_images(*args, images@, strings_view(sync@), strings_view(req@));
            &&& r@.len() == sl.len() + si.len()
            &&& forall|k: int| 0 <= k < sl.len() ==> block_is(#[trigger] r@[k].fields@, local_labels(sl[k]), args.info >= 2, backup_lines(pairs_view(sl[k].backup@)))
            &&& forall|k: int| 0 <= k < si.len() ==> block_is(#[trigger] r@[sl.len() + k].fields@, image_labels(si[k].0), args.info >= 2, backup_lines(pairs_view(si[k].0.backup@)))
        }),
{
    let ghost sv = strings_view(sync@);
    let ghost rv = strings_view(req@);
    let mut out: Vec<InfoBlock> = Vec::new();
    let mut i: usize = 0;
    while i < locals.len()
        invariant
            0 <= i <= locals@.len(),
            sv == strings_view(sync@),
            rv == strings_view(req@),
            out@.len() == sel_locals(*args, locals@.take(i as int), sv, rv).len(),
            forall|k: int| 0 <= k < out@.len() ==> block_is(#[trigger] out@[k].fields@, local_labels(sel_locals(*args, locals@.take(i as int), sv, rv)[k]), args.info >= 2, backup_lines(pairs_view(sel_locals(*args, locals@.take(i as int), sv, rv)[k].backup@))),
        decreases locals@.len() - i,
    {
        proof {
            assert(locals@.take(i + 1).drop_last() =~= locals@.take(i as int));
        }
        if selects_local(args, &locals[i], sync, req) {
            let b = info_block(args, &locals[i]);
            out.push(b);
        }
        i = i + 1;
    }
    proof {
        assert(locals@.take(locals@.len() as int) =~= locals@);
    }
    let ghost n = out@.len();
    let mut j: usize = 0;
    while j < images.len()
        invariant
            0 <= j <= images@.len(),
            sv == strings_view(sync@),
            rv == strings_view(req@),
            n == sel_locals(*args, locals@, sv, rv).len(),
            out@.len() == n + sel_images(*args, images@.take(j as int), sv, rv).len(),
            forall|k: int| 0 <= k < n ==> block_is(#[trigger] out@[k].fields@, local_labels(sel_locals(*args, locals@, sv, rv)[k]), args.info >= 2, backup_lines(pairs_view(sel_locals(*args, locals@, sv, rv)[k].backup@))),
            forall|k: int| 0 <= k < out@.len() - n ==> block_is(#[trigger] out@[n + k].fields@, image_labels(sel_images(*args, images@.take(j as int), sv, rv)[k].0), args.info >= 2, backup_lines(pairs_view(sel_images(*args, images@.take(j as int), sv, rv)[k].0.backup@))),
        decreases images@.len() - j,
    {
        proof {
            assert(images@.take(j + 1).drop_last() =~= images@.take(j as int));
        }
        if selects_image(args, &images[j].0, sync, req) {
            let b = image_info_block(args, &images[j].0);
            let ghost before = out@;
            out.push(b);
            proof {
                assert(block_is(b.fields@, image_labels(images@[j as int].0), args.info >= 2, backup_lines(pairs_view(images@[j as int].0.backup@))));
                assert forall|k: int| 0 <= k < n implies block_is(#[trigger] out@[k].fields@, local_labels(sel_locals(*args, locals@, sv, rv)[k]), args.info >= 2, backup_lines(pairs_view(sel_locals(*args, locals@, sv, rv)[k].backup@))) by {
                    assert(out@[k] == before[k]);
                }
                let si = sel_images(*args, images@.take(j + 1), sv, rv);
                assert forall|k: int| 0 <= k < out@.len() - n implies block_is(#[trigger] out@[n + k].fields@, image_labels(si[k].0), args.info >= 2, backup_lines(pairs_view(si[k].0.backup@))) by {
                    if k < before.len() - n {
                        assert(out@[n + k] == before[n + k]);
                    }
                }
            }
        }
        j = j + 1;
    }
    proof {
        assert(images@.take(images@.len() as int) =~= images@);
    }
    out
}

/// `c` is the `-Qk` result of installed package `p`.
pub open spec fn local_check_is(c: CheckResult, args: Args, p: LocalPkg) -> bool {
    let (pr, m, a) = check_fold(p.name@, p.files@, p.states@, args.quiet, args.check >= 2);
    &&& strings_view(c.problems@) == pr
    &&& c.summary@ == p.name@ + ": "@ + dec(p.files@.len() as nat) + " total files, "@ + dec(m as nat)
        + " missing files"@ + if args.check >= 2 {
        ", "@ + dec(a as nat) + " altered files"@
    } else {
        seq![]
    }
}

/// Whether installed package `p` has missing or altered files.
pub open spec fn local_check_fails(args: Args, p: LocalPkg) -> bool {
    let (pr, m, a) = check_fold(p.name@, p.files@, p.states@, args.quiet, args.check >= 2);
    m > 0 || a > 0
}

/// `c` is the `-Qk` result of image package `p` with missing-file flags `m`.
pub open spec fn image_check_is(c: CheckResult, args: Args, p: ImagePackage, m: Seq<bool>) -> bool {
    &&& c.summary@ == p.name@ + ": "@ + dec(p.files@.len() as nat) + " total files, "@ + dec(
        missing_count(m) as nat,
    ) + " missing files"@ + if args.check >= 2 {
        ", 0 altered files"@
    } else {
        seq![]
    }
    &&& args.quiet ==> c.problems@.len() == 0
    &&& !args.quiet ==> strings_view(c.problems@) == missing_lines(p.name@, strings_view(p.files@), m)
}

/// The `-Qk` results of the selected packages, and whether any of them has
/// missing or altered files.
fn check_mode(args: &Args, locals: &Vec<LocalPkg>, images: &Vec<(ImagePackage, Vec<bool>)>, sync: &Vec<String>, req: &Vec<String>) -> (r: (Vec<CheckResult>, bool))
    requires
        forall|k: int| 0 <= k < locals@.len() ==> #[trigger] locals@[k].states@.len() == locals@[k].files@.len(),
        forall|k: int| 0 <= k < images@.len() ==> #[trigger] images@[k].1@.len() == images@[k].0.files@.len(),
    ensures
        ({
            let sl = sel_locals(*args, locals@, strings_view(sync@), strings_view(req@));
            let si = sel_images(*args, images@, strings_view(sync@), strings_view(req@));
            &&& r.0@.len() == sl.len() + si.len()
            &&& forall|k: int| 0 <= k < sl.len() ==> local_check_is(#[trigger] r.0@[k], *args, sl[k])
            &&& forall|k: int| 0 <= k < si.len() ==> image_check_is(#[trigger] r.0@[sl.len() + k], *args, si[k].0, si[k].1@)
            &&& r.1 == ((exists|k: int| 0 <= k < sl.len() && local_check_fails(*args, #[trigger] sl[k])) || (exists|k: int, q: int| 0 <= k < si.len() && 0 <= q < si[k].1@.len() && #[trigger] si[k].1@[q]))
        }),
{
    let ghost sv = strings_view(sync@);
    let ghost rv = strings_view(req@);
    let mut out: Vec<CheckResult> = Vec::new();
    let mut failed = false;
    let mut i: usize = 0;
    while i < locals.len()
        invariant
            0 <= i <= locals@.len(),
            sv == strings_view(sync@),
            rv == strings_view(req@),
            forall|k: int| 0 <= k < locals@.len() ==> #[trigger] locals@[k].states@.len() == locals@[k].files@.len(),
            out@.len() == sel_locals(*args, locals@.take(i as int), sv, rv).len(),
            forall|k: int| 0 <= k < out@.len() ==> local_check_is(#[trigger] out@[k], *args, sel_locals(*args, locals@.take(i as int), sv, rv)[k]),
            failed == exists|k: int| 0 <= k < out@.len() && local_check_fails(*args, #[trigger] sel_locals(*args, locals@.take(i as int), sv, rv)[k]),
        decreases locals@.len() - i,
    {
        proof {
            assert(locals@.take(i + 1).drop_last() =~= locals@.take(i as int));
        }
        if selects_local(args, &locals[i], sync, req) {
            let ghost sl0 = sel_locals(*args, locals@.take(i as int), sv, rv);
            let ghost sl1 = sel_locals(*args, locals@.take(i + 1), sv, rv);
            let (c, f) = build_check(args, &locals[i]);
            let ghost before = out@;
            out.push(c);
            failed = failed || f;
            proof {
                assert(sl1 == sl0.push(locals@[i as int]));
                assert forall|k: int| 0 <= k < out@.len() implies local_check_is(#[trigger] out@[k], *args, sl1[k]) by {
                    if k < before.len() {
                        assert(out@[k] == before[k]);
                        assert(sl1[k] == sl0[k]);
                    }
                }
                if failed {
                    if f {
                        assert(local_check_fails(*args, sl1[before.len() as int]));
                    } else {
                        let k = choose|k: int| 0 <= k < before.len() && local_check_fails(*args, #[trigger] sl0[k]);
                        assert(sl1[k] == sl0[k]);
                    }
                } else {
                    assert forall|k: int| 0 <= k < out@.len() implies !local_check_fails(*args, #[trigger] sl1[k]) by {
                        if k < before.len() {
                            assert(sl1[k] == sl0[k]);
                        }
                    }
                }
            }
        } else {
            proof {
                assert(sel_locals(*args, locals@.take(i + 1), sv, rv) == sel_locals(*args, locals@.take(i as int), sv, rv));
            }
        }
        i = i + 1;
    }
    proof {
        assert(locals@.take(locals@.len() as int) =~= locals@);
    }
    let ghost n = out@.len();
    let ghost lf = failed;
    let mut j: usize = 0;
    while j < images.len()
        invariant
            0 <= j <= images@.len(),
            sv == strings_view(sync@),
            rv == strings_view(req@),
            forall|k: int| 0 <= k < images@.len() ==> #[trigger] images@[k].1@.len() == images@[k].0.files@.len(),
            n == sel_locals(*args, locals@, sv, rv).len(),
            lf == exists|k: int| 0 <= k < n && local_check_fails(*args, #[trigger] sel_locals(*args, locals@, sv, rv)[k]),
            out@.len() == n + sel_images(*args, images@.take(j as int), sv, rv).len(),
            forall|k: int| 0 <= k < n ==> local_check_is(#[trigger] out@[k], *args, sel_locals(*args, locals@, sv, rv)[k]),
            forall|k: int| 0 <= k < out@.len() - n ==> image_check_is(#[trigger] out@[n + k], *args, sel_images(*args, images@.take(j as int), sv, rv)[k].0, sel_images(*args, images@.take(j as int), sv, rv)[k].1@),
            failed == (lf || exists|k: int, q: int| 0 <= k < out@.len() - n && 0 <= q < sel_images(*args, images@.take(j as int), sv, rv)[k].1@.len() && #[trigger] sel_images(*args, images@.take(j as int), sv, rv)[k].1@[q]),
        decreases images@.len() - j,
    {
        proof {
            assert(images@.take(j + 1).drop_last() =~= images@.take(j as int));
        }
        if selects_image(args, &images[j].0, sync, req) {
            let ghost si0 = sel_images(*args, images@.take(j as int), sv, rv);
            let ghost si1 = sel_images(*args, images@.take(j + 1), sv, rv);
            let (c, f) = build_image_check(args, &images[j].0, &images[j].1);
            let ghost before = out@;
            out.push(c);
            failed = failed || f;
            proof {
                assert(si1 == si0.push(images@[j as int]));
                assert forall|k: int| 0 <= k < n implies local_check_is(#[trigger] out@[k], *args, sel_locals(*args, locals@, sv, rv)[k]) by {
                    assert(out@[k] == before[k]);
                }
                assert forall|k: int| 0 <= k < out@.len() - n implies image_check_is(#[trigger] out@[n + k], *args, si1[k].0, si1[k].1@) by {
                    if k < before.len() - n {
                        assert(out@[n + k] == before[n + k]);
                        assert(si1[k] == si0[k]);
                    }
                }
                let img_fail = exists|k: int, q: int| 0 <= k < out@.len() - n && 0 <= q < si1[k].1@.len() && #[trigger] si1[k].1@[q];
                if f {
                    let q = choose|q: int| 0 <= q < images@[j as int].1@.len() && images@[j as int].1@[q];
                    assert(si1[si0.len() as int].1@[q]);
                }
                if exists|k: int, q: int| 0 <= k < before.len() - n && 0 <= q < si0[k].1@.len() && #[trigger] si0[k].1@[q] {
                    let (k, q) = choose|k: int, q: int| 0 <= k < before.len() - n && 0 <= q < si0[k].1@.len() && #[trigger] si0[k].1@[q];
                    assert(si1[k] == si0[k]);
                    assert(si1[k].1@[q]);
                }
                if img_fail {
                    let (k, q) = choose|k: int, q: int| 0 <= k < out@.len() - n && 0 <= q < si1[k].1@.len() && #[trigger] si1[k].1@[q];
                    if k < before.len() - n {
                        assert(si1[k] == si0[k]);
                        assert(si0[k].1@[q]);
                    } else {
                        assert(images@[j as int].1@[q]);
                    }
                }
            }
        } else {
            proof {
                assert(sel_images(*args, images@.take(j + 1), sv, rv) == sel_images(*args, images@.take(j as int), sv, rv));
            }
        }
        j = j + 1;
    }
    proof {
        assert(images@.take(images@.len() as int) =~= images@);
    }
    (out, failed)
}

/// The content of a query error.
pub enum QErr {
    NotFound(Seq<char>),
    Other(Seq<char>),
    Io(Seq<char>),
}

pub open spec fn qerr(e: QueryError) -> QErr {
    match e {
        QueryError::NotFound(s) => QErr::NotFound(s@),
        QueryError::Other(s) => QErr::Other(s@),
        QueryError::Io(s) => QErr::Io(s@),
    }
}

pub open spec fn opt_qerr(e: Option<QueryError>) -> Option<QErr> {
    match e {
        Some(x) => Some(qerr(x)),
        None => None,
    }
}

/// A changelog's text, ending in a newline.
pub open spec fn cl_text(t: Seq<char>) -> Seq<char> {
    if t.len() > 0 && t.last() == '\n' {
        t
    } else {
        t + "\n"@
    }
}

/// `-Qc` state: the changelogs so far, the diagnostics, and the error that
/// stopped it.
pub open spec fn cl_step(st: (Seq<Seq<char>>, Seq<Seq<char>>, Option<QErr>), p: LocalPkg) -> (
    Seq<Seq<char>>,
    Seq<Seq<char>>,
    Option<QErr>,
) {
    if st.2 is Some {
        st
    } else {
        match p.changelog {
            Some(Ok(t)) => (st.0.push(cl_text(t@)), st.1, None),
            Some(Err(m)) => (st.0, st.1, Some(QErr::Io(m@))),
            None => (st.0, st.1.push("error: no changelog available for '"@ + p.name@ + "'"@), Some(
                QErr::Other("no changelog for "@ + p.name@),
            )),
        }
    }
}

/// An image package never has a changelog.
pub open spec fn cl_image_step(st: (Seq<Seq<char>>, Seq<Seq<char>>, Option<QErr>), p: ImagePackage) -> (
    Seq<Seq<char>>,
    Seq<Seq<char>>,
    Option<QErr>,
) {
    if st.2 is Some {
        st
    } else {
        (st.0, st.1.push("error: no changelog available for '"@ + p.name@ + "'"@), Some(
            QErr::Other("no changelog for "@ + p.name@),
        ))
    }
}

pub open spec fn cl_locals(ls: Seq<LocalPkg>) -> (Seq<Seq<char>>, Seq<Seq<char>>, Option<QErr>)
    decreases ls.len(),
{
    if ls.len() == 0 {
        (seq![], seq![], None)
    } else {
        cl_step(cl_locals(ls.drop_last()), ls.last())
    }
}

pub open spec fn cl_images(st: (Seq<Seq<char>>, Seq<Seq<char>>, Option<QErr>), is: Seq<(ImagePackage, Vec<bool>)>) -> (
    Seq<Seq<char>>,
    Seq<Seq<char>>,
    Option<QErr>,
)
    decreases is.len(),
{
    if is.len() == 0 {
        st
    } else {
        cl_image_step(cl_images(st, is.drop_last()), is.last().0)
    }
}

/// `-Qc` over the selected packages: each changelog until the first one that
/// is missing or unreadable.
fn changelog_mode(args: &Args, locals: &Vec<LocalPkg>, images: &Vec<(ImagePackage, Vec<bool>)>, sync: &Vec<String>, req: &Vec<String>) -> (r: (Vec<String>, Vec<String>, Option<QueryError>))
    ensures
        ({
            let st = cl_images(
                cl_locals(sel_locals(*args, locals@, strings_view(sync@), strings_view(req@))),
                sel_images(*args, images@, strings_view(sync@), strings_view(req@)),
            );
            &&& strings_view(r.0@) == st.0
            &&& strings_view(r.1@) == st.1
            &&& opt_qerr(r.2) == st.2
        }),
{
    let ghost sv = strings_view(sync@);
    let ghost rv = strings_view(req@);
    let mut entries: Vec<String> = Vec::new();
    let mut diags: Vec<String> = Vec::new();
    let mut err: Option<QueryError> = None;
    let mut i: usize = 0;
    while i < locals.len()
        invariant
            0 <= i <= locals@.len(),
            sv == strings_view(sync@),
            rv == strings_view(req@),
            (strings_view(entries@), strings_view(diags@), opt_qerr(err)) == cl_locals(sel_locals(*args, locals@.take(i as int), sv, rv)),
        decreases locals@.len() - i,
    {
        proof {
            assert(locals@.take(i + 1).drop_last() =~= locals@.take(i as int));
        }
        if err.is_none() && selects_local(args, &locals[i], sync, req) {
            let p = &locals[i];
            match &p.changelog {
                Some(Ok(t)) => {
                    let mut buf = t.clone();
                    let v = chars_of(buf.as_str());
                    if !(v.len() > 0 && v[v.len() - 1] == '\n') {
                        buf.push('\n');
                    }
                    let ghost before = entries@;
                    entries.push(buf);
                    proof {
                        if t@.len() > 0 {
                            assert(t@.last() == v@[v@.len() - 1]);
                        }
                        reveal_strlit("\n");
                        assert(buf@ == cl_text(t@));
                        assert(strings_view(entries@) =~= strings_view(before).push(cl_text(t@)));
                    }
                },
                Some(Err(m)) => {
                    err = Some(QueryError::Io(m.clone()));
                },
                None => {
                    let mut d = to_owned("error: no changelog available for '");
                    push_str(&mut d, p.name.as_str());
                    push_str(&mut d, "'");
                    let ghost before = diags@;
                    diags.push(d);
                    let mut e = to_owned("no changelog for ");
                    push_str(&mut e, p.name.as_str());
                    err = Some(QueryError::Other(e));
                    proof {
                        assert(strings_view(diags@) =~= strings_view(before).push(d@));
                    }
                },
            }
            proof {
                let sl0 = sel_locals(*args, locals@.take(i as int), sv, rv);
                let sl1 = sel_locals(*args, locals@.take(i + 1), sv, rv);
                assert(sl1 == sl0.push(locals@[i as int]));
                assert(sl1.drop_last() =~= sl0);
            }
        } else {
            proof {
                let sl0 = sel_locals(*args, locals@.take(i as int), sv, rv);
                let sl1 = sel_locals(*args, locals@.take(i + 1), sv, rv);
                if local_selected(*args, locals@[i as int], sv, rv) {
                    assert(sl1 == sl0.push(locals@[i as int]));
                    assert(sl1.drop_last() =~= sl0);
                } else {
                    assert(sl1 == sl0);
                }
            }
        }
        i = i + 1;
    }
    proof {
        assert(locals@.take(locals@.len() as int) =~= locals@);
    }
    let ghost st0 = cl_locals(sel_locals(*args, locals@, sv, rv));
    let mut j: usize = 0;
    while j < images.len()
        invariant
            0 <= j <= images@.len(),
            sv == strings_view(sync@),
            rv == strings_view(req@),
            (strings_view(entries@), strings_view(diags@), opt_qerr(err)) == cl_images(st0, sel_images(*args, images@.take(j as int), sv, rv)),
        decreases images@.len() - j,
    {
        proof {
            assert(images@.take(j + 1).drop_last() =~= images@.take(j as int));
        }
        if err.is_none() && selects_image(args, &images[j].0, sync, req) {
            let p = &images[j].0;
            let mut d = to_owned("error: no changelog available for '");
            push_str(&mut d, p.name.as_str());
            push_str(&mut d, "'");
            let ghost before = diags@;
            diags.push(d);
            let mut e = to_owned("no changelog for ");
            push_str(&mut e, p.name.as_str());
            err = Some(QueryError::Other(e));
            proof {
                assert(strings_view(diags@) =~= strings_view(before).push(d@));
                let si0 = sel_images(*args, images@.take(j as int), sv, rv);
                let si1 = sel_images(*args, images@.take(j + 1), sv, rv);
                assert(si1 == si0.push(images@[j as int]));
                assert(si1.drop_last() =~= si0);
            }
        } else {
            proof {
                let si0 = sel_images(*args, images@.take(j as int), sv, rv);
                let si1 = sel_images(*args, images@.take(j + 1), sv, rv);
                if image_selected(*args, images@[j as int].0, sv, rv) {
                    assert(si1 == si0.push(images@[j as int]));
                    assert(si1.drop_last() =~= si0);
                } else {
                    assert(si1 == si0);
                }
            }
        }
        j = j + 1;
    }
    proof {
        assert(images@.take(images@.len() as int) =~= images@);
    }
    (entries, diags, err)
}

/// The names of `ps` not found as installed or image packages, each once, in
/// the order first given.
pub open spec fn not_found(ps: Seq<Seq<char>>, locals: Seq<Seq<char>>, images: Seq<Seq<char>>) -> Seq<Seq<char>>
    decreases ps.len(),
{
    if ps.len() == 0 {
        seq![]
    } else {
        let r = not_found(ps.drop_last(), locals, images);
        let n = ps.last();
        if ps.drop_last().contains(n) || locals.contains(n) || images.contains(n) {
            r
        } else {
            r.push(n)
        }
    }
}

/// The names of image packages.
pub open spec fn image_names(is: Seq<(ImagePackage, Vec<bool>)>) -> Seq<Seq<char>> {
    is.map_values(|e: (ImagePackage, Vec<bool>)| e.0.name@)
}

fn is_image_name(images: &Vec<(ImagePackage, Vec<bool>)>, name: &str) -> (r: bool)
    ensures
        r == image_names(images@).contains(name@),
{
    let mut i: usize = 0;
    while i < images.len()
        invariant
            0 <= i <= images@.len(),
            forall|k: int| 0 <= k < i ==> images@[k].0.name@ != name@,
        decreases images@.len() - i,
    {
        if str_eq(images[i].0.name.as_str(), name) {
            proof {
                assert(image_names(images@)[i as int] == name@);
            }
            return true;
        }
        i = i + 1;
    }
    proof {
        if image_names(images@).contains(name@) {
            let k = choose|k: int| 0 <= k < image_names(images@).len() && image_names(images@)[k] == name@;
            assert(images@[k].0.name@ == name@);
        }
    }
    false
}

/// The named targets that are neither installed nor image packages.
fn missing_targets(names: &Vec<String>, locals: &Vec<LocalPkg>, images: &Vec<(ImagePackage, Vec<bool>)>) -> (r: Vec<String>)
    ensures
        strings_view(r@) == not_found(strings_view(names@), local_names(locals@), image_names(images@)),
{
    let ghost nv = strings_view(names@);
    let mut out: Vec<String> = Vec::new();
    let mut i: usize = 0;
    while i < names.len()
        invariant
            0 <= i <= names@.len(),
            nv == strings_view(names@),
            strings_view(out@) == not_found(nv.take(i as int), local_names(locals@), image_names(images@)),
        decreases names@.len() - i,
    {
        proof {
            assert(nv.take(i + 1).drop_last() =~= nv.take(i as int));
            assert(nv.take(i + 1).last() == names@[i as int]@);
        }
        let mut seen = false;
        let mut k: usize = 0;
        while k < i
            invariant
                0 <= k <= i < names@.len(),
                nv == strings_view(names@),
                seen == exists|q: int| 0 <= q < k && nv[q] == names@[i as int]@,
            decreases i - k,
        {
            if str_eq(names[k].as_str(), names[i].as_str()) {
                seen = true;
            }
            proof {
                assert(nv[k as int] == names@[k as int]@);
            }
            k = k + 1;
        }
        proof {
            if seen {
                let q = choose|q: int| 0 <= q < i && nv[q] == names@[i as int]@;
                assert(nv.take(i as int)[q] == nv[q]);
            }
            if nv.take(i as int).contains(names@[i as int]@) {
                let q = choose|q: int| 0 <= q < i && nv.take(i as int)[q] == names@[i as int]@;
                assert(nv[q] == names@[i as int]@);
            }
        }
        if !seen && !is_local_name(locals, names[i].as_str()) && !is_image_name(images, names[i].as_str()) {
            let ghost before = out@;
            out.push(names[i].clone());
            proof {
                assert(strings_view(out@) =~= strings_view(before).push(names@[i as int]@));
            }
        }
        i = i + 1;
    }
    proof {
        assert(nv.take(names@.len() as int) =~= nv);
    }
    out
}

proof fn lemma_unshadowed_from(images: Seq<(ImagePackage, Vec<bool>)>, locals: Seq<LocalPkg>)
    ensures
        forall|k: int| 0 <= k < unshadowed(images, locals).len() ==> exists|j: int| 0 <= j < images.len() && images[j] == #[trigger] unshadowed(images, locals)[k],
    decreases images.len(),
{
    if images.len() > 0 {
        lemma_unshadowed_from(images.drop_last(), locals);
        let u = unshadowed(images, locals);
        let u0 = unshadowed(images.drop_last(), locals);
        assert forall|k: int| 0 <= k < u.len() implies exists|j: int| 0 <= j < images.len() && images[j] == #[trigger] u[k] by {
            if k < u0.len() {
                let j = choose|j: int| 0 <= j < images.drop_last().len() && images.drop_last()[j] == u0[k];
                assert(images[j] == u[k]);
            } else {
                assert(images[images.len() - 1] == u[k]);
            }
        }
    }
}

/// The `not found` diagnostic of a named target.
pub open spec fn not_found_line(n: Seq<char>) -> Seq<char> {
    "error: package '"@ + n + "' was not found"@
}

/// Whether any selected package has missing or altered files.
pub open spec fn any_check_fails(args: Args, sl: Seq<LocalPkg>, si: Seq<(ImagePackage, Vec<bool>)>) -> bool {
    (exists|k: int| 0 <= k < sl.len() && local_check_fails(args, #[trigger] sl[k])) || (exists|k: int, q: int|
        0 <= k < si.len() && 0 <= q < si[k].1@.len() && #[trigger] si[k].1@[q])
}

/// The plain `-Q` report over the installed packages (`locals`, libalpm's
/// local database, in its order) and the image packages (`images`, each with
/// its missing-file flags for `-Qk`); `sync` holds the names in the sync
/// databases. An image package shadowed by an installed one of the same name
/// is left out. The selected packages each give a line, a `-Qi` block, their
/// `-Ql` lines, a `-Qk` result or their changelog, by the query's mode;
/// `-Qc` stops at the first package without a readable changelog. A named
/// target found nowhere is reported (unless `-Qc` stopped), then the error is
/// the changelog failure, else the missing targets, else a failed check.
#[verifier::spinoff_prover]
#[verifier::rlimit(60)]
pub fn query_local(args: &Args, locals: &Vec<LocalPkg>, images: Vec<(ImagePackage, Vec<bool>)>, sync: &Vec<String>) -> (r: QueryReport)
    requires
        args.check > 0 ==> forall|k: int| 0 <= k < locals@.len() ==> #[trigger] locals@[k].states@.len() == locals@[k].files@.len(),
        args.check > 0 ==> forall|k: int| 0 <= k < images@.len() ==> #[trigger] images@[k].1@.len() == images@[k].0.files@.len(),
    ensures
        ({
            let ui = unshadowed(images@, locals@);
            let req = if args.unrequired {
                required_of(locals@, ui)
            } else {
                seq![]
            };
            let sv = strings_view(sync@);
            let sl = sel_locals(*args, locals@, sv, req);
            let si = sel_images(*args, ui, sv, req);
            let cl = cl_images(cl_locals(sl), si);
            let stopped = args.changelog && cl.2 is Some;
            let nf = not_found(strings_view(args.packages@), local_names(locals@), image_names(ui));
            &&& args.changelog ==> (r.body matches QueryBody::Changelog(es) && strings_view(es@) == cl.0)
            &&& !args.changelog && args.check > 0 ==> (r.body matches QueryBody::Check(rs) && rs@.len() == sl.len() + si.len()
                && (forall|k: int| 0 <= k < sl.len() ==> local_check_is(#[trigger] rs@[k], *args, sl[k]))
                && (forall|k: int| 0 <= k < si.len() ==> image_check_is(#[trigger] rs@[sl.len() + k], *args, si[k].0, si[k].1@)))
            &&& !args.changelog && args.check == 0 && args.list ==> (r.body matches QueryBody::Files { quiet, lines } && quiet == args.quiet
                && file_lines_view(lines@) == local_files(sl) + image_files(si))
            &&& !args.changelog && args.check == 0 && !args.list && args.info > 0 ==> (r.body matches QueryBody::Info(bs) && bs@.len() == sl.len() + si.len()
                && (forall|k: int| 0 <= k < sl.len() ==> block_is(#[trigger] bs@[k].fields@, local_labels(sl[k]), args.info >= 2, backup_lines(pairs_view(sl[k].backup@))))
                && (forall|k: int| 0 <= k < si.len() ==> block_is(#[trigger] bs@[sl.len() + k].fields@, image_labels(si[k].0), args.info >= 2, backup_lines(pairs_view(si[k].0.backup@)))))
            &&& !args.changelog && args.check == 0 && !args.list && args.info == 0 ==> (r.body matches QueryBody::List { quiet, pkgs } && quiet == args.quiet
                && lines_view(pkgs@) == sl.map_values(|p: LocalPkg| (p.name@, p.version@)) + si.map_values(|e: (ImagePackage, Vec<bool>)| (e.0.name@, e.0.version@)))
            &&& strings_view(r.diagnostics@) == (if args.changelog {
                cl.1
            } else {
                seq![]
            }) + (if stopped {
                seq![]
            } else {
                nf.map_values(|n: Seq<char>| not_found_line(n))
            })
            &&& opt_qerr(r.error) == if stopped {
                cl.2
            } else if nf.len() > 0 {
                Some(QErr::NotFound(join(strings_view(args.packages@), ", "@)))
            } else if !args.changelog && args.check > 0 && any_check_fails(*args, sl, si) {
                Some(QErr::Other("package files are missing or altered"@))
            } else {
                None
            }
        }),
{
    let ghost all = images@;
    let imgs = unshadowed_images(images, locals);
    proof {
        lemma_unshadowed_from(all, locals@);
        if args.check > 0 {
            assert forall|k: int| 0 <= k < imgs@.len() implies #[trigger] imgs@[k].1@.len() == imgs@[k].0.files@.len() by {
                let j = choose|j: int| 0 <= j < all.len() && all[j] == imgs@[k];
                assert(all[j].1@.len() == all[j].0.files@.len());
            }
        }
    }
    let req = if args.unrequired {
        merged_required_names(locals, &imgs)
    } else {
        Vec::new()
    };
    proof {
        if !args.unrequired {
            assert(strings_view(req@) =~= seq![]);
        }
    }
    let mut body = Body {
        list: Vec::new(),
        info: Vec::new(),
        files: Vec::new(),
        check: Vec::new(),
        changelog: Vec::new(),
    };
    let mut diagnostics: Vec<String> = Vec::new();
    let mut cl_err: Option<QueryError> = None;
    let mut check_failed = false;
    if args.changelog {
        let (e, d, x) = changelog_mode(args, locals, &imgs, sync, &req);
        body.changelog = e;
        diagnostics = d;
        cl_err = x;
    } else if args.check > 0 {
        let (c, f) = check_mode(args, locals, &imgs, sync, &req);
        body.check = c;
        check_failed = f;
    } else if args.list {
        body.files = files_mode(args, locals, &imgs, sync, &req);
    } else if args.info > 0 {
        body.info = info_mode(args, locals, &imgs, sync, &req);
    } else {
        body.list = list_mode(args, locals, &imgs, sync, &req);
    }
    proof {
        if !args.changelog {
            assert(strings_view(diagnostics@) =~= seq![]);
        }
    }
    let ghost first = strings_view(diagnostics@);
    let mut missing = false;
    if cl_err.is_none() {
        let nf = missing_targets(&args.packages, locals, &imgs);
        let mut i: usize = 0;
        while i < nf.len()
            invariant
                0 <= i <= nf@.len(),
                strings_view(diagnostics@) == first + strings_view(nf@).take(i as int).map_values(|n: Seq<char>| not_found_line(n)),
            decreases nf@.len() - i,
        {
            let mut d = to_owned("error: package '");
            push_str(&mut d, nf[i].as_str());
            push_str(&mut d, "' was not found");
            let ghost before = diagnostics@;
            diagnostics.push(d);
            proof {
                assert(strings_view(nf@).take(i + 1).map_values(|n: Seq<char>| not_found_line(n)) =~= strings_view(nf@).take(i as int).map_values(|n: Seq<char>| not_found_line(n)).push(not_found_line(nf@[i as int]@)));
                assert(strings_view(diagnostics@) =~= strings_view(before).push(d@));
            }
            i = i + 1;
        }
        proof {
            assert(strings_view(nf@).take(nf@.len() as int) =~= strings_view(nf@));
        }
        missing = nf.len() > 0;
    } else {
        proof {
            assert(strings_view(diagnostics@) =~= first + seq![]);
        }
    }
    let error = if cl_err.is_some() {
        cl_err
    } else if missing {
        Some(QueryError::NotFound(join_strings(&args.packages, ", ")))
    } else if check_failed {
        Some(QueryError::Other(to_owned("package files are missing or altered")))
    } else {
        None
    };
    QueryReport { body: body.into_body(args), diagnostics, error }
}

// ---------------------------------------------------------------------------
// -Qs
// ---------------------------------------------------------------------------

/// The content of a search hit.
pub open spec fn hit_view(h: crate::report::SearchHit) -> (bool, Seq<char>, Seq<char>, Seq<char>) {
    (h.source is Local, h.name@, h.version@, h.desc@)
}

/// The installed packages whose name or description `pattern` matches.
pub open spec fn local_hits(pattern: Seq<char>, ps: Seq<LocalPkg>) -> Seq<(bool, Seq<char>, Seq<char>, Seq<char>)>
    decreases ps.len(),
{
    if ps.len() == 0 {
        seq![]
    } else {
        let r = local_hits(pattern, ps.drop_last());
        let p = ps.last();
        let d = match p.desc {
            Some(x) => x@,
            None => seq![],
        };
        if crate::operations::pattern::regex_match(pattern, p.name@) || (p.desc is Some
            && crate::operations::pattern::regex_match(pattern, d)) {
            r.push((true, p.name@, p.version@, d))
        } else {
            r
        }
    }
}

/// The image packages whose name or description (empty when absent)
/// `pattern` matches.
pub open spec fn image_hits(pattern: Seq<char>, ps: Seq<(ImagePackage, Vec<bool>)>) -> Seq<(bool, Seq<char>, Seq<char>, Seq<char>)>
    decreases ps.len(),
{
    if ps.len() == 0 {
        seq![]
    } else {
        let r = image_hits(pattern, ps.drop_last());
        let p = ps.last().0;
        let d = match p.desc {
            Some(x) => x@,
            None => seq![],
        };
        if crate::operations::pattern::regex_match(pattern, p.name@) || crate::operations::pattern::regex_match(pattern, d) {
            r.push((false, p.name@, p.version@, d))
        } else {
            r
        }
    }
}

/// `-Qs`: the installed, then the unshadowed image packages whose name or
/// description the regular expression matches; an invalid pattern is an
/// error.
pub fn query_search(args: &Args, pattern: &str, locals: &Vec<LocalPkg>, images: Vec<(ImagePackage, Vec<bool>)>) -> (r: Result<QueryReport, crate::error::MizError>)
    ensures
        match crate::operations::pattern::regex_error(pattern@) {
            Some(m) => r matches Err(crate::error::MizError::Regex(x)) && x@ == m,
            None => r matches Ok(q) && q.diagnostics@.len() == 0 && q.error is None && (q.body matches QueryBody::Search { quiet, hits } && quiet == args.quiet
                && hits@.map_values(|h: crate::report::SearchHit| hit_view(h)) == local_hits(pattern@, locals@) + image_hits(pattern@, unshadowed(images@, locals@))),
        },
{
    let re = match crate::operations::pattern::compile(pattern) {
        Ok(re) => re,
        Err(m) => {
            return Err(crate::error::MizError::Regex(m));
        },
    };
    let imgs = unshadowed_images(images, locals);
    let mut hits: Vec<crate::report::SearchHit> = Vec::new();
    let mut i: usize = 0;
    while i < locals.len()
        invariant
            0 <= i <= locals@.len(),
            re.src() == pattern@,
            hits@.map_values(|h: crate::report::SearchHit| hit_view(h)) == local_hits(pattern@, locals@.take(i as int)),
        decreases locals@.len() - i,
    {
        proof {
            assert(locals@.take(i + 1).drop_last() =~= locals@.take(i as int));
        }
        let p = &locals[i];
        let name_match = crate::operations::pattern::is_match(&re, p.name.as_str());
        let desc_match = match &p.desc {
            Some(d) => crate::operations::pattern::is_match(&re, d.as_str()),
            None => false,
        };
        if name_match || desc_match {
            let d = match &p.desc {
                Some(x) => x.clone(),
                None => String::new(),
            };
            let ghost before = hits@;
            hits.push(crate::report::SearchHit { source: crate::report::SearchSource::Local, name: p.name.clone(), version: p.version.clone(), desc: d });
            proof {
                assert(hits@.map_values(|h: crate::report::SearchHit| hit_view(h)) =~= before.map_values(|h: crate::report::SearchHit| hit_view(h)).push(hit_view(hits@.last())));
            }
        }
        i = i + 1;
    }
    proof {
        assert(locals@.take(locals@.len() as int) =~= locals@);
    }
    let ghost first = hits@.map_values(|h: crate::report::SearchHit| hit_view(h));
    let mut j: usize = 0;
    while j < imgs.len()
        invariant
            0 <= j <= imgs@.len(),
            re.src() == pattern@,
            hits@.map_values(|h: crate::report::SearchHit| hit_view(h)) == first + image_hits(pattern@, imgs@.take(j as int)),
        decreases imgs@.len() - j,
    {
        proof {
            assert(imgs@.take(j + 1).drop_last() =~= imgs@.take(j as int));
        }
        let p = &imgs[j].0;
        let d = match &p.desc {
            Some(x) => x.clone(),
            None => String::new(),
        };
        let name_match = crate::operations::pattern::is_match(&re, p.name.as_str());
        let desc_match = crate::operations::pattern::is_match(&re, d.as_str());
        if name_match || desc_match {
            let ghost before = hits@;
            hits.push(crate::report::SearchHit { source: crate::report::SearchSource::Image, name: p.name.clone(), version: p.version.clone(), desc: d });
            proof {
                assert(hits@.map_values(|h: crate::report::SearchHit| hit_view(h)) =~= before.map_values(|h: crate::report::SearchHit| hit_view(h)).push(hit_view(hits@.last())));
            }
        }
        j = j + 1;
    }
    proof {
        assert(imgs@.take(imgs@.len() as int) =~= imgs@);
    }
    Ok(QueryReport { body: QueryBody::Search { quiet: args.quiet, hits }, diagnostics: Vec::new(), error: None })
}

// ---------------------------------------------------------------------------
// -Qo, -Qg, -Qp and the choice among them
// ---------------------------------------------------------------------------

/// Which `-Q` variant runs: `-p`, `-o`, `-g`, `-s`, else the plain query.
#[derive(PartialEq, Eq, Structural, Clone, Copy, Debug)]
pub enum QueryVerb {
    File,
    Owns,
    Groups,
    Search,
    Local,
}

/// Pick the `-Q` variant; `-p` wins, then `-o`, `-g`, `-s`.
pub fn query_verb(args: &Args) -> (r: QueryVerb)
    ensures
        r == if args.file is Some {
            QueryVerb::File
        } else if args.owns is Some {
            QueryVerb::Owns
        } else if args.groups {
            QueryVerb::Groups
        } else if args.search is Some {
            QueryVerb::Search
        } else {
            QueryVerb::Local
        },
{
    if args.file.is_some() {
        QueryVerb::File
    } else if args.owns.is_some() {
        QueryVerb::Owns
    } else if args.groups {
        QueryVerb::Groups
    } else if args.search.is_some() {
        QueryVerb::Search
    } else {
        QueryVerb::Local
    }
}

/// `s` without its trailing `/`s.
pub open spec fn trim_slashes_end(s: Seq<char>) -> Seq<char>
    decreases s.len(),
{
    if s.len() > 0 && s.last() == '/' {
        trim_slashes_end(s.drop_last())
    } else {
        s
    }
}

fn trimmed_eq(f: &str, needle: &str) -> (r: bool)
    ensures
        r == (trim_slashes_end(f@) == needle@),
{
    let v = chars_of(f);
    let mut n = v.len();
    proof {
        assert(v@.take(n as int) =~= v@);
    }
    while n > 0 && v[n - 1] == '/'
        invariant
            n <= v@.len(),
            trim_slashes_end(v@) == trim_slashes_end(v@.take(n as int)),
        decreases n,
    {
        proof {
            assert(v@.take(n as int).drop_last() =~= v@.take(n - 1));
        }
        n = n - 1;
    }
    let w = chars_of(needle);
    proof {
        assert(v@.take(v@.len() as int) =~= v@);
    }
    let r = crate::text::range_eq(&v, 0, n, &w);
    proof {
        assert(v@.subrange(0, n as int) =~= v@.take(n as int));
    }
    r
}

/// The `is owned by` lines of installed packages for `needle`.
pub open spec fn owns_local(path: Seq<char>, needle: Seq<char>, ps: Seq<LocalPkg>) -> Seq<Seq<char>>
    decreases ps.len(),
{
    if ps.len() == 0 {
        seq![]
    } else {
        let p = ps.last();
        owns_local(path, needle, ps.drop_last()) + p.files@.filter(|f: PkgFile| f.name@ == needle).map_values(
            |f: PkgFile| path + " is owned by "@ + p.name@ + " "@ + p.version@,
        )
    }
}

/// The `is owned by` lines of image packages owning `needle` (a directory
/// entry matches without its trailing `/`).
pub open spec fn owns_image(path: Seq<char>, needle: Seq<char>, ps: Seq<(ImagePackage, Vec<bool>)>) -> Seq<Seq<char>>
    decreases ps.len(),
{
    if ps.len() == 0 {
        seq![]
    } else {
        let p = ps.last().0;
        owns_image(path, needle, ps.drop_last()) + if exists|k: int| 0 <= k < p.files@.len() && trim_slashes_end(#[trigger] p.files@[k]@) == needle {
            seq![path + " is owned by "@ + p.name@ + " "@ + p.version@]
        } else {
            seq![]
        }
    }
}

/// `-Qo path`: `needle` is the path made absolute and canonical, without its
/// leading `/` (or the error met making it so).
pub fn query_owns(path: &str, needle: Result<String, String>, locals: &Vec<LocalPkg>, images: Vec<(ImagePackage, Vec<bool>)>) -> (r: QueryReport)
    ensures
        match needle {
            Err(e) => (r.body matches QueryBody::Owns(ls) && ls@.len() == 0) && r.diagnostics@.len() == 0 && opt_qerr(r.error) == Some(QErr::Other(e@)),
            Ok(n) => {
                let lines = owns_local(path@, n@, locals@) + owns_image(path@, n@, unshadowed(images@, locals@));
                &&& r.body matches QueryBody::Owns(ls) && strings_view(ls@) == lines
                &&& lines.len() == 0 ==> strings_view(r.diagnostics@) == seq!["error: No package owns "@ + path@] && opt_qerr(r.error) == Some(QErr::Other("no package owns "@ + path@))
                &&& lines.len() > 0 ==> r.diagnostics@.len() == 0 && r.error is None
            },
        },
{
    let n = match needle {
        Err(e) => {
            return QueryReport { body: QueryBody::Owns(Vec::new()), diagnostics: Vec::new(), error: Some(QueryError::Other(e)) };
        },
        Ok(n) => n,
    };
    let mut lines: Vec<String> = Vec::new();
    let mut i: usize = 0;
    while i < locals.len()
        invariant
            0 <= i <= locals@.len(),
            strings_view(lines@) == owns_local(path@, n@, locals@.take(i as int)),
        decreases locals@.len() - i,
    {
        proof {
            assert(locals@.take(i + 1).drop_last() =~= locals@.take(i as int));
        }
        let p = &locals[i];
        let ghost start = strings_view(lines@);
        let ghost line = path@ + " is owned by "@ + p.name@ + " "@ + p.version@;
        let mut k: usize = 0;
        while k < p.files.len()
            invariant
                0 <= k <= p.files@.len(),
                start == owns_local(path@, n@, locals@.take(i as int)),
                line == path@ + " is owned by "@ + p.name@ + " "@ + p.version@,
                strings_view(lines@) == start + p.files@.take(k as int).filter(|f: PkgFile| f.name@ == n@).map_values(|f: PkgFile| line),
            decreases p.files@.len() - k,
        {
            proof {
                assert(p.files@.take(k + 1).drop_last() =~= p.files@.take(k as int));
                reveal(Seq::filter);
            }
            if str_eq(p.files[k].name.as_str(), n.as_str()) {
                let mut l = to_owned(path);
                push_str(&mut l, " is owned by ");
                push_str(&mut l, p.name.as_str());
                push_str(&mut l, " ");
                push_str(&mut l, p.version.as_str());
                let ghost before = lines@;
                lines.push(l);
                proof {
                    assert(p.files@.take(k + 1).filter(|f: PkgFile| f.name@ == n@) =~= p.files@.take(k as int).filter(|f: PkgFile| f.name@ == n@).push(p.files@[k as int]));
                    assert(strings_view(lines@) =~= strings_view(before).push(line));
                    assert(p.files@.take(k + 1).filter(|f: PkgFile| f.name@ == n@).map_values(|f: PkgFile| line) =~= p.files@.take(k as int).filter(|f: PkgFile| f.name@ == n@).map_values(|f: PkgFile| line).push(line));
                }
            } else {
                proof {
                    assert(p.files@.take(k + 1).filter(|f: PkgFile| f.name@ == n@) =~= p.files@.take(k as int).filter(|f: PkgFile| f.name@ == n@));
                }
            }
            k = k + 1;
        }
        proof {
            assert(p.files@.take(p.files@.len() as int) =~= p.files@);
        }
        i = i + 1;
    }
    proof {
        assert(locals@.take(locals@.len() as int) =~= locals@);
    }
    let imgs = unshadowed_images(images, locals);
    let ghost first = strings_view(lines@);
    let mut j: usize = 0;
    while j < imgs.len()
        invariant
            0 <= j <= imgs@.len(),
            strings_view(lines@) == first + owns_image(path@, n@, imgs@.take(j as int)),
        decreases imgs@.len() - j,
    {
        proof {
            assert(imgs@.take(j + 1).drop_last() =~= imgs@.take(j as int));
        }
        let p = &imgs[j].0;
        let mut hit = false;
        let mut k: usize = 0;
        while k < p.files.len()
            invariant
                0 <= k <= p.files@.len(),
                hit == exists|q: int| 0 <= q < k && trim_slashes_end(#[trigger] p.files@[q]@) == n@,
            decreases p.files@.len() - k,
        {
            if trimmed_eq(p.files[k].as_str(), n.as_str()) {
                hit = true;
            }
            k = k + 1;
        }
        if hit {
            let mut l = to_owned(path);
            push_str(&mut l, " is owned by ");
            push_str(&mut l, p.name.as_str());
            push_str(&mut l, " ");
            push_str(&mut l, p.version.as_str());
            let ghost before = lines@;
            lines.push(l);
            proof {
                assert(strings_view(lines@) =~= strings_view(before).push(l@));
            }
        }
        proof {
            let t1 = imgs@.take(j + 1);
            assert(t1.last() == imgs@[j as int]);
            assert(first + owns_image(path@, n@, t1) =~= first + owns_image(path@, n@, imgs@.take(j as int)) + if hit {
                seq![path@ + " is owned by "@ + p.name@ + " "@ + p.version@]
            } else {
                seq![]
            });
        }
        j = j + 1;
    }
    proof {
        assert(imgs@.take(imgs@.len() as int) =~= imgs@);
    }
    if lines.len() == 0 {
        let mut d = to_owned("error: No package owns ");
        push_str(&mut d, path);
        let mut e = to_owned("no package owns ");
        push_str(&mut e, path);
        let mut diagnostics: Vec<String> = Vec::new();
        diagnostics.push(d);
        proof {
            assert(strings_view(diagnostics@) =~= seq![d@]);
        }
        QueryReport { body: QueryBody::Owns(lines), diagnostics, error: Some(QueryError::Other(e)) }
    } else {
        QueryReport { body: QueryBody::Owns(lines), diagnostics: Vec::new(), error: None }
    }
}

/// The `-Qg` lines of groups: each member as `group pkg`, or (quiet and no
/// names given) each group's name.
pub open spec fn group_lines(quiet: bool, gs: Seq<(String, Vec<String>)>) -> Seq<Seq<char>>
    decreases gs.len(),
{
    if gs.len() == 0 {
        seq![]
    } else {
        let g = gs.last();
        group_lines(quiet, gs.drop_last()) + if quiet {
            seq![g.0@]
        } else {
            strings_view(g.1@).map_values(|m: Seq<char>| g.0@ + " "@ + m)
        }
    }
}

/// The first group named `name`.
pub open spec fn find_group(gs: Seq<(String, Vec<String>)>, name: Seq<char>) -> Option<(String, Vec<String>)>
    decreases gs.len(),
{
    if gs.len() == 0 {
        None
    } else if gs[0].0@ == name {
        Some(gs[0])
    } else {
        find_group(gs.drop_first(), name)
    }
}

/// The `-Qg name...` lines and the names with no group, in order.
pub open spec fn named_groups(gs: Seq<(String, Vec<String>)>, names: Seq<Seq<char>>) -> (Seq<Seq<char>>, Seq<Seq<char>>)
    decreases names.len(),
{
    if names.len() == 0 {
        (seq![], seq![])
    } else {
        let (ls, miss) = named_groups(gs, names.drop_last());
        match find_group(gs, names.last()) {
            Some(g) => (ls + strings_view(g.1@).map_values(|m: Seq<char>| g.0@ + " "@ + m), miss),
            None => (ls, miss.push(names.last())),
        }
    }
}

fn members(out: &mut Vec<String>, g: &(String, Vec<String>))
    ensures
        strings_view(final(out)@) == strings_view(old(out)@) + strings_view(g.1@).map_values(|m: Seq<char>| g.0@ + " "@ + m),
{
    let ghost start = strings_view(out@);
    let mut k: usize = 0;
    while k < g.1.len()
        invariant
            0 <= k <= g.1@.len(),
            strings_view(out@) == start + strings_view(g.1@).take(k as int).map_values(|m: Seq<char>| g.0@ + " "@ + m),
        decreases g.1@.len() - k,
    {
        let mut l = g.0.clone();
        push_str(&mut l, " ");
        push_str(&mut l, g.1[k].as_str());
        let ghost before = out@;
        out.push(l);
        proof {
            assert(strings_view(g.1@).take(k + 1).map_values(|m: Seq<char>| g.0@ + " "@ + m) =~= strings_view(g.1@).take(k as int).map_values(|m: Seq<char>| g.0@ + " "@ + m).push(g.0@ + " "@ + g.1@[k as int]@));
            assert(strings_view(out@) =~= strings_view(before).push(l@));
        }
        k = k + 1;
    }
    proof {
        assert(strings_view(g.1@).take(g.1@.len() as int) =~= strings_view(g.1@));
    }
}

fn group_index(gs: &Vec<(String, Vec<String>)>, name: &str) -> (r: Option<usize>)
    ensures
        match find_group(gs@, name@) {
            Some(g) => r matches Some(i) && i < gs@.len() && gs@[i as int] == g,
            None => r is None,
        },
{
    let mut i: usize = 0;
    proof {
        assert(gs@.skip(0) =~= gs@);
    }
    while i < gs.len()
        invariant
            0 <= i <= gs@.len(),
            find_group(gs@.skip(i as int), name@) == find_group(gs@, name@),
        decreases gs@.len() - i,
    {
        proof {
            assert(gs@.skip(i as int)[0] == gs@[i as int]);
            assert(gs@.skip(i as int).drop_first() =~= gs@.skip(i + 1));
        }
        if str_eq(gs[i].0.as_str(), name) {
            return Some(i);
        }
        i = i + 1;
    }
    None
}

/// `-Qg`: `groups` are the local database's groups with their members, in
/// its order.
pub fn query_groups(args: &Args, groups: &Vec<(String, Vec<String>)>) -> (r: QueryReport)
    ensures
        args.packages@.len() == 0 ==> (r.body matches QueryBody::Groups(ls) && strings_view(ls@) == group_lines(args.quiet, groups@)) && r.diagnostics@.len() == 0 && r.error is None,
        args.packages@.len() > 0 ==> ({
            let (ls, miss) = named_groups(groups@, strings_view(args.packages@));
            &&& r.body matches QueryBody::Groups(x) && strings_view(x@) == ls
            &&& strings_view(r.diagnostics@) == miss.map_values(|n: Seq<char>| "error: group '"@ + n + "' was not found"@)
            &&& opt_qerr(r.error) == if miss.len() > 0 {
                Some(QErr::NotFound(join(strings_view(args.packages@), ", "@)))
            } else {
                None
            }
        }),
{
    let mut lines: Vec<String> = Vec::new();
    if args.packages.len() == 0 {
        let mut i: usize = 0;
        while i < groups.len()
            invariant
                0 <= i <= groups@.len(),
                strings_view(lines@) == group_lines(args.quiet, groups@.take(i as int)),
            decreases groups@.len() - i,
        {
            proof {
                assert(groups@.take(i + 1).drop_last() =~= groups@.take(i as int));
            }
            if args.quiet {
                let ghost before = lines@;
                lines.push(groups[i].0.clone());
                proof {
                    assert(strings_view(lines@) =~= strings_view(before) + seq![groups@[i as int].0@]);
                }
            } else {
                members(&mut lines, &groups[i]);
            }
            i = i + 1;
        }
        proof {
            assert(groups@.take(groups@.len() as int) =~= groups@);
        }
        return QueryReport { body: QueryBody::Groups(lines), diagnostics: Vec::new(), error: None };
    }
    let ghost nv = strings_view(args.packages@);
    let mut diagnostics: Vec<String> = Vec::new();
    let mut i: usize = 0;
    while i < args.packages.len()
        invariant
            0 <= i <= args.packages@.len(),
            nv == strings_view(args.packages@),
            strings_view(lines@) == named_groups(groups@, nv.take(i as int)).0,
            strings_view(diagnostics@) == named_groups(groups@, nv.take(i as int)).1.map_values(|n: Seq<char>| "error: group '"@ + n + "' was not found"@),
        decreases args.packages@.len() - i,
    {
        proof {
            assert(nv.take(i + 1).drop_last() =~= nv.take(i as int));
            assert(nv.take(i + 1).last() == args.packages@[i as int]@);
        }
        let ghost m0 = named_groups(groups@, nv.take(i as int)).1;
        match group_index(groups, args.packages[i].as_str()) {
            Some(g) => {
                members(&mut lines, &groups[g]);
            },
            None => {
                let mut d = to_owned("error: group '");
                push_str(&mut d, args.packages[i].as_str());
                push_str(&mut d, "' was not found");
                let ghost before = diagnostics@;
                diagnostics.push(d);
                proof {
                    assert(m0.push(args.packages@[i as int]@).map_values(|n: Seq<char>| "error: group '"@ + n + "' was not found"@) =~= m0.map_values(|n: Seq<char>| "error: group '"@ + n + "' was not found"@).push(d@));
                    assert(strings_view(diagnostics@) =~= strings_view(before).push(d@));
                }
            },
        }
        i = i + 1;
    }
    proof {
        assert(nv.take(args.packages@.len() as int) =~= nv);
    }
    let missing = diagnostics.len() > 0;
    let error = if missing {
        Some(QueryError::NotFound(join_strings(&args.packages, ", ")))
    } else {
        None
    };
    QueryReport { body: QueryBody::Groups(lines), diagnostics, error }
}

/// `-Qp`: the report on a package file, once loaded.
pub fn query_file(args: &Args, pkg: &LocalPkg) -> (r: QueryReport)
    ensures
        r.diagnostics@.len() == 0,
        r.error is None,
        args.list ==> (r.body matches QueryBody::Files { quiet, lines } && quiet == args.quiet
            && file_lines_view(lines@) == pkg.files@.map_values(|f: PkgFile| (pkg.name@, f.name@))),
        !args.list && args.info > 0 ==> (r.body matches QueryBody::Info(bs) && bs@.len() == 1
            && block_is(bs@[0].fields@, local_labels(*pkg), args.info >= 2, backup_lines(pairs_view(pkg.backup@)))),
        !args.list && args.info == 0 ==> (r.body matches QueryBody::List { quiet, pkgs } && quiet == args.quiet
            && lines_view(pkgs@) == seq![(pkg.name@, pkg.version@)]),
{
    let body = if args.list {
        let mut lines: Vec<FileLine> = Vec::new();
        let mut k: usize = 0;
        while k < pkg.files.len()
            invariant
                0 <= k <= pkg.files@.len(),
                file_lines_view(lines@) == pkg.files@.take(k as int).map_values(|f: PkgFile| (pkg.name@, f.name@)),
            decreases pkg.files@.len() - k,
        {
            let ghost before = lines@;
            lines.push(FileLine { pkg: pkg.name.clone(), file: pkg.files[k].name.clone() });
            proof {
                assert(pkg.files@.take(k + 1).map_values(|f: PkgFile| (pkg.name@, f.name@)) =~= pkg.files@.take(k as int).map_values(|f: PkgFile| (pkg.name@, f.name@)).push((pkg.name@, pkg.files@[k as int].name@)));
                assert(file_lines_view(lines@) =~= file_lines_view(before).push((pkg.name@, pkg.files@[k as int].name@)));
            }
            k = k + 1;
        }
        proof {
            assert(pkg.files@.take(pkg.files@.len() as int) =~= pkg.files@);
        }
        QueryBody::Files { quiet: args.quiet, lines }
    } else if args.info > 0 {
        let mut bs: Vec<InfoBlock> = Vec::new();
        bs.push(info_block(args, pkg));
        QueryBody::Info(bs)
    } else {
        let mut pkgs: Vec<PkgLine> = Vec::new();
        pkgs.push(PkgLine { name: pkg.name.clone(), version: pkg.version.clone() });
        proof {
            assert(lines_view(pkgs@) =~= seq![(pkg.name@, pkg.version@)]);
        }
        QueryBody::List { quiet: args.quiet, pkgs }
    };
    QueryReport { body, diagnostics: Vec::new(), error: None }
}

} // verus!
