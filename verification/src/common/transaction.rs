//! Transaction decisions that do not need libalpm: `--print-format`
//! rendering, the `--print` line, the answer a confirmation accepts, when to
//! prompt, and the messages for failed prepare and commit steps.
use crate::text::{chars_of, push_str, to_owned, trim, trim_range};
use vstd::prelude::*;

verus! {

/// `--print-format` applied to a package: `%n` is the name, `%v` the
/// version, `%%` a percent sign; any other `%x` stays as written, and a
/// trailing `%` stays.
pub open spec fn format_text(f: Seq<char>, name: Seq<char>, version: Seq<char>) -> Seq<char>
    decreases f.len(),
{
    if f.len() == 0 {
        seq![]
    } else if f[0] != '%' {
        seq![f[0]] + format_text(f.skip(1), name, version)
    } else if f.len() == 1 {
        seq!['%']
    } else if f[1] == 'n' {
        name + format_text(f.skip(2), name, version)
    } else if f[1] == 'v' {
        version + format_text(f.skip(2), name, version)
    } else if f[1] == '%' {
        seq!['%'] + format_text(f.skip(2), name, version)
    } else {
        seq!['%', f[1]] + format_text(f.skip(2), name, version)
    }
}

/// Render `--print-format` for one package.
pub fn render_format(fmt: &str, name: &str, version: &str) -> (r: String)
    ensures
        r@ == format_text(fmt@, name@, version@),
{
    let v = chars_of(fmt);
    let mut out = String::new();
    let mut i: usize = 0;
    proof {
        assert(v@.skip(0) =~= v@);
        assert(out@ + format_text(v@.skip(0), name@, version@) =~= format_text(v@, name@, version@));
    }
    while i < v.len()
        invariant
            0 <= i <= v@.len(),
            v@ == fmt@,
            out@ + format_text(v@.skip(i as int), name@, version@) == format_text(v@, name@, version@),
        decreases v@.len() - i,
    {
        let ghost before = out@;
        let ghost rest = v@.skip(i as int);
        let c = v[i];
        proof {
            assert(rest[0] == c);
        }
        if c != '%' {
            out.push(c);
            proof {
                assert(rest.skip(1) =~= v@.skip(i + 1));
                assert(out@ + format_text(v@.skip(i + 1), name@, version@) =~= before + format_text(rest, name@, version@));
            }
            i = i + 1;
        } else if i + 1 >= v.len() {
            out.push('%');
            proof {
                assert(rest.len() == 1);
                assert(v@.skip(i + 1).len() == 0);
                assert(out@ + format_text(v@.skip(i + 1), name@, version@) =~= before + format_text(rest, name@, version@));
            }
            i = i + 1;
        } else {
            let d = v[i + 1];
            proof {
                assert(rest[1] == d);
                assert(rest.skip(2) =~= v@.skip(i + 2));
            }
            if d == 'n' {
                push_str(&mut out, name);
            } else if d == 'v' {
                push_str(&mut out, version);
            } else if d == '%' {
                out.push('%');
            } else {
                out.push('%');
                out.push(d);
            }
            proof {
                assert(out@ + format_text(v@.skip(i + 2), name@, version@) =~= before + format_text(rest, name@, version@));
            }
            i = i + 2;
        }
    }
    proof {
        assert(v@.skip(i as int).len() == 0);
        assert(out@ =~= out@ + format_text(v@.skip(i as int), name@, version@));
    }
    out
}

/// The `--print` line of a package: `name version`, or the print format.
pub fn format_print_line(name: &str, version: &str, format: Option<&str>) -> (r: String)
    ensures
        match format {
            None => r@ == name@ + " "@ + version@,
            Some(f) => r@ == format_text(f@, name@, version@),
        },
{
    match format {
        None => {
            let mut s = String::new();
            push_str(&mut s, name);
            push_str(&mut s, " ");
            push_str(&mut s, version);
            s
        },
        Some(f) => render_format(f, name, version),
    }
}

/// ASCII lower case of one character.
pub open spec fn lower(c: char) -> char {
    if 'A' <= c <= 'Z' {
        ((c as int) + 32) as char
    } else {
        c
    }
}

/// Equality ignoring ASCII case.
pub open spec fn eq_ignore_case(a: Seq<char>, b: Seq<char>) -> bool {
    a.len() == b.len() && forall|i: int| 0 <= i < a.len() ==> lower(#[trigger] a[i]) == lower(b[i])
}

/// Whether a confirmation answer accepts: empty (after trimming), `y` or
/// `yes` in any ASCII case.
pub open spec fn accepts(answer: Seq<char>) -> bool {
    let t = trim(answer);
    t.len() == 0 || eq_ignore_case(t, "y"@) || eq_ignore_case(t, "yes"@)
}

fn lower_char(c: char) -> (r: char)
    ensures
        r == lower(c),
{
    if 'A' <= c && c <= 'Z' {
        ((c as u8) + 32) as char
    } else {
        c
    }
}

fn range_eq_ignore_case(v: &Vec<char>, a: usize, b: usize, w: &str) -> (r: bool)
    requires
        a <= b <= v@.len(),
    ensures
        r == eq_ignore_case(v@.subrange(a as int, b as int), w@),
{
    let wv = chars_of(w);
    if b - a != wv.len() {
        return false;
    }
    let mut k: usize = 0;
    while k < wv.len()
        invariant
            a <= b <= v@.len(),
            b - a == wv@.len(),
            wv@ == w@,
            0 <= k <= wv@.len(),
            forall|j: int| 0 <= j < k ==> lower(#[trigger] v@.subrange(a as int, b as int)[j]) == lower(w@[j]),
        decreases wv@.len() - k,
    {
        if lower_char(v[a + k]) != lower_char(wv[k]) {
            proof {
                assert(v@.subrange(a as int, b as int)[k as int] == v@[a + k]);
            }
            return false;
        }
        proof {
            assert(v@.subrange(a as int, b as int)[k as int] == v@[a + k]);
        }
        k = k + 1;
    }
    true
}

/// Whether the answer to a `[Y/n]` prompt means yes.
pub fn is_yes(answer: &str) -> (r: bool)
    ensures
        r == accepts(answer@),
{
    let v = chars_of(answer);
    let (a, b) = trim_range(&v, 0, v.len());
    proof {
        assert(v@.subrange(0, v@.len() as int) =~= answer@);
    }
    b == a || range_eq_ignore_case(&v, a, b, "y") || range_eq_ignore_case(&v, a, b, "yes")
}

/// Prompt only without `--noconfirm` and with a terminal on stdin.
pub fn should_prompt(noconfirm: bool, stdin_is_terminal: bool) -> (r: bool)
    ensures
        r == (!noconfirm && stdin_is_terminal),
{
    !noconfirm && stdin_is_terminal
}

/// What a failed prepare step reports.
pub enum PrepareData {
    /// Unsatisfied dependencies: `(causing package, dependency, target)`.
    UnsatisfiedDeps(Vec<(Option<String>, String, String)>),
    /// Conflicting package pairs.
    ConflictingDeps(Vec<(String, String)>),
    /// Packages with an invalid architecture: `(name, arch)`.
    PkgInvalidArch(Vec<(String, Option<String>)>),
}

/// The error lines of a failed prepare step; `message` is libalpm's message
/// for a failure without details.
pub fn prepare_error_lines(data: &Option<PrepareData>, message: &str) -> (r: Vec<String>)
    ensures
        match *data {
            None => r@.len() == 1 && r@[0]@ == "error: failed to prepare transaction: "@ + message@,
            Some(PrepareData::UnsatisfiedDeps(ds)) => r@.len() == ds@.len() && forall|k: int|
                0 <= k < ds@.len() ==> #[trigger] r@[k]@ == match ds@[k].0 {
                    Some(c) => "error: removing '"@ + c@ + "' breaks dependency '"@ + ds@[k].1@
                        + "' required by '"@ + ds@[k].2@ + "'"@,
                    None => "error: unsatisfied dependency '"@ + ds@[k].1@ + "' required by '"@
                        + ds@[k].2@ + "'"@,
                },
            Some(PrepareData::ConflictingDeps(cs)) => r@.len() == cs@.len() && forall|k: int|
                0 <= k < cs@.len() ==> #[trigger] r@[k]@ == "error: conflict between '"@ + cs@[k].0@
                    + "' and '"@ + cs@[k].1@ + "'"@,
            Some(PrepareData::PkgInvalidArch(ps)) => r@.len() == ps@.len() && forall|k: int|
                0 <= k < ps@.len() ==> #[trigger] r@[k]@ == "error: package '"@ + ps@[k].0@
                    + "' has an invalid architecture: "@ + match ps@[k].1 {
                    Some(a) => a@,
                    None => "?"@,
                },
        },
{
    let mut out: Vec<String> = Vec::new();
    match data {
        None => {
            let mut s = String::new();
            push_str(&mut s, "error: failed to prepare transaction: ");
            push_str(&mut s, message);
            out.push(s);
        },
        Some(PrepareData::UnsatisfiedDeps(ds)) => {
            let mut i: usize = 0;
            while i < ds.len()
                invariant
                    0 <= i <= ds@.len(),
                    out@.len() == i,
                    forall|k: int|
                        0 <= k < i ==> #[trigger] out@[k]@ == match ds@[k].0 {
                            Some(c) => "error: removing '"@ + c@ + "' breaks dependency '"@
                                + ds@[k].1@ + "' required by '"@ + ds@[k].2@ + "'"@,
                            None => "error: unsatisfied dependency '"@ + ds@[k].1@
                                + "' required by '"@ + ds@[k].2@ + "'"@,
                        },
                decreases ds@.len() - i,
            {
                let mut s = String::new();
                match &ds[i].0 {
                    Some(c) => {
                        push_str(&mut s, "error: removing '");
                        push_str(&mut s, c.as_str());
                        push_str(&mut s, "' breaks dependency '");
                    },
                    None => {
                        push_str(&mut s, "error: unsatisfied dependency '");
                    },
                }
                push_str(&mut s, ds[i].1.as_str());
                push_str(&mut s, "' required by '");
                push_str(&mut s, ds[i].2.as_str());
                push_str(&mut s, "'");
                out.push(s);
                i = i + 1;
            }
        },
        Some(PrepareData::ConflictingDeps(cs)) => {
            let mut i: usize = 0;
            while i < cs.len()
                invariant
                    0 <= i <= cs@.len(),
                    out@.len() == i,
                    forall|k: int|
                        0 <= k < i ==> #[trigger] out@[k]@ == "error: conflict between '"@
                            + cs@[k].0@ + "' and '"@ + cs@[k].1@ + "'"@,
                decreases cs@.len() - i,
            {
                let mut s = String::new();
                push_str(&mut s, "error: conflict between '");
                push_str(&mut s, cs[i].0.as_str());
                push_str(&mut s, "' and '");
                push_str(&mut s, cs[i].1.as_str());
                push_str(&mut s, "'");
                out.push(s);
                i = i + 1;
            }
        },
        Some(PrepareData::PkgInvalidArch(ps)) => {
            let mut i: usize = 0;
            while i < ps.len()
                invariant
                    0 <= i <= ps@.len(),
                    out@.len() == i,
                    forall|k: int|
                        0 <= k < i ==> #[trigger] out@[k]@ == "error: package '"@ + ps@[k].0@
                            + "' has an invalid architecture: "@ + match ps@[k].1 {
                            Some(a) => a@,
                            None => "?"@,
                        },
                decreases ps@.len() - i,
            {
                let mut s = String::new();
                push_str(&mut s, "error: package '");
                push_str(&mut s, ps[i].0.as_str());
                push_str(&mut s, "' has an invalid architecture: ");
                match &ps[i].1 {
                    Some(a) => push_str(&mut s, a.as_str()),
                    None => push_str(&mut s, "?"),
                }
                out.push(s);
                i = i + 1;
            }
        },
    }
    out
}

/// What a failed commit step reports.
pub enum CommitData {
    FileConflict,
    /// Invalid package names.
    PkgInvalid(Vec<String>),
}

/// The error lines of a failed commit step.
pub fn commit_error_lines(data: &Option<CommitData>, message: &str) -> (r: Vec<String>)
    ensures
        match *data {
            None => r@.len() == 1 && r@[0]@ == "error: failed to commit transaction: "@ + message@,
            Some(CommitData::FileConflict) => r@.len() == 1 && r@[0]@
                == "error: file conflicts detected; aborting"@,
            Some(CommitData::PkgInvalid(ns)) => r@.len() == ns@.len() && forall|k: int|
                0 <= k < ns@.len() ==> #[trigger] r@[k]@ == "error: invalid package: "@ + ns@[k]@,
        },
{
    let mut out: Vec<String> = Vec::new();
    match data {
        None => {
            let mut s = String::new();
            push_str(&mut s, "error: failed to commit transaction: ");
            push_str(&mut s, message);
            out.push(s);
        },
        Some(CommitData::FileConflict) => {
            out.push(to_owned("error: file conflicts detected; aborting"));
        },
        Some(CommitData::PkgInvalid(ns)) => {
            let mut i: usize = 0;
            while i < ns.len()
                invariant
                    0 <= i <= ns@.len(),
                    out@.len() == i,
                    forall|k: int|
                        0 <= k < i ==> #[trigger] out@[k]@ == "error: invalid package: "@ + ns@[k]@,
                decreases ns@.len() - i,
            {
                let mut s = String::new();
                push_str(&mut s, "error: invalid package: ");
                push_str(&mut s, ns[i].as_str());
                out.push(s);
                i = i + 1;
            }
        },
    }
    out
}

/// The warning when releasing a `--print` transaction fails.
pub fn release_warning(e: &str) -> (r: String)
    ensures
        r@ == "trans_release failed after --print: "@ + e@,
{
    let mut m = to_owned("trans_release failed after --print: ");
    push_str(&mut m, e);
    m
}

/// The diagnostic for a target that matches nothing.
pub fn target_not_found(name: &str) -> (r: String)
    ensures
        r@ == "error: target not found: "@ + name@,
{
    let mut m = to_owned("error: target not found: ");
    push_str(&mut m, name);
    m
}

} // verus!
