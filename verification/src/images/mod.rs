//! `-I`: Archetype system images through systemd-sysupdated. The library
//! decides which verb runs, how targets split, which version to describe or
//! acquire and what each verb reports; the D-Bus calls happen outside.
pub mod describe;
pub mod format;
pub mod job;
pub mod live;
pub mod relay;

use crate::cli::args::images::Args;
use crate::error::MizError;
use crate::text::{chars_of, find_char, lemma_next_char, next_char, opt_str, opt_string, str_eq, to_owned};
use vstd::prelude::*;
use vstd::string::StrSliceExecFns;

verus! {

/// `Target.List` flag: operate on installed versions only.
pub const FLAG_OFFLINE: u64 = 1;

/// The verb `-I` runs, in priority order (read-only verbs first).
#[derive(PartialEq, Eq, Structural, Clone, Copy, Debug)]
pub enum ImagesVerb {
    ReinstallLayered,
    List,
    Info,
    CheckNew,
    Components,
    Pending,
    AppStream,
    Features,
    Upgrade,
    Vacuum,
    Reboot,
}

/// The verb selected by `args`, if any.
pub open spec fn verb_of(args: Args) -> Option<ImagesVerb> {
    if args.reinstall_layered {
        Some(ImagesVerb::ReinstallLayered)
    } else if args.list {
        Some(ImagesVerb::List)
    } else if args.info > 0 {
        Some(ImagesVerb::Info)
    } else if args.check_new {
        Some(ImagesVerb::CheckNew)
    } else if args.components {
        Some(ImagesVerb::Components)
    } else if args.pending {
        Some(ImagesVerb::Pending)
    } else if args.appstream {
        Some(ImagesVerb::AppStream)
    } else if args.features || args.enable is Some || args.disable is Some {
        Some(ImagesVerb::Features)
    } else if args.upgrade > 0 {
        Some(ImagesVerb::Upgrade)
    } else if args.clean > 0 {
        Some(ImagesVerb::Vacuum)
    } else if args.reboot {
        Some(ImagesVerb::Reboot)
    } else {
        None
    }
}

/// Pick the `-I` verb to run. With no sub-verb `-I` fails: that form is not
/// yet implemented, and the message says so.
pub fn run(args: &Args) -> (r: Result<ImagesVerb, MizError>)
    ensures
        match verb_of(*args) {
            Some(v) => r == Ok::<ImagesVerb, MizError>(v),
            None => r matches Err(MizError::Other(m)) && "not yet implemented"@.is_prefix_of(m@) && m@
                == "not yet implemented: no image operation specified (use -Il to list, -Iu to update; -h for help)"@,
        },
{
    if args.reinstall_layered {
        return Ok(ImagesVerb::ReinstallLayered);
    }
    if args.list {
        return Ok(ImagesVerb::List);
    }
    if args.info > 0 {
        return Ok(ImagesVerb::Info);
    }
    if args.check_new {
        return Ok(ImagesVerb::CheckNew);
    }
    if args.components {
        return Ok(ImagesVerb::Components);
    }
    if args.pending {
        return Ok(ImagesVerb::Pending);
    }
    if args.appstream {
        return Ok(ImagesVerb::AppStream);
    }
    if args.features || args.enable.is_some() || args.disable.is_some() {
        return Ok(ImagesVerb::Features);
    }
    if args.upgrade > 0 {
        return Ok(ImagesVerb::Upgrade);
    }
    if args.clean > 0 {
        return Ok(ImagesVerb::Vacuum);
    }
    if args.reboot {
        return Ok(ImagesVerb::Reboot);
    }
    proof {
        reveal_strlit("not yet implemented");
        reveal_strlit(
            "not yet implemented: no image operation specified (use -Il to list, -Iu to update; -h for help)",
        );
    }
    Err(
        MizError::Other(
            to_owned("not yet implemented: no image operation specified (use -Il to list, -Iu to update; -h for help)"),
        ),
    )
}

/// A target split at its first `/` into component and version; the
/// component defaults to `host`.
pub open spec fn split_of(target: Option<Seq<char>>) -> (Seq<char>, Option<Seq<char>>) {
    match target {
        Some(t) => {
            let j = next_char(t, '/', 0);
            if j < t.len() {
                (t.take(j), Some(t.skip(j + 1)))
            } else {
                (t, None)
            }
        },
        None => ("host"@, None),
    }
}

/// Split a positional target into `(component, version)`.
pub fn split_component<'a>(target: Option<&'a str>) -> (r: (&'a str, Option<&'a str>))
    ensures
        r.0@ == split_of(opt_str(target)).0,
        opt_str(r.1) == split_of(opt_str(target)).1,
{
    match target {
        Some(t) => {
            let v = chars_of(t);
            let j = find_char(&v, '/', 0);
            proof {
                lemma_next_char(v@, '/', 0);
            }
            if j < v.len() {
                let comp = t.substring_char(0, j);
                let ver = t.substring_char(j + 1, v.len());
                proof {
                    assert(t@.subrange(0, j as int) =~= t@.take(j as int));
                    assert(t@.subrange(j + 1, t@.len() as int) =~= t@.skip(j + 1));
                }
                (comp, Some(ver))
            } else {
                (t, None)
            }
        },
        None => ("host", None),
    }
}

/// The `Target.List` flags for `--offline`.
pub fn list_flags(offline: bool) -> (r: u64)
    ensures
        r == if offline {
            FLAG_OFFLINE
        } else {
            0
        },
{
    if offline {
        FLAG_OFFLINE
    } else {
        0
    }
}

/// `--json=MODE` for the Describe/DescribeFeature passthrough.
#[derive(PartialEq, Eq, Structural, Clone, Copy, Debug)]
pub enum JsonMode {
    Off,
    Short,
    Pretty,
}

/// The text `serde_json` makes of `json` parsed as a `serde_json::Value` and
/// printed back with `to_string_pretty`, or `None` when `json` does not parse.
pub uninterp spec fn pretty_json_of(json: Seq<char>) -> Option<Seq<char>>;

/// `serde_json::from_str::<serde_json::Value>` then
/// `serde_json::to_string_pretty`: `json` re-indented, or `None` where either
/// fails; the result is named by [`pretty_json_of`].
#[verifier::external_body]
fn pretty_json(json: &str) -> (r: Option<String>)
    ensures
        opt_string(r) == pretty_json_of(json@),
{
    match serde_json::from_str::<serde_json::Value>(json) {
        Ok(v) => match serde_json::to_string_pretty(&v) {
            Ok(t) => Some(t),
            Err(_) => None,
        },
        Err(_) => None,
    }
}

/// The `--json` text of a reply: re-indented for `pretty` (unchanged when it
/// is no JSON), as received otherwise.
pub fn json_text(json: &str, mode: JsonMode) -> (r: String)
    ensures
        mode == JsonMode::Pretty ==> r@ == (match pretty_json_of(json@) {
            Some(t) => t,
            None => json@,
        }),
        mode != JsonMode::Pretty ==> r@ == json@,
{
    match mode {
        JsonMode::Pretty => match pretty_json(json) {
            Some(t) => t,
            None => to_owned(json),
        },
        _ => to_owned(json),
    }
}

/// Parse `--json=MODE`: absent or `off`, `short`, `pretty`; anything else is
/// refused.
pub fn json_mode(arg: Option<&str>) -> (r: Result<JsonMode, MizError>)
    ensures
        match opt_str(arg) {
            None => r == Ok::<JsonMode, MizError>(JsonMode::Off),
            Some(a) => if a == "off"@ {
                r == Ok::<JsonMode, MizError>(JsonMode::Off)
            } else if a == "short"@ {
                r == Ok::<JsonMode, MizError>(JsonMode::Short)
            } else if a == "pretty"@ {
                r == Ok::<JsonMode, MizError>(JsonMode::Pretty)
            } else {
                r matches Err(MizError::Sysupdate(m)) && m@ == "invalid --json mode: "@ + a
                    + " (expected short, pretty, or off)"@
            },
        },
{
    match arg {
        None => Ok(JsonMode::Off),
        Some(a) => {
            if str_eq(a, "off") {
                Ok(JsonMode::Off)
            } else if str_eq(a, "short") {
                Ok(JsonMode::Short)
            } else if str_eq(a, "pretty") {
                Ok(JsonMode::Pretty)
            } else {
                let mut m = String::new();
                crate::text::push_str(&mut m, "invalid --json mode: ");
                crate::text::push_str(&mut m, a);
                crate::text::push_str(&mut m, " (expected short, pretty, or off)");
                Err(MizError::Sysupdate(m))
            }
        },
    }
}

/// What a `-Iu` acquires.
pub enum UpgradePlan {
    /// A newer version is available: acquire the newest (empty argument,
    /// which sysupdate authorizes without admin rights).
    Newest,
    /// Nothing newer, but the installed version is incomplete (a newly
    /// enabled feature): acquire it again to complete it in place.
    Complete(String),
    /// An explicit version from the command line.
    ToVersion(String),
    /// Nothing to do.
    UpToDate,
}

/// The `Acquire` argument of a plan and whether the host version advances
/// (which is what triggers the root relay).
pub open spec fn acquire_of(plan: UpgradePlan) -> (Seq<char>, bool) {
    match plan {
        UpgradePlan::Newest => (seq![], true),
        UpgradePlan::Complete(v) => (v@, false),
        UpgradePlan::ToVersion(v) => (v@, true),
        UpgradePlan::UpToDate => (seq![], false),
    }
}

/// Map a plan to the `Acquire`/`Install` version argument and whether the
/// host version advances.
pub fn acquire_args(plan: &UpgradePlan) -> (r: (String, bool))
    ensures
        r.0@ == acquire_of(*plan).0,
        r.1 == acquire_of(*plan).1,
{
    match plan {
        UpgradePlan::Newest => (String::new(), true),
        UpgradePlan::Complete(v) => (v.clone(), false),
        UpgradePlan::ToVersion(v) => (v.clone(), true),
        UpgradePlan::UpToDate => (String::new(), false),
    }
}

/// Decide a bare `-Iu` from what sysupdate reported: `newest` is `CheckNew`
/// (empty when nothing newer), `installed` is `GetVersion` (empty when
/// nothing is installed), and `incomplete` is the installed version's
/// `incomplete` flag when its description could be read.
pub fn resolve_upgrade_plan(newest: &str, installed: &str, incomplete: Option<bool>) -> (r:
    UpgradePlan)
    ensures
        newest@.len() > 0 ==> r is Newest,
        newest@.len() == 0 && installed@.len() > 0 && incomplete == Some(true) ==> (r matches UpgradePlan::Complete(
            v,
        ) && v@ == installed@),
        newest@.len() == 0 && (installed@.len() == 0 || incomplete != Some(true)) ==> r is UpToDate,
{
    if chars_of(newest).len() > 0 {
        return UpgradePlan::Newest;
    }
    if chars_of(installed).len() == 0 {
        return UpgradePlan::UpToDate;
    }
    match incomplete {
        Some(true) => UpgradePlan::Complete(to_owned(installed)),
        _ => UpgradePlan::UpToDate,
    }
}

/// The plan of `-Iu`: an explicit version wins, else [`resolve_upgrade_plan`].
pub fn upgrade_plan(version: Option<&str>, newest: &str, installed: &str, incomplete: Option<bool>) -> (r:
    UpgradePlan)
    ensures
        version matches Some(v) ==> (r matches UpgradePlan::ToVersion(x) && x@ == v@),
        version is None && newest@.len() > 0 ==> r is Newest,
        version is None && newest@.len() == 0 && installed@.len() > 0 && incomplete == Some(true)
            ==> (r matches UpgradePlan::Complete(v) && v@ == installed@),
        version is None && newest@.len() == 0 && (installed@.len() == 0 || incomplete != Some(
            true,
        )) ==> r is UpToDate,
{
    match version {
        Some(v) => UpgradePlan::ToVersion(to_owned(v)),
        None => resolve_upgrade_plan(newest, installed, incomplete),
    }
}

/// Whether the root relay follows a completed `-Iu`: only for the host
/// component and only when the host version advanced.
pub fn relay_wanted(component: &str, host_changed: bool) -> (r: bool)
    ensures
        r == (component@ == "host"@ && host_changed),
{
    str_eq(component, "host") && host_changed
}

/// The `[installed]`/`[newest]` marks of one `-Il` row: the version's own
/// description decides when it was readable (an unknown `installed` falls back
/// to comparing with the installed version, an unknown `newest` is false);
/// otherwise only the comparison counts.
pub fn list_marks(
    version: &str,
    installed_version: &str,
    described: Option<(Option<bool>, Option<bool>)>,
) -> (r: (bool, bool))
    ensures
        r.0 == match described {
            Some((Some(i), _)) => i,
            _ => version@ == installed_version@,
        },
        r.1 == match described {
            Some((_, Some(n))) => n,
            _ => false,
        },
{
    let same = str_eq(version, installed_version);
    match described {
        Some((inst, newest)) => {
            let i = match inst {
                Some(b) => b,
                None => same,
            };
            let n = match newest {
                Some(b) => b,
                None => false,
            };
            (i, n)
        },
        None => (same, false),
    }
}

/// The version `-Ii` describes: the explicit one, else the installed one,
/// else the newest available; an error naming the component when there is
/// none.
pub fn info_version(name: &str, explicit: Option<&str>, installed: &str, newest: &str) -> (r: Result<
    String,
    MizError,
>)
    ensures
        match opt_str(explicit) {
            Some(v) => r matches Ok(x) && x@ == v,
            None => if installed@.len() > 0 {
                r matches Ok(x) && x@ == installed@
            } else if newest@.len() > 0 {
                r matches Ok(x) && x@ == newest@
            } else {
                r matches Err(MizError::Sysupdate(m)) && m@
                    == "no installed or available version to describe for '"@ + name@ + "'"@
            },
        },
{
    match explicit {
        Some(v) => Ok(to_owned(v)),
        None => {
            if chars_of(installed).len() > 0 {
                Ok(to_owned(installed))
            } else if chars_of(newest).len() > 0 {
                Ok(to_owned(newest))
            } else {
                let mut m = String::new();
                crate::text::push_str(&mut m, "no installed or available version to describe for '");
                crate::text::push_str(&mut m, name);
                crate::text::push_str(&mut m, "'");
                Err(MizError::Sysupdate(m))
            }
        },
    }
}

/// `-Ip`: whether a reboot is due, i.e. the newest installed version
/// differs from the booted one (from os-release, when known); the labels
/// show `(none)` for no installed version and `(unknown)` for an unknown or
/// empty booted one.
pub fn pending_report(name: &str, quiet: bool, installed: &str, booted: Option<&str>) -> (r: crate::report::ImagesReport)
    ensures
        r matches crate::report::ImagesReport::Pending { name: n, quiet: q, installed: i, booted_label, installed_label, reboot_due }
            && n@ == name@ && q == quiet && i@ == installed@
            && installed_label@ == (if installed@.len() == 0 { "(none)"@ } else { installed@ })
            && booted_label@ == (match opt_str(booted) {
                Some(b) => if b.len() > 0 { b } else { "(unknown)"@ },
                None => "(unknown)"@,
            })
            && reboot_due == (match opt_str(booted) {
                Some(b) => installed@.len() > 0 && installed@ != b,
                None => false,
            }),
{
    let installed_empty = chars_of(installed).len() == 0;
    let installed_label = if installed_empty {
        to_owned("(none)")
    } else {
        to_owned(installed)
    };
    let (booted_label, reboot_due) = match booted {
        Some(b) => {
            let label = if chars_of(b).len() > 0 {
                to_owned(b)
            } else {
                to_owned("(unknown)")
            };
            (label, !installed_empty && !str_eq(installed, b))
        },
        None => (to_owned("(unknown)"), false),
    };
    crate::report::ImagesReport::Pending {
        name: to_owned(name),
        quiet,
        installed: to_owned(installed),
        booted_label,
        installed_label,
        reboot_due,
    }
}

} // verus!
