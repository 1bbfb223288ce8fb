//! Configuration decisions made before libalpm is touched: the localdb path,
//! option paths rebased under a staged root, architectures, signature levels,
//! repository usage and server URLs, and the archive repin of the Arch repos.
use crate::common::fmt::strings_view;
use crate::error::MizError;
use crate::paths::{
    law_normalize, comps_prefix, components_prefix, keep_named, named_pieces, normal_comps, normalize, normalize_components,
    path_comps, path_components, render, render_components, slash_pieces,
};
use crate::osrelease::{archive_url, archive_url_of};
use crate::schema::{MizConfig, Options, Repository, views};
use crate::text::{
    chars_of, opt_str, opt_string, push_str, range_starts_with, replace_all, replace_str, starts_with, str_eq,
    string_of_range, to_owned,
};
use vstd::prelude::*;

verus! {

// ---------------------------------------------------------------------------
// Re-rooting option paths
// ---------------------------------------------------------------------------

/// The components `path` takes once rebased under `root`: a path already
/// under the normalized root is normalized as it is; any other path has its
/// named pieces appended to the normalized root (an absolute path thus loses
/// its leading `/`), then is normalized.
pub open spec fn reroot_comps(root: Seq<char>, path: Seq<char>) -> Seq<Seq<char>> {
    let canon = normal_comps(root);
    if comps_prefix(canon, path_comps(path)) {
        normalize(path_comps(path))
    } else {
        normalize(canon + keep_named(slash_pieces(path)))
    }
}

/// Whether rebasing `path` under `root` stays under `root`.
pub open spec fn reroot_ok(root: Seq<char>, path: Seq<char>) -> bool {
    comps_prefix(normal_comps(root), reroot_comps(root, path))
}

/// The text of `path` rebased under `root`.
pub open spec fn rerooted(root: Seq<char>, path: Seq<char>) -> Seq<char> {
    render(reroot_comps(root, path))
}

/// Rebasing is idempotent: a path with the components of an accepted
/// rebased path is accepted again and rebases to those same components.
pub proof fn law_reroot_idempotent(root: Seq<char>, path: Seq<char>, again: Seq<char>)
    requires
        reroot_ok(root, path),
        path_comps(again) == reroot_comps(root, path),
    ensures
        reroot_ok(root, again),
        reroot_comps(root, again) == reroot_comps(root, path),
{
    let canon = normal_comps(root);
    if comps_prefix(canon, path_comps(path)) {
        law_normalize(path_comps(path));
    } else {
        law_normalize(canon + keep_named(slash_pieces(path)));
    }
}

/// The message of the error for a path that escapes its staged root.
pub open spec fn escape_message(root: Seq<char>, path: Seq<char>) -> Seq<char> {
    "refusing to reinstall: option path "@ + path + " escapes staged root "@ + root
        + " (resolved to "@ + rerooted(root, path) + ")"@
}

/// `a` followed by `b`.
fn concat_components(a: &Vec<String>, b: &Vec<String>) -> (r: Vec<String>)
    ensures
        strings_view(r@) == strings_view(a@) + strings_view(b@),
{
    let mut r: Vec<String> = Vec::new();
    let mut i: usize = 0;
    while i < a.len()
        invariant
            0 <= i <= a@.len(),
            strings_view(r@) == strings_view(a@).take(i as int),
        decreases a@.len() - i,
    {
        let ghost before = r@;
        r.push(a[i].clone());
        proof {
            assert(strings_view(r@) =~= strings_view(before).push(a@[i as int]@));
            assert(strings_view(a@).take(i + 1) =~= strings_view(a@).take(i as int).push(
                a@[i as int]@,
            ));
        }
        i = i + 1;
    }
    let mut j: usize = 0;
    while j < b.len()
        invariant
            0 <= j <= b@.len(),
            strings_view(r@) == strings_view(a@) + strings_view(b@).take(j as int),
        decreases b@.len() - j,
    {
        let ghost before = r@;
        r.push(b[j].clone());
        proof {
            assert(strings_view(r@) =~= strings_view(before).push(b@[j as int]@));
            assert(strings_view(b@).take(j + 1) =~= strings_view(b@).take(j as int).push(
                b@[j as int]@,
            ));
            assert(strings_view(r@) =~= strings_view(a@) + strings_view(b@).take(j + 1));
        }
        j = j + 1;
    }
    proof {
        assert(strings_view(b@).take(b@.len() as int) =~= strings_view(b@));
    }
    r
}

/// Rebase one option `path` under `root`, purely lexically: a path already
/// under `root` is normalized and kept; an absolute path is reparented onto
/// `root`; a relative one is joined onto it. A result that no longer lies
/// under `root` (a `..` climbing out) is refused.
pub fn reroot_under(root: &str, path: &str) -> (r: Result<String, MizError>)
    ensures
        r is Ok <==> reroot_ok(root@, path@),
        r matches Ok(s) ==> s@ == rerooted(root@, path@) && comps_prefix(
            normal_comps(root@),
            reroot_comps(root@, path@),
        ),
        r matches Err(e) ==> e matches MizError::Other(m) && m@ == escape_message(root@, path@),
{
    let root_cs = path_components(root);
    let canon = normalize_components(&root_cs);
    let path_cs = path_components(path);
    let candidate = if components_prefix(&canon, &path_cs) {
        normalize_components(&path_cs)
    } else {
        let named = named_pieces(path);
        let joined = concat_components(&canon, &named);
        normalize_components(&joined)
    };
    let text = render_components(&candidate);
    if !components_prefix(&canon, &candidate) {
        let mut m = String::new();
        push_str(&mut m, "refusing to reinstall: option path ");
        push_str(&mut m, path);
        push_str(&mut m, " escapes staged root ");
        push_str(&mut m, root);
        push_str(&mut m, " (resolved to ");
        push_str(&mut m, text.as_str());
        push_str(&mut m, ")");
        return Err(MizError::Other(m));
    }
    Ok(text)
}

/// Index of the first path among `ps` that escapes `root` when rebased
/// (`ps.len()` when none does).
pub open spec fn first_escape(root: Seq<char>, ps: Seq<Seq<char>>) -> int
    decreases ps.len(),
{
    if ps.len() == 0 {
        0
    } else if !reroot_ok(root, ps[0]) {
        0
    } else {
        1 + first_escape(root, ps.drop_first())
    }
}

/// `ps` with its first `f` entries rebased under `root` and the rest as they were.
pub open spec fn rebased_upto(root: Seq<char>, ps: Seq<Seq<char>>, f: int) -> Seq<Seq<char>> {
    Seq::new(ps.len(), |k: int| if k < f { rerooted(root, ps[k]) } else { ps[k] })
}

pub proof fn lemma_first_escape_bounds(root: Seq<char>, ps: Seq<Seq<char>>)
    ensures
        0 <= first_escape(root, ps) <= ps.len(),
        forall|k: int| 0 <= k < first_escape(root, ps) ==> reroot_ok(root, #[trigger] ps[k]),
        first_escape(root, ps) < ps.len() ==> !reroot_ok(root, ps[first_escape(root, ps)]),
    decreases ps.len(),
{
    if ps.len() > 0 && reroot_ok(root, ps[0]) {
        lemma_first_escape_bounds(root, ps.drop_first());
        assert forall|k: int| 0 <= k < first_escape(root, ps) implies reroot_ok(
            root,
            #[trigger] ps[k],
        ) by {
            if k > 0 {
                assert(ps[k] == ps.drop_first()[k - 1]);
            }
        }
    }
}

/// The first escape of a concatenation is found in the first part when it
/// has one, else after it.
pub proof fn lemma_first_escape_concat(root: Seq<char>, a: Seq<Seq<char>>, b: Seq<Seq<char>>)
    ensures
        first_escape(root, a + b) == if first_escape(root, a) < a.len() {
            first_escape(root, a)
        } else {
            a.len() + first_escape(root, b)
        },
    decreases a.len(),
{
    lemma_first_escape_bounds(root, a);
    if a.len() == 0 {
        assert(a + b =~= b);
    } else {
        assert((a + b)[0] == a[0]);
        assert((a + b).drop_first() =~= a.drop_first() + b);
        lemma_first_escape_concat(root, a.drop_first(), b);
    }
}

/// Rebase every path of `list` under `root`, in order, stopping at the first
/// that escapes.
fn reroot_each(root: &str, list: &mut Vec<String>) -> (r: Result<(), MizError>)
    ensures
        final(list)@.len() == old(list)@.len(),
        views(final(list)@) == rebased_upto(
            root@,
            views(old(list)@),
            first_escape(root@, views(old(list)@)),
        ),
        r is Ok <==> first_escape(root@, views(old(list)@)) == old(list)@.len(),
        r matches Err(e) ==> e matches MizError::Other(m) && m@ == escape_message(
            root@,
            views(old(list)@)[first_escape(root@, views(old(list)@))],
        ),
{
    let ghost ps = views(list@);
    proof {
        lemma_first_escape_bounds(root@, ps);
    }
    let ghost f = first_escape(root@, ps);
    let mut i: usize = 0;
    while i < list.len()
        invariant
            0 <= i <= list@.len() == ps.len(),
            ps == views(old(list)@),
            f == first_escape(root@, ps),
            0 <= f <= ps.len(),
            forall|k: int| 0 <= k < f ==> reroot_ok(root@, #[trigger] ps[k]),
            f < ps.len() ==> !reroot_ok(root@, ps[f]),
            i <= f,
            views(list@) == rebased_upto(root@, ps, i as int),
        decreases list@.len() - i,
    {
        proof {
            assert(list@[i as int]@ == ps[i as int]) by {
                assert(views(list@)[i as int] == ps[i as int]);
            }
        }
        let res = reroot_under(root, list[i].as_str());
        match res {
            Ok(p) => {
                let ghost before = list@;
                list.set(i, p);
                proof {
                    assert(views(list@) =~= views(before).update(i as int, p@));
                    assert(views(list@) =~= rebased_upto(root@, ps, i + 1));
                }
            },
            Err(e) => {
                proof {
                    assert(rebased_upto(root@, ps, i as int) =~= rebased_upto(root@, ps, f));
                }
                return Err(e);
            },
        }
        i = i + 1;
    }
    Ok(())
}

/// The filesystem option paths libalpm uses verbatim, in the order they are
/// rebased: cache dirs, hook dirs, the GnuPG dir, the log file.
pub open spec fn option_paths(o: Options) -> Seq<Seq<char>> {
    views(o.cache_dir@) + views(o.hook_dir@) + seq![o.gpg_dir@, o.log_file@]
}

/// `a` and `b` agree on every option that is not a rebased path.
pub open spec fn same_other_options(a: Options, b: Options) -> bool {
    &&& a.root_dir == b.root_dir
    &&& a.db_path == b.db_path
    &&& a.hold_pkg == b.hold_pkg
    &&& a.ignore_pkg == b.ignore_pkg
    &&& a.ignore_group == b.ignore_group
    &&& a.architecture == b.architecture
    &&& a.no_upgrade == b.no_upgrade
    &&& a.no_extract == b.no_extract
    &&& a.clean_method == b.clean_method
    &&& a.xfer_command == b.xfer_command
    &&& a.parallel_downloads == b.parallel_downloads
    &&& a.disable_download_timeout == b.disable_download_timeout
    &&& a.download_user == b.download_user
    &&& a.sig_level == b.sig_level
    &&& a.local_file_sig_level == b.local_file_sig_level
    &&& a.remote_file_sig_level == b.remote_file_sig_level
    &&& a.disable_sandbox == b.disable_sandbox
    &&& a.disable_sandbox_filesystem == b.disable_sandbox_filesystem
    &&& a.disable_sandbox_syscalls == b.disable_sandbox_syscalls
    &&& a.use_syslog == b.use_syslog
    &&& a.color == b.color
    &&& a.total_download == b.total_download
    &&& a.check_space == b.check_space
    &&& a.verbose_pkg_lists == b.verbose_pkg_lists
    &&& a.chomp == b.chomp
}

/// Rebasing a concatenation rebases the first part up to its first escape,
/// and the second part only when the first has none.
pub proof fn lemma_rebased_concat(root: Seq<char>, a: Seq<Seq<char>>, b: Seq<Seq<char>>)
    ensures
        rebased_upto(root, a + b, first_escape(root, a + b)) == rebased_upto(
            root,
            a,
            first_escape(root, a),
        ) + if first_escape(root, a) < a.len() {
            b
        } else {
            rebased_upto(root, b, first_escape(root, b))
        },
{
    lemma_first_escape_concat(root, a, b);
    lemma_first_escape_bounds(root, a);
    lemma_first_escape_bounds(root, b);
    let lhs = rebased_upto(root, a + b, first_escape(root, a + b));
    let rhs = rebased_upto(root, a, first_escape(root, a)) + if first_escape(root, a) < a.len() {
        b
    } else {
        rebased_upto(root, b, first_escape(root, b))
    };
    assert forall|k: int| 0 <= k < lhs.len() implies lhs[k] == rhs[k] by {
        if k < a.len() {
            assert((a + b)[k] == a[k]);
        } else {
            assert((a + b)[k] == b[k - a.len()]);
        }
    }
    assert(lhs =~= rhs);
}

/// Rebase, in place, every filesystem option path libalpm consumes verbatim
/// (cache dirs, hook dirs, GnuPG dir, log file) under `root`, in that order.
/// Fails at the first path that escapes `root`; the paths before it are
/// already rebased, the rest untouched.
#[verifier::spinoff_prover]
#[verifier::rlimit(60)]
pub fn reroot_options(opts: &mut Options, root: &str) -> (r: Result<(), MizError>)
    ensures
        final(opts).cache_dir@.len() == old(opts).cache_dir@.len(),
        final(opts).hook_dir@.len() == old(opts).hook_dir@.len(),
        option_paths(*final(opts)) == rebased_upto(
            root@,
            option_paths(*old(opts)),
            first_escape(root@, option_paths(*old(opts))),
        ),
        same_other_options(*old(opts), *final(opts)),
        r is Ok <==> first_escape(root@, option_paths(*old(opts))) == option_paths(
            *old(opts),
        ).len(),
        r matches Err(e) ==> e matches MizError::Other(m) && m@ == escape_message(
            root@,
            option_paths(*old(opts))[first_escape(root@, option_paths(*old(opts)))],
        ),
{
    let ghost c = views(opts.cache_dir@);
    let ghost h = views(opts.hook_dir@);
    let ghost ps = option_paths(*opts);
    let mut tail: Vec<String> = Vec::new();
    tail.push(opts.gpg_dir.clone());
    tail.push(opts.log_file.clone());
    let ghost g = views(tail@);
    proof {
        assert(g =~= seq![opts.gpg_dir@, opts.log_file@]);
        assert(ps == (c + h) + g);
        lemma_rebased_concat(root@, c + h, g);
        lemma_rebased_concat(root@, c, h);
        lemma_first_escape_concat(root@, c + h, g);
        lemma_first_escape_concat(root@, c, h);
        lemma_first_escape_bounds(root@, c);
        lemma_first_escape_bounds(root@, h);
        lemma_first_escape_bounds(root@, g);
        lemma_first_escape_bounds(root@, c + h);
    }
    let r1 = reroot_each(root, &mut opts.cache_dir);
    if let Err(e) = r1 {
        proof {
            assert((c + h)[first_escape(root@, c)] == c[first_escape(root@, c)]);
            assert(ps[first_escape(root@, ps)] == c[first_escape(root@, c)]);
            assert(option_paths(*opts) =~= rebased_upto(root@, ps, first_escape(root@, ps)));
        }
        return Err(e);
    }
    let r2 = reroot_each(root, &mut opts.hook_dir);
    if let Err(e) = r2 {
        proof {
            assert((c + h)[c.len() + first_escape(root@, h)] == h[first_escape(root@, h)]);
            assert(ps[first_escape(root@, ps)] == h[first_escape(root@, h)]);
            assert(option_paths(*opts) =~= rebased_upto(root@, ps, first_escape(root@, ps)));
        }
        return Err(e);
    }
    let r3 = reroot_each(root, &mut tail);
    proof {
        assert(tail@.len() == 2);
    }
    opts.gpg_dir = tail[0].clone();
    opts.log_file = tail[1].clone();
    proof {
        assert(views(tail@)[0] == tail@[0]@);
        assert(views(tail@)[1] == tail@[1]@);
        assert(option_paths(*opts) =~= views(opts.cache_dir@) + views(opts.hook_dir@) + views(
            tail@,
        ));
        assert(option_paths(*opts) =~= rebased_upto(root@, ps, first_escape(root@, ps)));
    }
    if let Err(e) = r3 {
        proof {
            assert(ps[first_escape(root@, ps)] == g[first_escape(root@, g)]);
        }
        return Err(e);
    }
    Ok(())
}

// ---------------------------------------------------------------------------
// Database path, architectures, server URLs
// ---------------------------------------------------------------------------

/// The alpm localdb path: the command line's `--dbpath` wins, then
/// `[archetype].layered_db`, then `[options].db_path`.
pub open spec fn dbpath_of(
    cli: Option<Seq<char>>,
    layered: Option<Seq<char>>,
    options_db: Seq<char>,
) -> Seq<char> {
    match cli {
        Some(p) => p,
        None => match layered {
            Some(p) => p,
            None => options_db,
        },
    }
}

/// Pick the alpm localdb path (see [`dbpath_of`]).
pub fn resolve_dbpath(
    cli_dbpath: Option<&str>,
    archetype_layered_db: Option<&str>,
    options_db_path: &str,
) -> (r: String)
    ensures
        r@ == dbpath_of(opt_str(cli_dbpath), opt_str(archetype_layered_db), options_db_path@),
{
    match cli_dbpath {
        Some(p) => to_owned(p),
        None => match archetype_layered_db {
            Some(p) => to_owned(p),
            None => to_owned(options_db_path),
        },
    }
}

/// `url` with `$repo` replaced by the repo name and, when an architecture is
/// known, `$arch` by it (otherwise `$arch` stays literal).
pub open spec fn expanded_url(url: Seq<char>, repo: Seq<char>, arch: Option<Seq<char>>) -> Seq<
    char,
> {
    let with_repo = replace_all(url, "$repo"@, repo);
    match arch {
        Some(a) => replace_all(with_repo, "$arch"@, a),
        None => with_repo,
    }
}

/// Expand `$repo` and `$arch` in a server URL, as pacman's frontend does.
pub fn expand_server_url(url: &str, repo: &str, arch: Option<&str>) -> (r: String)
    ensures
        r@ == expanded_url(url@, repo@, opt_str(arch)),
{
    proof {
        reveal_strlit("$repo");
        reveal_strlit("$arch");
    }
    let out = replace_str(url, "$repo", repo);
    match arch {
        Some(a) => replace_str(out.as_str(), "$arch", a),
        None => out,
    }
}

/// One architecture entry after expansion: `auto` becomes the machine's
/// architecture when it is known.
pub open spec fn resolved_arch(a: Seq<char>, machine: Option<Seq<char>>) -> Seq<char> {
    if a == "auto"@ && machine is Some {
        machine->0
    } else {
        a
    }
}

/// Expand every `auto` entry to the running kernel's machine name (`uname -m`,
/// `machine`); other entries, and `auto` when the machine is unknown, stay.
pub fn resolve_architectures(input: &Vec<String>, machine: Option<&str>) -> (r: Vec<String>)
    ensures
        r@.len() == input@.len(),
        forall|k: int|
            0 <= k < input@.len() ==> #[trigger] r@[k]@ == resolved_arch(
                input@[k]@,
                opt_str(machine),
            ),
{
    let mut out: Vec<String> = Vec::new();
    let mut i: usize = 0;
    while i < input.len()
        invariant
            0 <= i <= input@.len(),
            out@.len() == i,
            forall|k: int|
                0 <= k < i ==> #[trigger] out@[k]@ == resolved_arch(input@[k]@, opt_str(machine)),
        decreases input@.len() - i,
    {
        let is_auto = str_eq(input[i].as_str(), "auto");
        let a = match machine {
            Some(m) => {
                if is_auto {
                    to_owned(m)
                } else {
                    input[i].clone()
                }
            },
            None => input[i].clone(),
        };
        out.push(a);
        i = i + 1;
    }
    out
}

// ---------------------------------------------------------------------------
// Signature levels and repository usage (libalpm bit values)
// ---------------------------------------------------------------------------

pub const SIG_PACKAGE: u32 = 1;
pub const SIG_PACKAGE_OPTIONAL: u32 = 2;
pub const SIG_PACKAGE_MARGINAL_OK: u32 = 4;
pub const SIG_PACKAGE_UNKNOWN_OK: u32 = 8;
pub const SIG_DATABASE: u32 = 1024;
pub const SIG_DATABASE_OPTIONAL: u32 = 2048;
pub const SIG_DATABASE_MARGINAL_OK: u32 = 4096;
pub const SIG_DATABASE_UNKNOWN_OK: u32 = 8192;
pub const SIG_USE_DEFAULT: u32 = 0x4000_0000;

pub const USAGE_NONE: u32 = 0;
pub const USAGE_SYNC: u32 = 1;
pub const USAGE_SEARCH: u32 = 2;
pub const USAGE_INSTALL: u32 = 4;
pub const USAGE_UPGRADE: u32 = 8;
pub const USAGE_ALL: u32 = 15;

/// A SigLevel token split into its verb and the scopes it applies to:
/// a `Package` or `Database` prefix limits it to that scope, a bare verb
/// applies to both.
pub open spec fn sig_scope(level: Seq<char>) -> (Seq<char>, bool, bool) {
    if starts_with(level, "Package"@) {
        (level.skip("Package"@.len() as int), true, false)
    } else if starts_with(level, "Database"@) {
        (level.skip("Database"@.len() as int), false, true)
    } else {
        (level, true, true)
    }
}

/// `sig` with `bits` set when `on`.
pub open spec fn set_if(sig: u32, on: bool, bits: u32) -> u32 {
    if on {
        sig | bits
    } else {
        sig
    }
}

/// `sig` with `bits` cleared when `on`.
pub open spec fn clear_if(sig: u32, on: bool, bits: u32) -> u32 {
    if on {
        sig & !bits
    } else {
        sig
    }
}

/// The effect of one SigLevel token on the mask (pacman's `process_siglevel`);
/// unknown verbs change nothing.
pub open spec fn sig_step(sig: u32, level: Seq<char>) -> u32 {
    let (verb, p, d) = sig_scope(level);
    if verb == "Never"@ {
        clear_if(clear_if(sig, p, SIG_PACKAGE), d, SIG_DATABASE)
    } else if verb == "Optional"@ {
        set_if(
            set_if(sig, p, SIG_PACKAGE | SIG_PACKAGE_OPTIONAL),
            d,
            SIG_DATABASE | SIG_DATABASE_OPTIONAL,
        )
    } else if verb == "Required"@ {
        clear_if(
            set_if(
                clear_if(set_if(sig, p, SIG_PACKAGE), p, SIG_PACKAGE_OPTIONAL),
                d,
                SIG_DATABASE,
            ),
            d,
            SIG_DATABASE_OPTIONAL,
        )
    } else if verb == "TrustedOnly"@ {
        clear_if(
            clear_if(sig, p, SIG_PACKAGE_MARGINAL_OK | SIG_PACKAGE_UNKNOWN_OK),
            d,
            SIG_DATABASE_MARGINAL_OK | SIG_DATABASE_UNKNOWN_OK,
        )
    } else if verb == "TrustAll"@ {
        set_if(
            set_if(sig, p, SIG_PACKAGE_MARGINAL_OK | SIG_PACKAGE_UNKNOWN_OK),
            d,
            SIG_DATABASE_MARGINAL_OK | SIG_DATABASE_UNKNOWN_OK,
        )
    } else {
        sig
    }
}

/// The mask of a token list, applied left to right from no bits.
pub open spec fn sig_mask(levels: Seq<Seq<char>>) -> u32
    decreases levels.len(),
{
    if levels.len() == 0 {
        0
    } else {
        sig_step(sig_mask(levels.drop_last()), levels.last())
    }
}

fn set_bits(sig: u32, on: bool, bits: u32) -> (r: u32)
    ensures
        r == set_if(sig, on, bits),
{
    if on {
        sig | bits
    } else {
        sig
    }
}

fn clear_bits(sig: u32, on: bool, bits: u32) -> (r: u32)
    ensures
        r == clear_if(sig, on, bits),
{
    if on {
        sig & !bits
    } else {
        sig
    }
}

/// The scope split of one token (see [`sig_scope`]).
fn split_scope(level: &str) -> (r: (String, bool, bool))
    ensures
        r.0@ == sig_scope(level@).0,
        r.1 == sig_scope(level@).1,
        r.2 == sig_scope(level@).2,
{
    let v = chars_of(level);
    let pkg = chars_of("Package");
    let db = chars_of("Database");
    if range_starts_with(&v, 0, v.len(), &pkg) {
        proof {
            assert(v@.subrange(0, v@.len() as int) =~= level@);
            assert(v@.subrange(pkg@.len() as int, v@.len() as int) =~= level@.skip(
                "Package"@.len() as int,
            ));
        }
        (string_of_range(&v, pkg.len(), v.len()), true, false)
    } else if range_starts_with(&v, 0, v.len(), &db) {
        proof {
            assert(v@.subrange(0, v@.len() as int) =~= level@);
            assert(v@.subrange(db@.len() as int, v@.len() as int) =~= level@.skip(
                "Database"@.len() as int,
            ));
        }
        (string_of_range(&v, db.len(), v.len()), false, true)
    } else {
        proof {
            assert(v@.subrange(0, v@.len() as int) =~= level@);
        }
        (to_owned(level), true, true)
    }
}

/// Parse pacman.conf-style SigLevel tokens into libalpm's bitmask, as
/// pacman's `process_siglevel` does; unknown tokens are ignored.
pub fn parse_sig_level(levels: &Vec<String>) -> (sig: u32)
    ensures
        sig == sig_mask(views(levels@)),
{
    let ghost lv = views(levels@);
    let mut sig: u32 = 0;
    let mut i: usize = 0;
    while i < levels.len()
        invariant
            0 <= i <= levels@.len(),
            lv == views(levels@),
            sig == sig_mask(lv.take(i as int)),
        decreases levels@.len() - i,
    {
        proof {
            assert(lv.take(i + 1).drop_last() =~= lv.take(i as int));
            assert(lv.take(i + 1).last() == levels@[i as int]@);
        }
        let (verb, p, d) = split_scope(levels[i].as_str());
        let vb = verb.as_str();
        if str_eq(vb, "Never") {
            sig = clear_bits(sig, p, SIG_PACKAGE);
            sig = clear_bits(sig, d, SIG_DATABASE);
        } else if str_eq(vb, "Optional") {
            sig = set_bits(sig, p, SIG_PACKAGE | SIG_PACKAGE_OPTIONAL);
            sig = set_bits(sig, d, SIG_DATABASE | SIG_DATABASE_OPTIONAL);
        } else if str_eq(vb, "Required") {
            sig = set_bits(sig, p, SIG_PACKAGE);
            sig = clear_bits(sig, p, SIG_PACKAGE_OPTIONAL);
            sig = set_bits(sig, d, SIG_DATABASE);
            sig = clear_bits(sig, d, SIG_DATABASE_OPTIONAL);
        } else if str_eq(vb, "TrustedOnly") {
            sig = clear_bits(sig, p, SIG_PACKAGE_MARGINAL_OK | SIG_PACKAGE_UNKNOWN_OK);
            sig = clear_bits(sig, d, SIG_DATABASE_MARGINAL_OK | SIG_DATABASE_UNKNOWN_OK);
        } else if str_eq(vb, "TrustAll") {
            sig = set_bits(sig, p, SIG_PACKAGE_MARGINAL_OK | SIG_PACKAGE_UNKNOWN_OK);
            sig = set_bits(sig, d, SIG_DATABASE_MARGINAL_OK | SIG_DATABASE_UNKNOWN_OK);
        }
        i = i + 1;
    }
    proof {
        assert(lv.take(levels@.len() as int) =~= lv);
    }
    sig
}

/// A repository's signature level: its own tokens, or libalpm's
/// "use the default" marker when it has none.
pub fn repo_sig_level(levels: &Vec<String>) -> (sig: u32)
    ensures
        levels@.len() == 0 ==> sig == SIG_USE_DEFAULT,
        levels@.len() > 0 ==> sig == sig_mask(views(levels@)),
{
    if levels.len() == 0 {
        SIG_USE_DEFAULT
    } else {
        parse_sig_level(levels)
    }
}

/// The effect of one Usage token: the four named ones add their bit, `All`
/// sets every bit, anything else is ignored.
pub open spec fn usage_step(u: u32, v: Seq<char>) -> u32 {
    if v == "Sync"@ {
        u | USAGE_SYNC
    } else if v == "Search"@ {
        u | USAGE_SEARCH
    } else if v == "Install"@ {
        u | USAGE_INSTALL
    } else if v == "Upgrade"@ {
        u | USAGE_UPGRADE
    } else if v == "All"@ {
        USAGE_ALL
    } else {
        u
    }
}

/// Usage tokens folded left to right from no bits.
pub open spec fn usage_fold(vs: Seq<Seq<char>>) -> u32
    decreases vs.len(),
{
    if vs.len() == 0 {
        USAGE_NONE
    } else {
        usage_step(usage_fold(vs.drop_last()), vs.last())
    }
}

/// A repository's usage mask; an empty result means `All`.
pub open spec fn usage_mask(vs: Seq<Seq<char>>) -> u32 {
    if usage_fold(vs) == USAGE_NONE {
        USAGE_ALL
    } else {
        usage_fold(vs)
    }
}

/// Fold a repository's `usage` tokens into libalpm's usage mask.
pub fn repo_usage(usage: &Vec<String>) -> (u: u32)
    ensures
        u == usage_mask(views(usage@)),
{
    let ghost uv = views(usage@);
    let mut u: u32 = USAGE_NONE;
    let mut i: usize = 0;
    while i < usage.len()
        invariant
            0 <= i <= usage@.len(),
            uv == views(usage@),
            u == usage_fold(uv.take(i as int)),
        decreases usage@.len() - i,
    {
        proof {
            assert(uv.take(i + 1).drop_last() =~= uv.take(i as int));
            assert(uv.take(i + 1).last() == usage@[i as int]@);
        }
        let v = usage[i].as_str();
        if str_eq(v, "Sync") {
            u = u | USAGE_SYNC;
        } else if str_eq(v, "Search") {
            u = u | USAGE_SEARCH;
        } else if str_eq(v, "Install") {
            u = u | USAGE_INSTALL;
        } else if str_eq(v, "Upgrade") {
            u = u | USAGE_UPGRADE;
        } else if str_eq(v, "All") {
            u = USAGE_ALL;
        }
        i = i + 1;
    }
    proof {
        assert(uv.take(usage@.len() as int) =~= uv);
    }
    if u == USAGE_NONE {
        USAGE_ALL
    } else {
        u
    }
}

// ---------------------------------------------------------------------------
// Archive repin
// ---------------------------------------------------------------------------

/// The standard Arch repositories served from the archive snapshot.
pub open spec fn is_arch_repo(name: Seq<char>) -> bool {
    name == "core"@ || name == "extra"@ || name == "multilib"@
}

/// The configured archive base of `conf`, if any.
pub open spec fn archive_base_of(conf: MizConfig) -> Option<Seq<char>> {
    match conf.archetype {
        Some(a) => opt_string(a.archive_base),
        None => None,
    }
}

fn arch_repo_name(name: &str) -> (r: bool)
    ensures
        r == is_arch_repo(name@),
{
    str_eq(name, "core") || str_eq(name, "extra") || str_eq(name, "multilib")
}

/// Point the servers of `core`, `extra` and `multilib` at the archive
/// snapshot of `date` (under the configured archive base); every other repo,
/// and everything else in the config, is left as it was.
pub fn repin_archive_repos(conf: &mut MizConfig, date: &str)
    ensures
        final(conf).options == old(conf).options,
        final(conf).archetype == old(conf).archetype,
        final(conf).repos@.len() == old(conf).repos@.len(),
        forall|k: int|
            0 <= k < old(conf).repos@.len() ==> {
                let o = #[trigger] old(conf).repos@[k];
                let n = final(conf).repos@[k];
                &&& n.name == o.name
                &&& n.sig_level == o.sig_level
                &&& n.usage == o.usage
                &&& n.include_paths == o.include_paths
                &&& if is_arch_repo(o.name@) {
                    views(n.servers@) == seq![archive_url_of(archive_base_of(*old(conf)), date@)]
                } else {
                    n.servers == o.servers
                }
            },
{
    let url = match &conf.archetype {
        Some(a) => match &a.archive_base {
            Some(b) => archive_url(Some(b.as_str()), date),
            None => archive_url(None, date),
        },
        None => archive_url(None, date),
    };
    let ghost url_view = archive_url_of(archive_base_of(*conf), date@);
    assert(url@ == url_view);
    let mut i: usize = 0;
    while i < conf.repos.len()
        invariant
            0 <= i <= conf.repos@.len() == old(conf).repos@.len(),
            conf.options == old(conf).options,
            conf.archetype == old(conf).archetype,
            url@ == url_view,
            url_view == archive_url_of(archive_base_of(*old(conf)), date@),
            forall|k: int|
                i <= k < conf.repos@.len() ==> #[trigger] conf.repos@[k] == old(conf).repos@[k],
            forall|k: int|
                0 <= k < i ==> {
                    let o = #[trigger] old(conf).repos@[k];
                    let n = conf.repos@[k];
                    &&& n.name == o.name
                    &&& n.sig_level == o.sig_level
                    &&& n.usage == o.usage
                    &&& n.include_paths == o.include_paths
                    &&& if is_arch_repo(o.name@) {
                        views(n.servers@) == seq![url_view]
                    } else {
                        n.servers == o.servers
                    }
                },
        decreases old(conf).repos@.len() - i,
    {
        if arch_repo_name(conf.repos[i].name.as_str()) {
            let mut r = Repository {
                name: String::new(),
                servers: Vec::new(),
                sig_level: Vec::new(),
                usage: Vec::new(),
                include_paths: Vec::new(),
            };
            conf.repos.set_and_swap(i, &mut r);
            let mut servers: Vec<String> = Vec::new();
            servers.push(url.clone());
            proof {
                assert(views(servers@) =~= seq![url_view]);
            }
            r.servers = servers;
            conf.repos.set(i, r);
        }
        i = i + 1;
    }
}

// ---------------------------------------------------------------------------
// What libalpm is configured with
// ---------------------------------------------------------------------------

/// How one repository is registered with libalpm.
pub struct RepoRegistration {
    pub name: String,
    /// The repository's signature level mask.
    pub sig_level: u32,
    /// Its server URLs with `$repo`/`$arch` expanded.
    pub servers: Vec<String>,
    /// Its usage mask.
    pub usage: u32,
}

/// The settings libalpm receives that are computed from the config rather
/// than copied from it.
pub struct AlpmSettings {
    /// `[options].architecture` with `auto` resolved.
    pub architectures: Vec<String>,
    pub default_sig_level: u32,
    pub local_file_sig_level: u32,
    pub remote_file_sig_level: u32,
    /// `parallel_downloads` as libalpm's 32-bit count (truncated).
    pub parallel_downloads: u32,
    /// `disable_sandbox_filesystem || disable_sandbox`.
    pub disable_sandbox_filesystem: bool,
    /// `disable_sandbox_syscalls || disable_sandbox`.
    pub disable_sandbox_syscalls: bool,
    /// The repositories, in configuration order.
    pub repos: Vec<RepoRegistration>,
}

/// `r` is how `repo` is registered when `arch` is the primary architecture.
pub open spec fn registers(r: RepoRegistration, repo: Repository, arch: Option<Seq<char>>) -> bool {
    &&& r.name@ == repo.name@
    &&& r.sig_level == (if repo.sig_level@.len() == 0 {
        SIG_USE_DEFAULT
    } else {
        sig_mask(views(repo.sig_level@))
    })
    &&& r.usage == usage_mask(views(repo.usage@))
    &&& r.servers@.len() == repo.servers@.len()
    &&& forall|k: int|
        0 <= k < repo.servers@.len() ==> #[trigger] r.servers@[k]@ == expanded_url(
            repo.servers@[k]@,
            repo.name@,
            arch,
        )
}

/// How `repo` is registered when `arch` is the primary architecture: its
/// signature level (the default marker when it sets none), its servers with
/// `$repo`/`$arch` expanded, and its usage.
pub fn register_repo(repo: &Repository, arch: Option<&str>) -> (r: RepoRegistration)
    ensures
        registers(r, *repo, opt_str(arch)),
{
    let mut servers: Vec<String> = Vec::new();
    let mut i: usize = 0;
    while i < repo.servers.len()
        invariant
            0 <= i <= repo.servers@.len(),
            servers@.len() == i,
            forall|k: int|
                0 <= k < i ==> #[trigger] servers@[k]@ == expanded_url(
                    repo.servers@[k]@,
                    repo.name@,
                    opt_str(arch),
                ),
        decreases repo.servers@.len() - i,
    {
        servers.push(expand_server_url(repo.servers[i].as_str(), repo.name.as_str(), arch));
        i = i + 1;
    }
    RepoRegistration {
        name: repo.name.clone(),
        sig_level: repo_sig_level(&repo.sig_level),
        servers,
        usage: repo_usage(&repo.usage),
    }
}

/// The primary architecture: the first resolved one, if any.
pub open spec fn primary_arch(archs: Seq<String>) -> Option<Seq<char>> {
    if archs.len() > 0 {
        Some(archs[0]@)
    } else {
        None
    }
}

/// Compute the libalpm settings of `opts` and `repos`; `machine` is the
/// running kernel's architecture, used for `auto`.
pub fn alpm_settings(opts: &Options, repos: &Vec<Repository>, machine: Option<&str>) -> (s:
    AlpmSettings)
    ensures
        s.architectures@.len() == opts.architecture@.len(),
        forall|k: int|
            0 <= k < opts.architecture@.len() ==> #[trigger] s.architectures@[k]@ == resolved_arch(
                opts.architecture@[k]@,
                opt_str(machine),
            ),
        s.default_sig_level == sig_mask(views(opts.sig_level@)),
        s.local_file_sig_level == sig_mask(views(opts.local_file_sig_level@)),
        s.remote_file_sig_level == sig_mask(views(opts.remote_file_sig_level@)),
        s.parallel_downloads == opts.parallel_downloads as u32,
        s.disable_sandbox_filesystem == (opts.disable_sandbox_filesystem || opts.disable_sandbox),
        s.disable_sandbox_syscalls == (opts.disable_sandbox_syscalls || opts.disable_sandbox),
        s.repos@.len() == repos@.len(),
        forall|k: int|
            0 <= k < repos@.len() ==> registers(
                #[trigger] s.repos@[k],
                repos@[k],
                primary_arch(s.architectures@),
            ),
{
    let architectures = resolve_architectures(&opts.architecture, machine);
    let arch: Option<&str> = if architectures.len() > 0 {
        Some(architectures[0].as_str())
    } else {
        None
    };
    let mut regs: Vec<RepoRegistration> = Vec::new();
    let mut i: usize = 0;
    while i < repos.len()
        invariant
            0 <= i <= repos@.len(),
            regs@.len() == i,
            opt_str(arch) == primary_arch(architectures@),
            forall|k: int|
                0 <= k < i ==> registers(
                    #[trigger] regs@[k],
                    repos@[k],
                    primary_arch(architectures@),
                ),
        decreases repos@.len() - i,
    {
        regs.push(register_repo(&repos[i], arch));
        i = i + 1;
    }
    AlpmSettings {
        architectures,
        default_sig_level: parse_sig_level(&opts.sig_level),
        local_file_sig_level: parse_sig_level(&opts.local_file_sig_level),
        remote_file_sig_level: parse_sig_level(&opts.remote_file_sig_level),
        parallel_downloads: opts.parallel_downloads as u32,
        disable_sandbox_filesystem: opts.disable_sandbox_filesystem || opts.disable_sandbox,
        disable_sandbox_syscalls: opts.disable_sandbox_syscalls || opts.disable_sandbox,
        repos: regs,
    }
}

} // verus!
