//! `miz-convert`: a pacman.conf, as pacman-conf reports it, turned into a
//! `miz.toml` configuration.
use crate::schema::{views, MizConfig, Options, Repository};
use crate::text::{chars_of, opt_string, push_str, str_eq, to_owned};
use vstd::prelude::*;

verus! {

/// One repository section as pacman-conf reports it.
pub struct PacmanRepo {
    pub name: String,
    pub servers: Vec<String>,
    pub sig_level: Vec<String>,
    pub usage: Vec<String>,
}

/// The configuration pacman-conf reports (its `UseDelta` aside).
pub struct PacmanConf {
    pub root_dir: String,
    pub db_path: String,
    pub cache_dir: Vec<String>,
    pub hook_dir: Vec<String>,
    pub gpg_dir: String,
    pub log_file: String,
    pub hold_pkg: Vec<String>,
    pub ignore_pkg: Vec<String>,
    pub ignore_group: Vec<String>,
    pub architecture: Vec<String>,
    /// Empty when unset.
    pub xfer_command: String,
    pub no_upgrade: Vec<String>,
    pub no_extract: Vec<String>,
    pub clean_method: Vec<String>,
    pub sig_level: Vec<String>,
    pub local_file_sig_level: Vec<String>,
    pub remote_file_sig_level: Vec<String>,
    pub download_user: Option<String>,
    pub use_syslog: bool,
    pub color: bool,
    pub total_download: bool,
    pub check_space: bool,
    pub verbose_pkg_lists: bool,
    pub disable_download_timeout: bool,
    pub parallel_downloads: u64,
    pub disable_sandbox: bool,
    pub disable_sandbox_filesystem: bool,
    pub disable_sandbox_syscalls: bool,
    pub chomp: bool,
    pub repos: Vec<PacmanRepo>,
}

/// `s`, or nothing when it is empty.
pub open spec fn optional_text(s: Seq<char>) -> Option<Seq<char>> {
    if s.len() == 0 {
        None
    } else {
        Some(s)
    }
}

/// An empty string as absent.
pub fn optional(s: &str) -> (r: Option<String>)
    ensures
        opt_string(r) == optional_text(s@),
{
    if chars_of(s).len() == 0 {
        None
    } else {
        Some(to_owned(s))
    }
}

fn copy_strings(v: &Vec<String>) -> (r: Vec<String>)
    ensures
        views(r@) == views(v@),
{
    let mut out: Vec<String> = Vec::new();
    let mut i: usize = 0;
    while i < v.len()
        invariant
            0 <= i <= v@.len(),
            views(out@) == views(v@).take(i as int),
        decreases v@.len() - i,
    {
        let ghost before = out@;
        let c = v[i].clone();
        out.push(c);
        proof {
            assert(views(out@) =~= views(before).push(c@));
            assert(views(v@).take(i + 1) =~= views(v@).take(i as int).push(v@[i as int]@));
        }
        i = i + 1;
    }
    proof {
        assert(views(v@).take(v@.len() as int) =~= views(v@));
    }
    out
}

/// `r` carries the repository section `p`, with no includes.
pub open spec fn repo_converted(r: Repository, p: PacmanRepo) -> bool {
    &&& r.name@ == p.name@
    &&& views(r.servers@) == views(p.servers@)
    &&& views(r.sig_level@) == views(p.sig_level@)
    &&& views(r.usage@) == views(p.usage@)
    &&& r.include_paths@.len() == 0
}

pub fn convert_repo(p: &PacmanRepo) -> (r: Repository)
    ensures
        repo_converted(r, *p),
{
    Repository {
        name: p.name.clone(),
        servers: copy_strings(&p.servers),
        sig_level: copy_strings(&p.sig_level),
        usage: copy_strings(&p.usage),
        include_paths: Vec::new(),
    }
}

/// The options of `m` carry those of `pc` one for one (an empty transfer
/// command as absent).
pub open spec fn options_converted(o: Options, pc: PacmanConf) -> bool {
    &&& o.root_dir@ == pc.root_dir@
    &&& o.db_path@ == pc.db_path@
    &&& views(o.cache_dir@) == views(pc.cache_dir@)
    &&& views(o.hook_dir@) == views(pc.hook_dir@)
    &&& o.gpg_dir@ == pc.gpg_dir@
    &&& o.log_file@ == pc.log_file@
    &&& views(o.hold_pkg@) == views(pc.hold_pkg@)
    &&& views(o.ignore_pkg@) == views(pc.ignore_pkg@)
    &&& views(o.ignore_group@) == views(pc.ignore_group@)
    &&& views(o.architecture@) == views(pc.architecture@)
    &&& views(o.no_upgrade@) == views(pc.no_upgrade@)
    &&& views(o.no_extract@) == views(pc.no_extract@)
    &&& views(o.clean_method@) == views(pc.clean_method@)
    &&& opt_string(o.xfer_command) == optional_text(pc.xfer_command@)
    &&& o.parallel_downloads == pc.parallel_downloads
    &&& o.disable_download_timeout == pc.disable_download_timeout
    &&& opt_string(o.download_user) == opt_string(pc.download_user)
    &&& views(o.sig_level@) == views(pc.sig_level@)
    &&& views(o.local_file_sig_level@) == views(pc.local_file_sig_level@)
    &&& views(o.remote_file_sig_level@) == views(pc.remote_file_sig_level@)
    &&& o.disable_sandbox == pc.disable_sandbox
    &&& o.disable_sandbox_filesystem == pc.disable_sandbox_filesystem
    &&& o.disable_sandbox_syscalls == pc.disable_sandbox_syscalls
    &&& o.use_syslog == pc.use_syslog
    &&& o.color == pc.color
    &&& o.total_download == pc.total_download
    &&& o.check_space == pc.check_space
    &&& o.verbose_pkg_lists == pc.verbose_pkg_lists
    &&& o.chomp == pc.chomp
}

/// The `miz.toml` of a pacman.conf: its options, its repositories in order,
/// and no `[archetype]` section (pacman.conf has no split-db settings).
pub fn convert(pc: &PacmanConf) -> (m: MizConfig)
    ensures
        options_converted(m.options, *pc),
        m.repos@.len() == pc.repos@.len(),
        forall|k: int| 0 <= k < pc.repos@.len() ==> repo_converted(#[trigger] m.repos@[k], pc.repos@[k]),
        m.archetype is None,
{
    let download_user = match &pc.download_user {
        Some(u) => Some(u.clone()),
        None => None,
    };
    let options = Options {
        root_dir: pc.root_dir.clone(),
        db_path: pc.db_path.clone(),
        cache_dir: copy_strings(&pc.cache_dir),
        hook_dir: copy_strings(&pc.hook_dir),
        gpg_dir: pc.gpg_dir.clone(),
        log_file: pc.log_file.clone(),
        hold_pkg: copy_strings(&pc.hold_pkg),
        ignore_pkg: copy_strings(&pc.ignore_pkg),
        ignore_group: copy_strings(&pc.ignore_group),
        architecture: copy_strings(&pc.architecture),
        no_upgrade: copy_strings(&pc.no_upgrade),
        no_extract: copy_strings(&pc.no_extract),
        clean_method: copy_strings(&pc.clean_method),
        xfer_command: optional(pc.xfer_command.as_str()),
        parallel_downloads: pc.parallel_downloads,
        disable_download_timeout: pc.disable_download_timeout,
        download_user,
        sig_level: copy_strings(&pc.sig_level),
        local_file_sig_level: copy_strings(&pc.local_file_sig_level),
        remote_file_sig_level: copy_strings(&pc.remote_file_sig_level),
        disable_sandbox: pc.disable_sandbox,
        disable_sandbox_filesystem: pc.disable_sandbox_filesystem,
        disable_sandbox_syscalls: pc.disable_sandbox_syscalls,
        use_syslog: pc.use_syslog,
        color: pc.color,
        total_download: pc.total_download,
        check_space: pc.check_space,
        verbose_pkg_lists: pc.verbose_pkg_lists,
        chomp: pc.chomp,
    };
    let mut repos: Vec<Repository> = Vec::new();
    let mut i: usize = 0;
    while i < pc.repos.len()
        invariant
            0 <= i <= pc.repos@.len(),
            repos@.len() == i,
            forall|k: int| 0 <= k < i ==> repo_converted(#[trigger] repos@[k], pc.repos@[k]),
        decreases pc.repos@.len() - i,
    {
        repos.push(convert_repo(&pc.repos[i]));
        i = i + 1;
    }
    MizConfig { options, repos, archetype: None }
}

/// What the `miz-convert` command line asks for.
pub enum ConvertCommand {
    Help,
    Version,
    /// Convert `input`, writing to `output` (standard output when `None`).
    Run { input: String, output: Option<String> },
    /// A usage error, with its message.
    Invalid(String),
}

/// The content of a [`ConvertCommand`].
pub enum ConvertCmd {
    Help,
    Version,
    Run(Seq<char>, Option<Seq<char>>),
    Invalid(Seq<char>),
}

pub open spec fn command_view(c: ConvertCommand) -> ConvertCmd {
    match c {
        ConvertCommand::Help => ConvertCmd::Help,
        ConvertCommand::Version => ConvertCmd::Version,
        ConvertCommand::Run { input, output } => ConvertCmd::Run(input@, opt_string(output)),
        ConvertCommand::Invalid(m) => ConvertCmd::Invalid(m@),
    }
}

/// The arguments read left to right: `-o`/`--output` takes the next one,
/// `-h`/`--help` and `-V`/`--version` end the reading, any other `-…` is
/// an unknown flag, and one input file may be named (by default
/// `/etc/pacman.conf`).
pub open spec fn convert_cli(args: Seq<Seq<char>>, input: Option<Seq<char>>, output: Option<Seq<char>>) -> ConvertCmd
    decreases args.len(),
{
    if args.len() == 0 {
        ConvertCmd::Run(
            match input {
                Some(i) => i,
                None => "/etc/pacman.conf"@,
            },
            output,
        )
    } else {
        let a = args[0];
        let rest = args.drop_first();
        if a == "-o"@ || a == "--output"@ {
            if rest.len() == 0 {
                ConvertCmd::Invalid("missing value for --output"@)
            } else {
                convert_cli(rest.drop_first(), input, Some(rest[0]))
            }
        } else if a == "-h"@ || a == "--help"@ {
            ConvertCmd::Help
        } else if a == "-V"@ || a == "--version"@ {
            ConvertCmd::Version
        } else if a.len() > 0 && a[0] == '-' {
            ConvertCmd::Invalid("unknown flag: "@ + a + " (try --help)"@)
        } else if input is Some {
            ConvertCmd::Invalid("multiple input files; expected one"@)
        } else {
            convert_cli(rest, Some(a), output)
        }
    }
}

/// Read the `miz-convert` command line (without the program name).
pub fn parse_convert_args(args: &Vec<String>) -> (r: ConvertCommand)
    ensures
        command_view(r) == convert_cli(crate::common::fmt::strings_view(args@), None, None),
{
    let ghost av = crate::common::fmt::strings_view(args@);
    let mut input: Option<String> = None;
    let mut output: Option<String> = None;
    let mut i: usize = 0;
    proof {
        assert(av.skip(0) =~= av);
    }
    while i < args.len()
        invariant
            0 <= i <= args@.len(),
            av == crate::common::fmt::strings_view(args@),
            convert_cli(av, None, None) == convert_cli(av.skip(i as int), opt_string(input), opt_string(output)),
        decreases args@.len() - i,
    {
        let a = args[i].as_str();
        let ghost tail = av.skip(i as int);
        proof {
            assert(tail[0] == a@);
            assert(tail.drop_first() =~= av.skip(i + 1));
        }
        if str_eq(a, "-o") || str_eq(a, "--output") {
            if i + 1 >= args.len() {
                return ConvertCommand::Invalid(to_owned("missing value for --output"));
            }
            proof {
                assert(av.skip(i + 1)[0] == args@[i + 1]@);
                assert(av.skip(i + 1).drop_first() =~= av.skip(i + 2));
            }
            output = Some(args[i + 1].clone());
            i = i + 2;
        } else if str_eq(a, "-h") || str_eq(a, "--help") {
            return ConvertCommand::Help;
        } else if str_eq(a, "-V") || str_eq(a, "--version") {
            return ConvertCommand::Version;
        } else if starts_with_dash(a) {
            let mut m = to_owned("unknown flag: ");
            push_str(&mut m, a);
            push_str(&mut m, " (try --help)");
            return ConvertCommand::Invalid(m);
        } else if input.is_some() {
            return ConvertCommand::Invalid(to_owned("multiple input files; expected one"));
        } else {
            input = Some(args[i].clone());
            i = i + 1;
        }
    }
    proof {
        assert(av.skip(i as int).len() == 0);
    }
    match input {
        Some(x) => ConvertCommand::Run { input: x, output },
        None => ConvertCommand::Run { input: to_owned("/etc/pacman.conf"), output },
    }
}

fn starts_with_dash(a: &str) -> (r: bool)
    ensures
        r == (a@.len() > 0 && a@[0] == '-'),
{
    let v = chars_of(a);
    v.len() > 0 && v[0] == '-'
}

} // verus!
