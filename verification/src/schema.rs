//! The `miz.toml` schema: `[options]` (a faithful mirror of pacman.conf's
//! `[options]`), `[[repos]]`, and the optional `[archetype]` split-db section,
//! with the defaults pacman's bundled `/etc/pacman.conf` ships.
//!
//! Filesystem paths are held as their text. Deserialization lives outside the
//! library; these are the values it produces.
use crate::text::to_owned;
use vstd::prelude::*;

verus! {

/// The whole configuration file.
pub struct MizConfig {
    pub options: Options,
    pub repos: Vec<Repository>,
    /// Split-db settings; absent for a classic single-db setup.
    pub archetype: Option<Archetype>,
}

/// Split-database / archive-snapshot settings of an installed Archetype system.
pub struct Archetype {
    /// Read-only image db scanned for assume_installed provisions.
    pub image_db: Option<String>,
    /// Writable layered localdb; overrides `options.db_path` when set.
    pub layered_db: Option<String>,
    /// Archive snapshot root, e.g. `https://archive.archlinux.org/repos`.
    pub archive_base: Option<String>,
    /// `YYYY/MM/DD` snapshot date override.
    pub archive_date: Option<String>,
}

/// pacman.conf's `[options]`.
pub struct Options {
    pub root_dir: String,
    pub db_path: String,
    pub cache_dir: Vec<String>,
    pub hook_dir: Vec<String>,
    pub gpg_dir: String,
    pub log_file: String,
    pub hold_pkg: Vec<String>,
    pub ignore_pkg: Vec<String>,
    pub ignore_group: Vec<String>,
    pub architecture: Vec<String>,
    pub no_upgrade: Vec<String>,
    pub no_extract: Vec<String>,
    pub clean_method: Vec<String>,
    pub xfer_command: Option<String>,
    pub parallel_downloads: u64,
    pub disable_download_timeout: bool,
    pub download_user: Option<String>,
    pub sig_level: Vec<String>,
    pub local_file_sig_level: Vec<String>,
    pub remote_file_sig_level: Vec<String>,
    pub disable_sandbox: bool,
    pub disable_sandbox_filesystem: bool,
    pub disable_sandbox_syscalls: bool,
    pub use_syslog: bool,
    pub color: bool,
    pub total_download: bool,
    pub check_space: bool,
    pub verbose_pkg_lists: bool,
    /// pacman's `ILoveCandy`.
    pub chomp: bool,
}

/// One `[[repos]]` entry (a pacman.conf repository section).
pub struct Repository {
    pub name: String,
    /// `Server =` lines, in the order pacman tries them.
    pub servers: Vec<String>,
    /// Per-repo SigLevel; empty inherits `[options]`.
    pub sig_level: Vec<String>,
    /// Per-repo Usage; empty means `All`.
    pub usage: Vec<String>,
    /// `Include =` references, kept verbatim.
    pub include_paths: Vec<String>,
}

/// The views of a sequence of strings.
pub open spec fn views(v: Seq<String>) -> Seq<Seq<char>> {
    v.map_values(|s: String| s@)
}

fn one(s: &str) -> (v: Vec<String>)
    ensures
        views(v@) == seq![s@],
{
    let mut v = Vec::new();
    v.push(to_owned(s));
    proof {
        assert(views(v@) =~= seq![s@]);
    }
    v
}

pub fn default_root_dir() -> (r: String)
    ensures
        r@ == "/"@,
{
    to_owned("/")
}

pub fn default_db_path() -> (r: String)
    ensures
        r@ == "/var/lib/pacman/"@,
{
    to_owned("/var/lib/pacman/")
}

pub fn default_cache_dir() -> (r: Vec<String>)
    ensures
        views(r@) == seq!["/var/cache/pacman/pkg/"@],
{
    one("/var/cache/pacman/pkg/")
}

pub fn default_hook_dir() -> (r: Vec<String>)
    ensures
        views(r@) == seq!["/etc/pacman.d/hooks/"@],
{
    one("/etc/pacman.d/hooks/")
}

pub fn default_gpg_dir() -> (r: String)
    ensures
        r@ == "/etc/pacman.d/gnupg/"@,
{
    to_owned("/etc/pacman.d/gnupg/")
}

pub fn default_log_file() -> (r: String)
    ensures
        r@ == "/var/log/pacman.log"@,
{
    to_owned("/var/log/pacman.log")
}

pub fn default_architecture() -> (r: Vec<String>)
    ensures
        views(r@) == seq!["auto"@],
{
    one("auto")
}

pub fn default_clean_method() -> (r: Vec<String>)
    ensures
        views(r@) == seq!["KeepInstalled"@],
{
    one("KeepInstalled")
}

pub fn default_parallel_downloads() -> (r: u64)
    ensures
        r == 5,
{
    5
}

pub fn default_check_space() -> (r: bool)
    ensures
        r,
{
    true
}

pub fn default_sig_level() -> (r: Vec<String>)
    ensures
        views(r@) == seq!["Required"@, "DatabaseOptional"@],
{
    let a = to_owned("Required");
    let b = to_owned("DatabaseOptional");
    let mut v = Vec::new();
    v.push(a);
    v.push(b);
    proof {
        assert(views(v@) =~= seq!["Required"@, "DatabaseOptional"@]);
    }
    v
}

pub fn default_local_file_sig_level() -> (r: Vec<String>)
    ensures
        views(r@) == seq!["Optional"@],
{
    one("Optional")
}

pub fn default_remote_file_sig_level() -> (r: Vec<String>)
    ensures
        views(r@) == seq!["Required"@],
{
    one("Required")
}

/// The values pacman's bundled `/etc/pacman.conf` gives each option.
pub open spec fn is_default_options(o: Options) -> bool {
    &&& o.root_dir@ == "/"@
    &&& o.db_path@ == "/var/lib/pacman/"@
    &&& views(o.cache_dir@) == seq!["/var/cache/pacman/pkg/"@]
    &&& views(o.hook_dir@) == seq!["/etc/pacman.d/hooks/"@]
    &&& o.gpg_dir@ == "/etc/pacman.d/gnupg/"@
    &&& o.log_file@ == "/var/log/pacman.log"@
    &&& o.hold_pkg@.len() == 0
    &&& o.ignore_pkg@.len() == 0
    &&& o.ignore_group@.len() == 0
    &&& views(o.architecture@) == seq!["auto"@]
    &&& o.no_upgrade@.len() == 0
    &&& o.no_extract@.len() == 0
    &&& views(o.clean_method@) == seq!["KeepInstalled"@]
    &&& o.xfer_command is None
    &&& o.parallel_downloads == 5
    &&& !o.disable_download_timeout
    &&& o.download_user is None
    &&& views(o.sig_level@) == seq!["Required"@, "DatabaseOptional"@]
    &&& views(o.local_file_sig_level@) == seq!["Optional"@]
    &&& views(o.remote_file_sig_level@) == seq!["Required"@]
    &&& !o.disable_sandbox
    &&& !o.disable_sandbox_filesystem
    &&& !o.disable_sandbox_syscalls
    &&& !o.use_syslog
    &&& !o.color
    &&& !o.total_download
    &&& o.check_space
    &&& !o.verbose_pkg_lists
    &&& !o.chomp
}

impl Default for Options {
    fn default() -> (o: Self)
        ensures
            is_default_options(o),
    {
        Options {
            root_dir: default_root_dir(),
            db_path: default_db_path(),
            cache_dir: default_cache_dir(),
            hook_dir: default_hook_dir(),
            gpg_dir: default_gpg_dir(),
            log_file: default_log_file(),
            hold_pkg: Vec::new(),
            ignore_pkg: Vec::new(),
            ignore_group: Vec::new(),
            architecture: default_architecture(),
            no_upgrade: Vec::new(),
            no_extract: Vec::new(),
            clean_method: default_clean_method(),
            xfer_command: None,
            parallel_downloads: default_parallel_downloads(),
            disable_download_timeout: false,
            download_user: None,
            sig_level: default_sig_level(),
            local_file_sig_level: default_local_file_sig_level(),
            remote_file_sig_level: default_remote_file_sig_level(),
            disable_sandbox: false,
            disable_sandbox_filesystem: false,
            disable_sandbox_syscalls: false,
            use_syslog: false,
            color: false,
            total_download: false,
            check_space: default_check_space(),
            verbose_pkg_lists: false,
            chomp: false,
        }
    }
}

impl Default for MizConfig {
    fn default() -> (c: Self)
        ensures
            is_default_options(c.options),
            c.repos@.len() == 0,
            c.archetype is None,
    {
        MizConfig { options: Options::default(), repos: Vec::new(), archetype: None }
    }
}

} // verus!
