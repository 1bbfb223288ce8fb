use miz::config::{
    alpm_settings, expand_server_url, parse_sig_level, repin_archive_repos, repo_usage,
    reroot_options, reroot_under, resolve_architectures, resolve_dbpath, SIG_DATABASE,
    SIG_DATABASE_OPTIONAL, SIG_PACKAGE, SIG_PACKAGE_MARGINAL_OK, SIG_PACKAGE_OPTIONAL,
    SIG_PACKAGE_UNKNOWN_OK, SIG_USE_DEFAULT, USAGE_ALL, USAGE_SEARCH, USAGE_SYNC,
};
use miz::schema::{Archetype, MizConfig, Options, Repository};

fn strings(v: &[&str]) -> Vec<String> {
    v.iter().map(|s| s.to_string()).collect()
}

#[test]
fn expand_server_url_substitutes_repo_and_arch() {
    assert_eq!(
        expand_server_url(
            "https://archive.archlinux.org/repos/2026/06/30/$repo/os/$arch",
            "core",
            Some("x86_64"),
        ),
        "https://archive.archlinux.org/repos/2026/06/30/core/os/x86_64"
    );
    assert_eq!(
        expand_server_url(
            "https://repo.archetype.li/packages/2026/06/30",
            "archetype",
            Some("x86_64")
        ),
        "https://repo.archetype.li/packages/2026/06/30"
    );
    assert_eq!(
        expand_server_url("https://x/$repo/os/$arch", "extra", None),
        "https://x/extra/os/$arch"
    );
}

#[test]
fn resolve_architectures_substitutes_auto_per_token() {
    let m = "x86_64";
    let out = resolve_architectures(&strings(&["auto", "x86_64", "auto"]), Some(m));
    assert_eq!(out, strings(&[m, "x86_64", m]));
}

#[test]
fn resolve_architectures_leaves_non_auto_alone() {
    let out = resolve_architectures(&strings(&["x86_64", "aarch64"]), Some("riscv64"));
    assert_eq!(out, vec!["x86_64".to_string(), "aarch64".to_string()]);
}

#[test]
fn resolve_architectures_keeps_auto_when_machine_unknown() {
    let out = resolve_architectures(&strings(&["auto"]), None);
    assert_eq!(out, strings(&["auto"]));
}

#[test]
fn resolve_dbpath_cli_wins_over_everything() {
    let got = resolve_dbpath(Some("/cli/db"), Some("/var/lib/miz"), "/var/lib/pacman");
    assert_eq!(got, "/cli/db");
}

#[test]
fn resolve_dbpath_layered_db_when_no_cli() {
    let got = resolve_dbpath(None, Some("/var/lib/miz"), "/var/lib/pacman");
    assert_eq!(got, "/var/lib/miz");
}

#[test]
fn resolve_dbpath_falls_back_to_options_db_path() {
    let got = resolve_dbpath(None, None, "/var/lib/pacman");
    assert_eq!(got, "/var/lib/pacman");
}

#[test]
fn reroot_under_reparents_absolute_paths() {
    let root = "/run/miz/next";
    assert_eq!(
        reroot_under(root, "/var/cache/pacman/pkg").unwrap(),
        "/run/miz/next/var/cache/pacman/pkg"
    );
    assert_eq!(
        reroot_under(root, "/var/log/pacman.log").unwrap(),
        "/run/miz/next/var/log/pacman.log"
    );
}

#[test]
fn reroot_under_is_idempotent_for_already_rooted_paths() {
    let root = "/run/miz/next";
    assert_eq!(
        reroot_under(root, "/run/miz/next/var/cache").unwrap(),
        "/run/miz/next/var/cache"
    );
}

#[test]
fn reroot_under_joins_relative_paths() {
    let root = "/run/miz/next";
    assert_eq!(
        reroot_under(root, "var/log/pacman.log").unwrap(),
        "/run/miz/next/var/log/pacman.log"
    );
}

#[test]
fn reroot_under_rejects_dotdot_escape() {
    let root = "/run/miz/next";
    let err = reroot_under(root, "/../../etc/pacman.d/gnupg").unwrap_err();
    assert!(
        err.to_string().contains("escapes staged root"),
        "unexpected error: {}",
        err.to_string()
    );
    let err = reroot_under(root, "/run/miz/next/../../../etc").unwrap_err();
    assert!(
        err.to_string().contains("escapes staged root"),
        "unexpected error: {}",
        err.to_string()
    );
}

#[test]
fn reroot_under_reports_the_resolved_path() {
    let err = reroot_under("/run/miz/next", "/run/miz/next/../../../etc").unwrap_err();
    assert_eq!(
        err.to_string(),
        "refusing to reinstall: option path /run/miz/next/../../../etc escapes staged root /run/miz/next (resolved to /etc)"
    );
}

#[test]
fn reroot_under_normalizes_dots_and_slashes() {
    assert_eq!(
        reroot_under("/run/miz/next/", "./var//./cache/../log/").unwrap(),
        "/run/miz/next/var/log"
    );
}

#[test]
fn reroot_options_rebases_every_fs_path() {
    let mut opts = Options {
        cache_dir: strings(&["/var/cache/pacman/pkg/"]),
        hook_dir: strings(&["/etc/pacman.d/hooks/"]),
        gpg_dir: "/etc/pacman.d/gnupg/".to_string(),
        log_file: "/var/log/pacman.log".to_string(),
        ..Default::default()
    };
    reroot_options(&mut opts, "/run/miz/next").unwrap();
    assert_eq!(opts.cache_dir, strings(&["/run/miz/next/var/cache/pacman/pkg"]));
    assert_eq!(opts.hook_dir, strings(&["/run/miz/next/etc/pacman.d/hooks"]));
    assert_eq!(opts.gpg_dir, "/run/miz/next/etc/pacman.d/gnupg");
    assert_eq!(opts.log_file, "/run/miz/next/var/log/pacman.log");
}

#[test]
fn reroot_options_propagates_escape_error() {
    let mut opts = Options {
        log_file: "/run/miz/next/../../../var/log/pacman.log".to_string(),
        ..Default::default()
    };
    let err = reroot_options(&mut opts, "/run/miz/next").unwrap_err();
    assert!(err.to_string().contains("escapes staged root"));
    // the paths before the failing one are already rebased
    assert_eq!(opts.gpg_dir, "/run/miz/next/etc/pacman.d/gnupg");
}

#[test]
fn repin_archive_repos_rewrites_arch_repos_only() {
    let mut conf = MizConfig {
        options: Options::default(),
        repos: vec![
            Repository {
                name: "core".into(),
                servers: strings(&["https://mirror.example/core"]),
                sig_level: vec![],
                usage: vec![],
                include_paths: vec![],
            },
            Repository {
                name: "archetype".into(),
                servers: strings(&["https://repo.archetype.li/packages/2026/06/17"]),
                sig_level: vec![],
                usage: vec![],
                include_paths: vec![],
            },
        ],
        archetype: Some(Archetype {
            image_db: None,
            layered_db: None,
            archive_base: Some("https://archive.archlinux.org/repos".into()),
            archive_date: None,
        }),
    };
    repin_archive_repos(&mut conf, "2026/06/17");
    let core = conf.repos.iter().find(|r| r.name == "core").unwrap();
    assert_eq!(
        core.servers,
        vec!["https://archive.archlinux.org/repos/2026/06/17/$repo/os/$arch".to_string()]
    );
    let arch = conf.repos.iter().find(|r| r.name == "archetype").unwrap();
    assert_eq!(
        arch.servers,
        vec!["https://repo.archetype.li/packages/2026/06/17".to_string()]
    );
}

#[test]
fn empty_table_yields_pacman_defaults() {
    let c = MizConfig::default();
    assert_eq!(c.options.root_dir, "/");
    assert_eq!(c.options.db_path, "/var/lib/pacman/");
    assert_eq!(c.options.parallel_downloads, 5);
    assert!(c.options.check_space);
    assert_eq!(c.options.architecture, vec!["auto".to_string()]);
    assert_eq!(
        c.options.sig_level,
        vec!["Required".to_string(), "DatabaseOptional".to_string()]
    );
    assert!(c.repos.is_empty());
    assert!(c.archetype.is_none());
}

#[test]
fn sig_level_default_tokens() {
    let sig = parse_sig_level(&strings(&["Required", "DatabaseOptional"]));
    assert_eq!(sig, SIG_PACKAGE | SIG_DATABASE | SIG_DATABASE_OPTIONAL);
    let sig = parse_sig_level(&strings(&["Optional", "TrustAll"]));
    assert_eq!(
        sig & (SIG_PACKAGE | SIG_PACKAGE_OPTIONAL | SIG_PACKAGE_MARGINAL_OK | SIG_PACKAGE_UNKNOWN_OK),
        SIG_PACKAGE | SIG_PACKAGE_OPTIONAL | SIG_PACKAGE_MARGINAL_OK | SIG_PACKAGE_UNKNOWN_OK
    );
    assert_eq!(parse_sig_level(&strings(&["Never"])), 0);
    assert_eq!(parse_sig_level(&strings(&["Bogus"])), 0);
    assert_eq!(parse_sig_level(&strings(&["PackageRequired", "Never"])), 0);
}

#[test]
fn repo_usage_defaults_to_all() {
    assert_eq!(repo_usage(&vec![]), USAGE_ALL);
    assert_eq!(repo_usage(&strings(&["Sync", "Search"])), USAGE_SYNC | USAGE_SEARCH);
    assert_eq!(repo_usage(&strings(&["Bogus"])), USAGE_ALL);
}

#[test]
fn alpm_settings_expand_servers_with_primary_arch() {
    let mut opts = Options::default();
    opts.architecture = strings(&["auto"]);
    opts.disable_sandbox = true;
    let repos = vec![Repository {
        name: "core".into(),
        servers: strings(&["https://m/$repo/os/$arch"]),
        sig_level: vec![],
        usage: vec![],
        include_paths: vec![],
    }];
    let s = alpm_settings(&opts, &repos, Some("x86_64"));
    assert_eq!(s.architectures, strings(&["x86_64"]));
    assert_eq!(s.repos[0].servers, strings(&["https://m/core/os/x86_64"]));
    assert_eq!(s.repos[0].sig_level, SIG_USE_DEFAULT);
    assert_eq!(s.repos[0].usage, USAGE_ALL);
    assert!(s.disable_sandbox_filesystem && s.disable_sandbox_syscalls);
    assert_eq!(s.parallel_downloads, 5);
}
