use miz::convert::{convert, convert_repo, optional, parse_convert_args, ConvertCommand, PacmanConf, PacmanRepo};

fn s(v: &[&str]) -> Vec<String> {
    v.iter().map(|x| x.to_string()).collect()
}

fn conf() -> PacmanConf {
    PacmanConf {
        root_dir: "/".to_string(),
        db_path: "/var/lib/pacman/".to_string(),
        cache_dir: s(&["/var/cache/pacman/pkg/"]),
        hook_dir: s(&["/etc/pacman.d/hooks/"]),
        gpg_dir: "/etc/pacman.d/gnupg/".to_string(),
        log_file: "/var/log/pacman.log".to_string(),
        hold_pkg: s(&["pacman", "glibc"]),
        ignore_pkg: Vec::new(),
        ignore_group: Vec::new(),
        architecture: s(&["x86_64"]),
        xfer_command: String::new(),
        no_upgrade: Vec::new(),
        no_extract: Vec::new(),
        clean_method: s(&["KeepInstalled"]),
        sig_level: s(&["Required", "DatabaseOptional"]),
        local_file_sig_level: s(&["Optional"]),
        remote_file_sig_level: s(&["Required"]),
        download_user: Some("alpm".to_string()),
        use_syslog: false,
        color: true,
        total_download: false,
        check_space: true,
        verbose_pkg_lists: false,
        disable_download_timeout: false,
        parallel_downloads: 5,
        disable_sandbox: false,
        disable_sandbox_filesystem: false,
        disable_sandbox_syscalls: false,
        chomp: false,
        repos: vec![
            PacmanRepo {
                name: "core".to_string(),
                servers: s(&["https://mirror/core/os/x86_64"]),
                sig_level: Vec::new(),
                usage: s(&["All"]),
            },
            PacmanRepo { name: "extra".to_string(), servers: Vec::new(), sig_level: s(&["Optional"]), usage: Vec::new() },
        ],
    }
}

#[test]
fn convert_carries_options_and_repos_in_order() {
    let m = convert(&conf());
    assert_eq!(m.options.db_path, "/var/lib/pacman/");
    assert_eq!(m.options.hold_pkg, s(&["pacman", "glibc"]));
    assert_eq!(m.options.xfer_command, None);
    assert_eq!(m.options.download_user, Some("alpm".to_string()));
    assert_eq!(m.options.parallel_downloads, 5);
    assert!(m.options.color);
    assert_eq!(m.repos.len(), 2);
    assert_eq!(m.repos[0].name, "core");
    assert_eq!(m.repos[0].usage, s(&["All"]));
    assert_eq!(m.repos[1].sig_level, s(&["Optional"]));
    assert!(m.repos[1].include_paths.is_empty());
    assert!(m.archetype.is_none());
}

#[test]
fn convert_keeps_a_set_transfer_command() {
    let mut c = conf();
    c.xfer_command = "/usr/bin/curl -o %o %u".to_string();
    assert_eq!(convert(&c).options.xfer_command, Some("/usr/bin/curl -o %o %u".to_string()));
}

#[test]
fn optional_treats_empty_as_absent() {
    assert_eq!(optional(""), None);
    assert_eq!(optional("x"), Some("x".to_string()));
}

#[test]
fn convert_repo_copies_fields() {
    let r = convert_repo(&conf().repos[0]);
    assert_eq!(r.servers, s(&["https://mirror/core/os/x86_64"]));
}

fn run(args: &[&str]) -> ConvertCommand {
    parse_convert_args(&s(args))
}

#[test]
fn convert_args_defaults_and_output() {
    match run(&[]) {
        ConvertCommand::Run { input, output } => {
            assert_eq!(input, "/etc/pacman.conf");
            assert_eq!(output, None);
        }
        _ => panic!("expected a run"),
    }
    match run(&["my.conf", "--output", "out.toml"]) {
        ConvertCommand::Run { input, output } => {
            assert_eq!(input, "my.conf");
            assert_eq!(output, Some("out.toml".to_string()));
        }
        _ => panic!("expected a run"),
    }
    match run(&["-o", "-h"]) {
        ConvertCommand::Run { input, output } => {
            assert_eq!(input, "/etc/pacman.conf");
            assert_eq!(output, Some("-h".to_string()));
        }
        _ => panic!("expected a run"),
    }
}

#[test]
fn convert_args_errors_and_early_exits() {
    match run(&["-o"]) {
        ConvertCommand::Invalid(m) => assert_eq!(m, "missing value for --output"),
        _ => panic!("expected an error"),
    }
    match run(&["--bogus"]) {
        ConvertCommand::Invalid(m) => assert_eq!(m, "unknown flag: --bogus (try --help)"),
        _ => panic!("expected an error"),
    }
    match run(&["a.conf", "b.conf"]) {
        ConvertCommand::Invalid(m) => assert_eq!(m, "multiple input files; expected one"),
        _ => panic!("expected an error"),
    }
    assert!(matches!(run(&["a.conf", "--help", "b.conf"]), ConvertCommand::Help));
    assert!(matches!(run(&["-V", "--bogus"]), ConvertCommand::Version));
    assert!(matches!(run(&["--bogus", "-h"]), ConvertCommand::Invalid(_)));
}
