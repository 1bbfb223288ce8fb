use miz::error::MizError;
use miz::operations::repos::{
    sync_action, sync_groups, sync_info, sync_list, sync_search, RepoDb, RepoGroup, RepoPkg, SyncAction,
};
use miz::params::sync::Params;
use miz::report::SyncReport;

fn params() -> Params {
    Params {
        clean: 0,
        groups: false,
        info: 0,
        list: false,
        print: false,
        print_format: None,
        quiet: false,
        search: None,
        sysupgrade: 0,
        downloadonly: false,
        refresh: 0,
        needed: false,
        asdeps: false,
        asexplicit: false,
        ignore: Vec::new(),
        ignoregroup: Vec::new(),
        overwrite: Vec::new(),
        noconfirm: false,
        noprogressbar: false,
        noscriptlet: false,
        targets: Vec::new(),
    }
}

fn s(v: &[&str]) -> Vec<String> {
    v.iter().map(|x| x.to_string()).collect()
}

fn pkg(name: &str, version: &str, desc: Option<&str>) -> RepoPkg {
    RepoPkg {
        name: name.to_string(),
        version: version.to_string(),
        desc: desc.map(|d| d.to_string()),
        arch: Some("x86_64".to_string()),
        url: None,
        licenses: s(&["GPL"]),
        groups: Vec::new(),
        provides: Vec::new(),
        depends: s(&["glibc", "readline>=8"]),
        optdepends: Vec::new(),
        conflicts: Vec::new(),
        replaces: Vec::new(),
        size: 1024,
        isize: 1536,
        packager: None,
        build_date: 0,
        validation: 8,
        backup: Vec::new(),
    }
}

fn dbs() -> Vec<RepoDb> {
    vec![
        RepoDb {
            name: "core".to_string(),
            pkgs: vec![pkg("bash", "5.2-1", Some("The GNU shell")), pkg("zsh", "5.9-1", None)],
            groups: Some(vec![RepoGroup { name: "base".to_string(), packages: s(&["bash", "coreutils"]) }]),
        },
        RepoDb {
            name: "extra".to_string(),
            pkgs: vec![pkg("fish", "3.7-1", Some("friendly shell")), pkg("bash", "9.9-1", None)],
            groups: Some(vec![
                RepoGroup { name: "base".to_string(), packages: s(&["fishbase"]) },
                RepoGroup { name: "gnome".to_string(), packages: s(&["gdm"]) },
            ]),
        },
        RepoDb { name: "broken".to_string(), pkgs: Vec::new(), groups: None },
    ]
}

fn listing(r: SyncReport) -> (Vec<String>, Vec<String>, Option<String>) {
    match r {
        SyncReport::Listing { lines, diagnostics, error } => (lines, diagnostics, error),
        _ => panic!("not a listing"),
    }
}

#[test]
fn search_matches_name_or_description_and_marks_installed() {
    let r = sync_search(&params(), "shell", &dbs(), &s(&["fish"])).unwrap();
    match r {
        SyncReport::Search { lines } => assert_eq!(
            lines,
            s(&["core/bash 5.2-1", "    The GNU shell", "extra/fish 3.7-1 [installed]", "    friendly shell"])
        ),
        _ => panic!("not a search"),
    }
    let mut q = params();
    q.quiet = true;
    match sync_search(&q, "^.sh$|sh$", &dbs(), &Vec::new()).unwrap() {
        SyncReport::Search { lines } => assert_eq!(lines, s(&["bash", "zsh", "fish", "bash"])),
        _ => panic!("not a search"),
    }
}

#[test]
fn search_with_invalid_pattern_is_a_regex_error() {
    match sync_search(&params(), "(", &dbs(), &Vec::new()) {
        Err(MizError::Regex(m)) => assert!(!m.is_empty()),
        _ => panic!("expected a regex error"),
    }
}

#[test]
fn list_all_databases_in_order() {
    let (lines, diags, err) = listing(sync_list(&params(), &dbs(), &s(&["bash"])));
    assert_eq!(
        lines,
        s(&["core bash 5.2-1 [installed]", "core zsh 5.9-1", "extra fish 3.7-1", "extra bash 9.9-1 [installed]"])
    );
    assert!(diags.is_empty());
    assert_eq!(err, None);
}

#[test]
fn list_named_databases_and_stop_at_a_missing_one() {
    let mut a = params();
    a.quiet = true;
    a.targets = s(&["extra"]);
    let (lines, _, err) = listing(sync_list(&a, &dbs(), &Vec::new()));
    assert_eq!(lines, s(&["fish", "bash"]));
    assert_eq!(err, None);
    a.targets = s(&["extra", "nope", "core"]);
    let (lines, diags, err) = listing(sync_list(&a, &dbs(), &Vec::new()));
    assert!(lines.is_empty());
    assert_eq!(diags, s(&["repository 'nope' was not found"]));
    assert_eq!(err, Some("nope".to_string()));
}

#[test]
fn groups_without_targets_lists_each_name_once() {
    let mut a = params();
    a.groups = true;
    let (lines, diags, err) = listing(sync_groups(&a, &dbs()));
    assert_eq!(lines, s(&["base", "gnome"]));
    assert!(diags.is_empty());
    assert_eq!(err, None);
}

#[test]
fn groups_with_targets_lists_members_and_missing() {
    let mut a = params();
    a.targets = s(&["base", "kde", "gnome"]);
    let (lines, diags, err) = listing(sync_groups(&a, &dbs()));
    assert_eq!(lines, s(&["base bash", "base coreutils", "base fishbase", "gnome gdm"]));
    assert_eq!(diags, s(&["group 'kde' was not found"]));
    assert_eq!(err, Some("base, kde, gnome".to_string()));
    a.quiet = true;
    a.targets = s(&["gnome"]);
    let (lines, diags, err) = listing(sync_groups(&a, &dbs()));
    assert_eq!(lines, s(&["gdm"]));
    assert!(diags.is_empty());
    assert_eq!(err, None);
}

#[test]
fn info_block_fields_and_lookup() {
    let mut a = params();
    a.info = 1;
    a.targets = s(&["extra/bash", "nothere"]);
    let (lines, diags, err) = listing(sync_info(&a, &dbs()));
    assert_eq!(lines[0], "Repository         : extra");
    assert_eq!(lines[1], "Name               : bash");
    assert_eq!(lines[2], "Version            : 9.9-1");
    assert_eq!(lines[3], "Description        : None");
    assert_eq!(lines[4], "Architecture       : x86_64");
    assert_eq!(lines[5], "URL                : None");
    assert_eq!(lines[6], "Licenses           : GPL");
    assert_eq!(lines[7], "Groups             : None");
    assert_eq!(lines[9], "Depends On         : glibc  readline>=8");
    assert_eq!(lines[13], "Download Size      : 1.00 KiB");
    assert_eq!(lines[14], "Installed Size     : 1.50 KiB");
    assert_eq!(lines[16], "Build Date         : 1970-01-01 00:00:00 UTC");
    assert_eq!(lines[17], "Validated By       : Signature");
    assert_eq!(lines[18], "");
    assert_eq!(lines.len(), 19);
    assert_eq!(diags, s(&["package 'nothere' was not found"]));
    assert_eq!(err, Some("extra/bash, nothere".to_string()));
    // without a repository the first database that has it wins
    a.targets = s(&["bash"]);
    let (lines, diags, _) = listing(sync_info(&a, &dbs()));
    assert_eq!(lines[0], "Repository         : core");
    assert_eq!(lines[2], "Version            : 5.2-1");
    assert!(diags.is_empty());
}

#[test]
fn info_with_backup_level_two() {
    let mut d = dbs();
    d[0].pkgs[0].backup = vec![("etc/bash.bashrc".to_string(), "abc".to_string())];
    d[0].pkgs[0].optdepends = s(&["bash-completion: completions", "x: y"]);
    let mut a = params();
    a.info = 2;
    a.targets = s(&["core/bash", "core/zsh"]);
    let (lines, _, _) = listing(sync_info(&a, &d));
    assert_eq!(
        lines[10],
        "Optional Deps      : bash-completion: completions\n                     x: y"
    );
    assert_eq!(lines[18], "Backup Files       :");
    assert_eq!(lines[19], "etc/bash.bashrc\tabc");
    assert_eq!(lines[20], "");
    assert_eq!(lines[39], "Backup Files       : None");
    assert_eq!(lines[40], "");
    assert_eq!(lines.len(), 41);
}

#[test]
fn info_without_targets_covers_every_package() {
    let mut a = params();
    a.info = 1;
    let (lines, diags, err) = listing(sync_info(&a, &dbs()));
    assert_eq!(lines.len(), 4 * 19);
    assert!(diags.is_empty());
    assert_eq!(err, None);
}

#[test]
fn sync_action_order() {
    let mut a = params();
    assert!(matches!(sync_action(&a), SyncAction::NotImplemented));
    a.refresh = 1;
    assert!(matches!(sync_action(&a), SyncAction::Done));
    a.downloadonly = true;
    assert!(matches!(sync_action(&a), SyncAction::NotImplemented));
    a.print = true;
    assert!(matches!(sync_action(&a), SyncAction::Done));
    a.sysupgrade = 1;
    assert!(matches!(sync_action(&a), SyncAction::Install));
    a.info = 1;
    assert!(matches!(sync_action(&a), SyncAction::Info));
    a.groups = true;
    assert!(matches!(sync_action(&a), SyncAction::Groups));
    a.list = true;
    assert!(matches!(sync_action(&a), SyncAction::List));
    a.search = Some("x".to_string());
    match sync_action(&a) {
        SyncAction::Search(p) => assert_eq!(p, "x"),
        _ => panic!("expected a search"),
    }
}
