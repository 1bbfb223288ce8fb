use miz::error::MizError;
use miz::operations::files::{files_list, files_search, refresh_wanted, run, SyncDb, SyncPkg};
use miz::params::files::Params;
use miz::report::FilesReport;

fn params() -> Params {
    Params { refresh: 0, list: false, search: false, regex: false, quiet: false, machinereadable: false, targets: Vec::new() }
}

fn dbs() -> Vec<SyncDb> {
    vec![
        SyncDb {
            name: "core".to_string(),
            pkgs: vec![SyncPkg {
                name: "bash".to_string(),
                version: "5.2-1".to_string(),
                files: vec![b"usr/".to_vec(), b"usr/bin/".to_vec(), b"usr/bin/bash".to_vec()],
            }],
        },
        SyncDb {
            name: "extra".to_string(),
            pkgs: vec![SyncPkg {
                name: "zsh".to_string(),
                version: "5.9-1".to_string(),
                files: vec![b"usr/bin/zsh".to_vec(), b"usr/share/zsh/bash".to_vec()],
            }],
        },
    ]
}

#[test]
fn list_named_packages_and_missing_ones() {
    let mut a = params();
    a.list = true;
    a.targets = vec!["extra/zsh".to_string(), "core/zsh".to_string()];
    match files_list(&a, &dbs()) {
        FilesReport::List { pkgs, diagnostics, error, .. } => {
            assert_eq!(pkgs.len(), 1);
            assert_eq!(pkgs[0].db, "extra");
            assert_eq!(pkgs[0].files.len(), 2);
            assert_eq!(diagnostics, vec!["error: package 'core/zsh' was not found".to_string()]);
            assert_eq!(error, Some("extra/zsh, core/zsh".to_string()));
        }
        _ => panic!("not a listing"),
    }
}

#[test]
fn search_by_file_name_and_by_path() {
    let mut a = params();
    a.targets = vec!["bash".to_string()];
    match files_search(&a, &dbs()) {
        FilesReport::Search { matches, error, regex_error, .. } => {
            assert_eq!(matches.len(), 2);
            assert_eq!(matches[0].pkg, "bash");
            assert_eq!(matches[0].files, vec![b"usr/bin/bash".to_vec()]);
            assert_eq!(matches[1].pkg, "zsh");
            assert_eq!(error, None);
            assert_eq!(regex_error, None);
        }
        _ => panic!("not a search"),
    }
    a.targets = vec!["/usr/bin/zsh".to_string(), "nothing".to_string()];
    match files_search(&a, &dbs()) {
        FilesReport::Search { matches, error, .. } => {
            assert_eq!(matches.len(), 1);
            assert!(matches[0].exact_file);
            assert_eq!(error, Some("nothing".to_string()));
        }
        _ => panic!("not a search"),
    }
}

#[test]
fn regex_search_and_bad_pattern() {
    let mut a = params();
    a.regex = true;
    a.targets = vec!["^z".to_string()];
    match files_search(&a, &dbs()) {
        FilesReport::Search { matches, .. } => {
            assert_eq!(matches.len(), 1);
            assert_eq!(matches[0].files, vec![b"usr/bin/zsh".to_vec()]);
        }
        _ => panic!("not a search"),
    }
    a.targets = vec!["(".to_string()];
    match files_search(&a, &dbs()) {
        FilesReport::Search { regex_error, .. } => assert!(regex_error.is_some()),
        _ => panic!("not a search"),
    }
}

#[test]
fn run_rejects_regex_with_list_and_missing_targets() {
    let mut a = params();
    a.list = true;
    a.regex = true;
    assert!(matches!(run(&a, &dbs()), Err(MizError::BadArgs(_))));
    assert!(matches!(refresh_wanted(&a), Err(MizError::BadArgs(_))));
    let a = params();
    match run(&a, &dbs()) {
        Err(MizError::BadArgs(m)) => assert_eq!(m, "no targets specified"),
        _ => panic!("expected a usage error"),
    }
    let mut a = params();
    a.refresh = 2;
    assert_eq!(refresh_wanted(&a), Ok(Some(true)));
}
