use miz::operations::local::{query_groups, query_local, query_owns, query_search, LocalPkg, PkgFile};
use miz::params::query::Params;
use miz::report::{QueryBody, QueryError};

fn params() -> Params {
    Params {
        changelog: false,
        deps: false,
        explicit: false,
        groups: false,
        info: 0,
        check: 0,
        list: false,
        foreign: false,
        native: false,
        owns: None,
        file: None,
        quiet: false,
        search: None,
        unrequired: false,
        upgrades: false,
        packages: Vec::new(),
    }
}

fn local(name: &str, version: &str, desc: Option<&str>, explicit: bool, files: &[&str]) -> LocalPkg {
    LocalPkg {
        name: name.to_string(),
        version: version.to_string(),
        desc: desc.map(|d| d.to_string()),
        arch: None,
        url: None,
        licenses: Vec::new(),
        groups: Vec::new(),
        provides: Vec::new(),
        depends: Vec::new(),
        optdepends: Vec::new(),
        required_by: Vec::new(),
        optional_for: Vec::new(),
        conflicts: Vec::new(),
        replaces: Vec::new(),
        isize: 0,
        packager: None,
        build_date: 0,
        install_date: None,
        explicit,
        has_scriptlet: false,
        validation: 0,
        backup: Vec::new(),
        files: files.iter().map(|f| PkgFile { name: f.to_string(), mode: 0o644, size: 0 }).collect(),
        upgradable: false,
        changelog: None,
        states: Vec::new(),
    }
}

fn locals() -> Vec<LocalPkg> {
    vec![
        local("bash", "5.2-1", Some("The GNU shell"), true, &["usr/bin/bash", "usr/share/"]),
        local("readline", "8.2-1", None, false, &["usr/lib/libreadline.so"]),
    ]
}

fn names(body: &QueryBody) -> Vec<(String, String)> {
    match body {
        QueryBody::List { pkgs, .. } => pkgs.iter().map(|p| (p.name.clone(), p.version.clone())).collect(),
        _ => panic!("not a listing"),
    }
}

#[test]
fn plain_query_lists_every_installed_package() {
    let r = query_local(&params(), &locals(), Vec::new(), &Vec::new());
    assert_eq!(
        names(&r.body),
        vec![("bash".to_string(), "5.2-1".to_string()), ("readline".to_string(), "8.2-1".to_string())]
    );
    assert!(r.diagnostics.is_empty());
    assert!(r.error.is_none());
}

#[test]
fn explicit_filter_and_missing_target() {
    let mut a = params();
    a.explicit = true;
    let r = query_local(&a, &locals(), Vec::new(), &Vec::new());
    assert_eq!(names(&r.body), vec![("bash".to_string(), "5.2-1".to_string())]);
    let mut a = params();
    a.packages = vec!["readline".to_string(), "nope".to_string()];
    let r = query_local(&a, &locals(), Vec::new(), &Vec::new());
    assert_eq!(names(&r.body), vec![("readline".to_string(), "8.2-1".to_string())]);
    assert_eq!(r.diagnostics, vec!["error: package 'nope' was not found".to_string()]);
    assert!(matches!(r.error, Some(QueryError::NotFound(_))));
}

#[test]
fn search_matches_name_or_description() {
    let r = query_search(&params(), "GNU", &locals(), Vec::new()).unwrap();
    match r.body {
        QueryBody::Search { quiet, hits } => {
            assert!(!quiet);
            assert_eq!(hits.len(), 1);
            assert_eq!(hits[0].name, "bash");
            assert_eq!(hits[0].desc, "The GNU shell");
        }
        _ => panic!("not a search"),
    }
    assert!(query_search(&params(), "[", &locals(), Vec::new()).is_err());
}

#[test]
fn owns_finds_the_owner_or_reports_none() {
    let r = query_owns("/usr/bin/bash", Ok("usr/bin/bash".to_string()), &locals(), Vec::new());
    match r.body {
        QueryBody::Owns(lines) => assert_eq!(lines, vec!["/usr/bin/bash is owned by bash 5.2-1".to_string()]),
        _ => panic!("not an ownership report"),
    }
    let r = query_owns("/nope", Ok("nope".to_string()), &locals(), Vec::new());
    assert_eq!(r.diagnostics, vec!["error: No package owns /nope".to_string()]);
    match r.error {
        Some(QueryError::Other(m)) => assert_eq!(m, "no package owns /nope"),
        _ => panic!("expected an error"),
    }
}

#[test]
fn groups_by_name() {
    let groups = vec![("base".to_string(), vec!["bash".to_string(), "readline".to_string()])];
    let mut a = params();
    a.groups = true;
    a.packages = vec!["base".to_string(), "kde".to_string()];
    let r = query_groups(&a, &groups);
    match r.body {
        QueryBody::Groups(lines) => assert_eq!(lines, vec!["base bash".to_string(), "base readline".to_string()]),
        _ => panic!("not a group listing"),
    }
    assert_eq!(r.diagnostics, vec!["error: group 'kde' was not found".to_string()]);
}
