use miz::render::output::{database, remove, sync, version, Emit, Tag};
use miz::report::{DbReport, RemoveReport, SyncReport, VersionReport};

fn show(es: Vec<Emit>) -> Vec<String> {
    es.into_iter()
        .map(|e| match e {
            Emit::Out(s) => format!("out:{s}"),
            Emit::Stderr(s) => format!("err:{s}"),
            Emit::Tagged(Tag::Error, s) => format!("error:{s}"),
            Emit::Tagged(Tag::Warning, s) => format!("warning:{s}"),
            Emit::RawOut(b) => format!("raw:{}", String::from_utf8_lossy(&b)),
        })
        .collect()
}

fn s(v: &[&str]) -> Vec<String> {
    v.iter().map(|x| x.to_string()).collect()
}

#[test]
fn sync_listing_prints_lines_then_tagged_diagnostics() {
    let r = SyncReport::Listing {
        lines: s(&["core bash 5.2-1"]),
        diagnostics: s(&["repository 'x' was not found"]),
        error: Some("x".to_string()),
    };
    assert_eq!(show(sync(&r)), s(&["out:core bash 5.2-1\n", "error:repository 'x' was not found"]));
}

#[test]
fn sync_clean_reports_removed_count_on_stderr() {
    assert_eq!(show(sync(&SyncReport::Clean { removed: 3 })), s(&["err:removed 3 package file(s) from cache\n"]));
    assert!(show(sync(&SyncReport::Done)).is_empty());
}

#[test]
fn remove_print_with_release_warning() {
    let r = RemoveReport::Print { lines: s(&["bash 5.2-1"]), release_warning: Some("busy".to_string()) };
    assert_eq!(show(remove(&r)), s(&["out:bash 5.2-1\n", "err:warning: busy\n"]));
}

#[test]
fn database_check_without_problems_says_so_unless_quiet() {
    let r = DbReport::Check { problems: Vec::new(), count: 0, quiet: false };
    assert_eq!(show(database(&r)), s(&["out:No database errors have been found!\n"]));
    let r = DbReport::Check { problems: Vec::new(), count: 0, quiet: true };
    assert!(show(database(&r)).is_empty());
}

#[test]
fn version_banner_names_both_versions() {
    let out = show(version(&VersionReport { miz: "0.1.0".to_string(), alpm: "15.0.0".to_string() }));
    assert_eq!(out.len(), 1);
    assert!(out[0].starts_with("out: .--.                  miz v0.1.0 - libalpm v15.0.0\n"));
}
