use miz::common::imagedb::ImagePackage;
use miz::operations::query::{
    build_image_check, dep_bare_name, image_info_block, name_or_provides_required,
    resolve_file_path,
};
use miz::params::query::Params;
use miz::report::InfoField;

#[test]
fn dep_bare_name_strips_version_and_description() {
    assert_eq!(dep_bare_name("foo"), "foo");
    assert_eq!(dep_bare_name("foo>=1.2"), "foo");
    assert_eq!(dep_bare_name("foo<3"), "foo");
    assert_eq!(dep_bare_name("foo=1-1"), "foo");
    assert_eq!(dep_bare_name("bar: needed for X"), "bar");
    assert_eq!(dep_bare_name("baz: optional >= 2"), "baz");
    assert_eq!(dep_bare_name("libfoo.so=1-64"), "libfoo.so");
}

#[test]
fn name_or_provides_required_matches_name_or_provision() {
    let req = vec!["wanted".to_string(), "libz.so".to_string()];
    assert!(name_or_provides_required("wanted", &vec![], &req));
    assert!(name_or_provides_required(
        "other",
        &vec!["libz.so=1-64".to_string()],
        &req
    ));
    assert!(!name_or_provides_required(
        "orphan",
        &vec!["unrelated".to_string()],
        &req
    ));
}

fn params(info: u8, check: u8, quiet: bool) -> Params {
    Params {
        changelog: false,
        deps: false,
        explicit: false,
        groups: false,
        info,
        check,
        list: false,
        foreign: false,
        native: false,
        owns: None,
        file: None,
        quiet,
        search: None,
        unrequired: false,
        upgrades: false,
        packages: vec![],
    }
}

fn pkg() -> ImagePackage {
    ImagePackage {
        name: "foo".into(),
        version: "1.2.3-1".into(),
        desc: Some("A foo package".into()),
        url: None,
        arch: Some("x86_64".into()),
        licenses: vec!["MIT".into(), "Apache".into()],
        groups: vec![],
        provides: vec!["libfoo.so=1-64".into()],
        depends: vec!["glibc".into()],
        optdepends: vec!["a: one".into(), "b: two".into()],
        conflicts: vec![],
        replaces: vec![],
        packager: None,
        build_date: Some(0),
        install_date: None,
        explicit: true,
        isize: Some(1048576),
        files: vec!["usr/bin/foo".into(), "usr/share/doc/foo/".into()],
        backup: vec![("etc/foo.conf".into(), "d41d8".into())],
    }
}

fn label(f: &InfoField) -> (String, String) {
    match f {
        InfoField::Label { key, value } => (key.clone(), value.clone()),
        InfoField::Backup(_) => ("<backup>".into(), String::new()),
    }
}

#[test]
fn image_info_block_lists_desc_fields() {
    let b = image_info_block(&params(1, 0, false), &pkg());
    let labels: Vec<(String, String)> = b.fields.iter().map(label).collect();
    assert_eq!(labels[0], ("Name".into(), "foo".into()));
    assert_eq!(labels[2], ("Description".into(), "A foo package".into()));
    assert_eq!(labels[4], ("URL".into(), "None".into()));
    assert_eq!(labels[5], ("Licenses".into(), "MIT  Apache".into()));
    assert_eq!(labels[6], ("Groups".into(), "None".into()));
    assert_eq!(
        labels[9],
        ("Optional Deps".into(), "a: one\n                     b: two".into())
    );
    assert_eq!(labels[12], ("Installed Size".into(), "1.00 MiB".into()));
    assert_eq!(labels[14], ("Build Date".into(), "1970-01-01 00:00:00 UTC".into()));
    assert_eq!(
        labels.last().unwrap(),
        &("Install Reason".to_string(), "Explicitly installed (base image /usr)".to_string())
    );
}

#[test]
fn image_info_block_backup_with_ii() {
    let b = image_info_block(&params(2, 0, false), &pkg());
    match b.fields.last().unwrap() {
        InfoField::Backup(lines) => assert_eq!(lines, &vec!["etc/foo.conf\td41d8".to_string()]),
        _ => panic!("expected a backup field"),
    }
    let mut p = pkg();
    p.backup.clear();
    let b = image_info_block(&params(2, 0, false), &p);
    assert_eq!(label(b.fields.last().unwrap()), ("Backup Files".into(), "None".into()));
}

#[test]
fn resolve_file_path_strips_slashes() {
    assert_eq!(resolve_file_path("/", "usr/bin/foo"), "/usr/bin/foo");
    assert_eq!(resolve_file_path("/root", "/usr/share/doc/"), "/root/usr/share/doc");
    assert_eq!(resolve_file_path("/root", "/"), "/root");
}

#[test]
fn build_image_check_counts_missing() {
    let (r, failed) = build_image_check(&params(0, 1, false), &pkg(), &vec![false, true]);
    assert!(failed);
    assert_eq!(r.problems, vec!["foo: /usr/share/doc/foo/ (Missing file)".to_string()]);
    assert_eq!(r.summary, "foo: 2 total files, 1 missing files");
    let (r, failed) = build_image_check(&params(0, 2, true), &pkg(), &vec![false, false]);
    assert!(!failed);
    assert!(r.problems.is_empty());
    assert_eq!(r.summary, "foo: 2 total files, 0 missing files, 0 altered files");
}
