use miz::common::imagedb::{all_packages, parse_desc, parse_files, provisions, read_package};
use miz::operations::imagedb::{installed_packages, package_info};

fn strings(v: &[&str]) -> Vec<String> {
    v.iter().map(|s| s.to_string()).collect()
}

#[test]
fn parse_files_splits_sections() {
    let (files, backup) =
        parse_files("%FILES%\nusr/bin/x\nusr/lib/\n\n%BACKUP%\netc/x.conf\tabc123\n");
    assert_eq!(files, vec!["usr/bin/x".to_string(), "usr/lib/".to_string()]);
    assert_eq!(
        backup,
        vec![("etc/x.conf".to_string(), "abc123".to_string())]
    );
}

#[test]
fn parse_desc_requires_name_and_version() {
    assert!(parse_desc("%VERSION%\n1-1\n\n").is_none());
    assert!(parse_desc("%NAME%\nfoo\n\n").is_none());
    let (n, v, p) = parse_desc("%NAME%\nfoo\n\n%VERSION%\n1-1\n\n").unwrap();
    assert_eq!((n.as_str(), v.as_str()), ("foo", "1-1"));
    assert!(p.is_empty());
}

#[test]
fn imagedb_parse_desc_requires_name_and_version() {
    assert!(parse_desc("%VERSION%\n1-1\n\n").is_none());
    assert!(parse_desc("%NAME%\nfoo\n\n").is_none());
    let (n, v, p) = parse_desc("%NAME%\nfoo\n\n%VERSION%\n1-1\n\n").unwrap();
    assert_eq!((n.as_str(), v.as_str()), ("foo", "1-1"));
    assert!(p.is_empty());
}

#[test]
fn parse_desc_reads_provides_block() {
    let (n, v, p) =
        parse_desc("%NAME%\nfoo\n\n%VERSION%\n2-1\n\n%PROVIDES%\nlibfoo.so=1-64\nfoo-bin\n\n")
            .unwrap();
    assert_eq!(n, "foo");
    assert_eq!(v, "2-1");
    assert_eq!(p, strings(&["libfoo.so=1-64", "foo-bin"]));
}

#[test]
fn parse_files_ignores_backup_lines_without_tab() {
    let (files, backup) = parse_files("%BACKUP%\netc/nohash\netc/a\tff\n%FILES%\nusr/\n");
    assert_eq!(files, strings(&["usr/"]));
    assert_eq!(backup, vec![("etc/a".to_string(), "ff".to_string())]);
}

#[test]
fn provisions_collects_names_and_provides_once() {
    let descs = strings(&[
        "%NAME%\nfoo\n\n%VERSION%\n1-1\n\n%PROVIDES%\nlibfoo.so=1-64\n\n",
        "%NAME%\nbar\n\n%VERSION%\n2-1\n\n%PROVIDES%\nfoo\nsh\nlibfoo.so=1-64\n\n",
        "%NAME%\nbroken\n\n",
    ]);
    let scan = provisions(&descs);
    assert_eq!(
        scan.tokens,
        strings(&["foo=1-1", "libfoo.so=1-64", "bar=2-1", "foo", "sh"])
    );
    assert_eq!(scan.malformed, vec![2]);
}

#[test]
fn installed_packages_keeps_first_of_each_name() {
    let descs = strings(&[
        "%NAME%\nfoo\n\n%VERSION%\n1-1\n\n",
        "%NAME%\nbar\n\n%VERSION%\n2-1\n\n",
        "%NAME%\nfoo\n\n%VERSION%\n9-9\n\n",
        "%VERSION%\n3-3\n\n",
    ]);
    assert_eq!(
        installed_packages(&descs),
        vec![
            ("foo".to_string(), "1-1".to_string()),
            ("bar".to_string(), "2-1".to_string())
        ]
    );
}

#[test]
fn package_info_reads_named_desc() {
    let descs = strings(&[
        "%NAME%\nbar\n\n%VERSION%\n2-1\n\n",
        "%NAME%\nfoo\n\n%VERSION%\n1.2-3\n\n%DESC%\nA foo\n\n%URL%\nhttps://foo\n\n%ARCH%\nx86_64\n\n%LICENSE%\nMIT\nGPL\n\n%SIZE%\n4096\n\n%DEPENDS%\nglibc\n\n",
    ]);
    let p = package_info(&descs, "foo").unwrap();
    assert_eq!(p.name, "foo");
    assert_eq!(p.version, "1.2-3");
    assert_eq!(p.desc.as_deref(), Some("A foo"));
    assert_eq!(p.url.as_deref(), Some("https://foo"));
    assert_eq!(p.arch.as_deref(), Some("x86_64"));
    assert_eq!(p.licenses, strings(&["MIT", "GPL"]));
    assert_eq!(p.depends, strings(&["glibc"]));
    assert_eq!(p.isize, Some(4096));
    assert!(package_info(&descs, "nonexistent").is_none());
}

#[test]
fn read_package_needs_name_and_version_and_reads_files() {
    assert!(read_package("%NAME%\nfoo\n\n", None).is_none());
    let p = read_package(
        "%NAME%\nfoo\n\n%VERSION%\n1-1\n\n",
        Some("%FILES%\nusr/bin/foo\n\n%BACKUP%\netc/foo.conf\tabc\n"),
    )
    .unwrap();
    assert_eq!(p.name, "foo");
    assert_eq!(p.files, strings(&["usr/bin/foo"]));
    assert_eq!(p.backup, vec![("etc/foo.conf".to_string(), "abc".to_string())]);
}

#[test]
fn all_packages_skips_malformed_entries() {
    let entries = vec![
        ("%NAME%\nfoo\n\n%VERSION%\n1-1\n\n".to_string(), None),
        ("%NAME%\nbroken\n\n".to_string(), None),
        (
            "%NAME%\nbaz\n\n%VERSION%\n3-1\n\n".to_string(),
            Some("%FILES%\nusr/share/baz\n".to_string()),
        ),
    ];
    let pkgs = all_packages(&entries);
    assert_eq!(pkgs.len(), 2);
    assert_eq!(pkgs[0].name, "foo");
    assert!(pkgs[0].files.is_empty() && pkgs[0].backup.is_empty());
    assert_eq!(pkgs[1].name, "baz");
    assert_eq!(pkgs[1].files, strings(&["usr/share/baz"]));
}

#[test]
fn all_packages_first_group_wins_for_a_name() {
    let entries = vec![
        ("%NAME%\nfoo\n\n".to_string(), None),
        ("%NAME%\nfoo\n\n%VERSION%\n1-1\n\n".to_string(), Some("%FILES%\nusr/bin/foo\n".to_string())),
        ("%NAME%\nfoo\n\n%VERSION%\n2-1\n\n".to_string(), Some("%FILES%\nusr/bin/other\n".to_string())),
    ];
    let pkgs = all_packages(&entries);
    assert_eq!(pkgs.len(), 1);
    assert_eq!(pkgs[0].version, "1-1");
    assert_eq!(pkgs[0].files, strings(&["usr/bin/foo"]));
}
