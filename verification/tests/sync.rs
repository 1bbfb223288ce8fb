use miz::params::sync::Params as Args;
use miz::operations::sync::{
    build_flags, clean_prompt, ignore_names, is_cache_artifact, parse_pkg_filename,
    should_remove, split_repo_target, TRANS_ALLDEPS, TRANS_DOWNLOADONLY, TRANS_NEEDED,
};

fn args() -> Args {
    Args {
        clean: 0,
        groups: false,
        info: 0,
        list: false,
        print: false,
        print_format: None,
        quiet: false,
        search: None,
        sysupgrade: 0,
        downloadonly: false,
        refresh: 0,
        needed: false,
        asdeps: false,
        asexplicit: false,
        ignore: Vec::new(),
        ignoregroup: Vec::new(),
        overwrite: Vec::new(),
        noconfirm: false,
        noprogressbar: false,
        noscriptlet: false,
        targets: Vec::new(),
    }
}

#[test]
fn build_flags_combines_selected_bits() {
    let mut a = args();
    assert_eq!(build_flags(&a), 0);
    a.downloadonly = true;
    a.needed = true;
    a.asdeps = true;
    assert_eq!(build_flags(&a), TRANS_DOWNLOADONLY | TRANS_NEEDED | TRANS_ALLDEPS);
    assert_eq!(build_flags(&a), 512 | 8192 | 256);
}

#[test]
fn split_repo_target_at_first_slash() {
    assert_eq!(split_repo_target("core/bash"), (Some("core"), "bash"));
    assert_eq!(split_repo_target("bash"), (None, "bash"));
    assert_eq!(split_repo_target("a/b/c"), (Some("a"), "b/c"));
}

#[test]
fn ignore_names_splits_commas_and_drops_blanks() {
    let entries = vec!["a, b".to_string(), ",c,,".to_string(), " ".to_string()];
    assert_eq!(ignore_names(&entries), vec!["a", "b", "c"]);
}

#[test]
fn cache_artifacts_are_package_archives_only() {
    assert!(is_cache_artifact("bash-5.2-1-x86_64.pkg.tar.zst"));
    assert!(is_cache_artifact("bash-5.2-1-x86_64.pkg.tar"));
    assert!(!is_cache_artifact("bash-5.2-1-x86_64.pkg.tar.zst.sig"));
    assert!(!is_cache_artifact("bash-5.2-1-x86_64.pkg.tar.zst.part"));
    assert!(!is_cache_artifact("notes.txt"));
}

#[test]
fn parse_pkg_filename_splits_name_and_version() {
    assert_eq!(
        parse_pkg_filename("lib32-glibc-2.39-1-x86_64.pkg.tar.zst"),
        Some(("lib32-glibc".to_string(), "2.39-1".to_string()))
    );
    assert_eq!(
        parse_pkg_filename("bash-5.2.026-2-x86_64.pkg.tar.xz"),
        Some(("bash".to_string(), "5.2.026-2".to_string()))
    );
    assert_eq!(parse_pkg_filename("bash-x86_64.pkg.tar.zst"), None);
    assert_eq!(parse_pkg_filename("bash-5.2-1-x86_64.tar.zst"), None);
}

#[test]
fn should_remove_keeps_installed_versions_unless_all() {
    let installed = vec![("bash".to_string(), "5.2-1".to_string())];
    assert!(!should_remove("bash-5.2-1-x86_64.pkg.tar.zst", false, &installed));
    assert!(should_remove("bash-5.1-1-x86_64.pkg.tar.zst", false, &installed));
    assert!(should_remove("bash-5.2-1-x86_64.pkg.tar.zst", true, &installed));
    assert!(!should_remove("bash-5.2-1-x86_64.pkg.tar.zst.sig", true, &installed));
}

#[test]
fn clean_prompt_wording() {
    assert_eq!(
        clean_prompt(true),
        "Do you want to remove ALL files from cache? [Y/n] "
    );
    assert_eq!(
        clean_prompt(false),
        "Do you want to remove all other packages from cache? [Y/n] "
    );
}
