use miz::common::transaction::{
    commit_error_lines, format_print_line, is_yes, prepare_error_lines, render_format,
    should_prompt, CommitData, PrepareData,
};

#[test]
fn render_format_substitutes_name_and_version() {
    assert_eq!(render_format("%n-%v", "bash", "5.2-1"), "bash-5.2-1");
    assert_eq!(render_format("100%% %n", "bash", "5.2-1"), "100% bash");
    assert_eq!(render_format("%x %", "bash", "5.2-1"), "%x %");
}

#[test]
fn format_print_line_defaults_to_name_space_version() {
    assert_eq!(format_print_line("bash", "5.2-1", None), "bash 5.2-1");
    assert_eq!(format_print_line("bash", "5.2-1", Some("%n")), "bash");
}

#[test]
fn is_yes_accepts_empty_y_and_yes() {
    assert!(is_yes(""));
    assert!(is_yes("  \n"));
    assert!(is_yes("y"));
    assert!(is_yes("Y\n"));
    assert!(is_yes(" YeS "));
    assert!(!is_yes("n"));
    assert!(!is_yes("yess"));
}

#[test]
fn should_prompt_needs_terminal_and_no_noconfirm() {
    assert!(should_prompt(false, true));
    assert!(!should_prompt(true, true));
    assert!(!should_prompt(false, false));
}

#[test]
fn prepare_error_lines_per_detail() {
    assert_eq!(
        prepare_error_lines(&None, "boom"),
        vec!["error: failed to prepare transaction: boom"]
    );
    let deps = PrepareData::UnsatisfiedDeps(vec![
        (Some("glibc".to_string()), "glibc".to_string(), "bash".to_string()),
        (None, "libx".to_string(), "foo".to_string()),
    ]);
    assert_eq!(
        prepare_error_lines(&Some(deps), "x"),
        vec![
            "error: removing 'glibc' breaks dependency 'glibc' required by 'bash'",
            "error: unsatisfied dependency 'libx' required by 'foo'"
        ]
    );
    let arch = PrepareData::PkgInvalidArch(vec![("foo".to_string(), None)]);
    assert_eq!(
        prepare_error_lines(&Some(arch), "x"),
        vec!["error: package 'foo' has an invalid architecture: ?"]
    );
    let conf = PrepareData::ConflictingDeps(vec![("a".to_string(), "b".to_string())]);
    assert_eq!(
        prepare_error_lines(&Some(conf), "x"),
        vec!["error: conflict between 'a' and 'b'"]
    );
}

#[test]
fn commit_error_lines_per_detail() {
    assert_eq!(
        commit_error_lines(&None, "boom"),
        vec!["error: failed to commit transaction: boom"]
    );
    assert_eq!(
        commit_error_lines(&Some(CommitData::FileConflict), "x"),
        vec!["error: file conflicts detected; aborting"]
    );
    assert_eq!(
        commit_error_lines(&Some(CommitData::PkgInvalid(vec!["p".to_string()])), "x"),
        vec!["error: invalid package: p"]
    );
}
