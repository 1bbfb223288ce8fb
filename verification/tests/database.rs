use miz::error::MizError;
use miz::operations::database::{check_report, db_action, reason_report, DbAction, ReasonOutcome};
use miz::params::database::Params;
use miz::report::DbReport;

fn params() -> Params {
    Params { asdeps: false, asexplicit: false, check: 0, quiet: false, packages: Vec::new() }
}

fn pair(a: &str, b: &str) -> (String, String) {
    (a.to_string(), b.to_string())
}

#[test]
fn db_action_prefers_check_then_reason() {
    let mut p = params();
    match db_action(&p) {
        Err(MizError::BadArgs(m)) => assert_eq!(m, "no operation specified (use -h for help)"),
        _ => panic!("expected a usage error"),
    }
    p.asdeps = true;
    match db_action(&p) {
        Err(MizError::BadArgs(m)) => assert_eq!(m, "no targets specified (use -h for help)"),
        _ => panic!("expected a usage error"),
    }
    p.packages = vec!["bash".to_string()];
    assert!(matches!(db_action(&p), Ok(DbAction::SetReason { asdeps: true })));
    p.asdeps = false;
    p.asexplicit = true;
    assert!(matches!(db_action(&p), Ok(DbAction::SetReason { asdeps: false })));
    p.check = 1;
    assert!(matches!(db_action(&p), Ok(DbAction::Check { sync: false })));
    p.check = 2;
    assert!(matches!(db_action(&p), Ok(DbAction::Check { sync: true })));
}

#[test]
fn reason_report_confirms_until_first_failure() {
    let answers = vec![
        ("bash".to_string(), ReasonOutcome::Changed),
        ("zsh".to_string(), ReasonOutcome::Changed),
        ("nope".to_string(), ReasonOutcome::NotFound),
        ("fish".to_string(), ReasonOutcome::Changed),
    ];
    match reason_report(&answers, true, false) {
        DbReport::SetReason { confirmations, not_found, set_reason_error } => {
            assert_eq!(
                confirmations,
                vec![
                    "bash: install reason has been set to 'dependency'".to_string(),
                    "zsh: install reason has been set to 'dependency'".to_string(),
                ]
            );
            assert_eq!(not_found, Some("nope".to_string()));
            assert_eq!(set_reason_error, None);
        }
        _ => panic!("not a reason report"),
    }
    let answers = vec![
        ("bash".to_string(), ReasonOutcome::Changed),
        ("zsh".to_string(), ReasonOutcome::Failed("could not update database".to_string())),
    ];
    match reason_report(&answers, false, false) {
        DbReport::SetReason { confirmations, not_found, set_reason_error } => {
            assert_eq!(confirmations, vec!["bash: install reason has been set to 'explicitly installed'".to_string()]);
            assert_eq!(not_found, None);
            assert_eq!(set_reason_error, Some("could not update database".to_string()));
        }
        _ => panic!("not a reason report"),
    }
    let quiet = reason_report(&vec![("bash".to_string(), ReasonOutcome::Changed)], true, true);
    match quiet {
        DbReport::SetReason { confirmations, not_found, set_reason_error } => {
            assert!(confirmations.is_empty());
            assert_eq!(not_found, None);
            assert_eq!(set_reason_error, None);
        }
        _ => panic!("not a reason report"),
    }
}

#[test]
fn check_report_lists_missing_then_conflicts() {
    let r = check_report(&vec![pair("glibc>=2.40", "bash")], &vec![pair("a", "b")], true);
    match r {
        DbReport::Check { problems, count, quiet } => {
            assert_eq!(
                problems,
                vec![
                    "error: missing 'glibc>=2.40' dependency for 'bash'".to_string(),
                    "error: 'a' conflicts with 'b'".to_string(),
                ]
            );
            assert_eq!(count, 2);
            assert!(quiet);
        }
        _ => panic!("not a check report"),
    }
    match check_report(&Vec::new(), &Vec::new(), false) {
        DbReport::Check { problems, count, .. } => {
            assert!(problems.is_empty());
            assert_eq!(count, 0);
        }
        _ => panic!("not a check report"),
    }
}
