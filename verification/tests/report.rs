use miz::error::MizError;
use miz::report::{
    Confirmer, DbReport, DeptestReport, FilesReport, ImageUpgradeOutcome, ImagesReport,
    QueryBody, QueryError, QueryReport, RemoveReport, SyncReport, TransactionKind,
    TransactionPlan, UpgradeReport,
};

struct ScriptedConfirmer {
    answers: Vec<bool>,
    seen: Vec<String>,
}

impl Confirmer for ScriptedConfirmer {
    fn confirm(&mut self, plan: &TransactionPlan) -> bool {
        self.seen.push(plan.prompt.clone());
        if self.answers.is_empty() {
            true
        } else {
            self.answers.remove(0)
        }
    }
}

#[test]
fn scripted_confirmer_returns_queued_answers_and_records_prompts() {
    let mut c = ScriptedConfirmer {
        answers: vec![true, false],
        seen: Vec::new(),
    };
    let plan = TransactionPlan::with_targets(
        vec![("bash".into(), "5.2-1".into())],
        TransactionKind::Install,
        "Proceed with installation? [Y/n] ",
    );
    assert!(c.confirm(&plan));
    assert!(!c.confirm(&TransactionPlan::prompt_only(
        TransactionKind::Remove,
        "Do you want to remove these packages? [Y/n] "
    )));
    assert_eq!(
        c.seen,
        vec![
            "Proceed with installation? [Y/n] ".to_string(),
            "Do you want to remove these packages? [Y/n] ".to_string(),
        ]
    );
}

#[test]
fn sync_report_outcome_propagates_only_listing_error() {
    assert!(SyncReport::Done.outcome().is_ok());
    assert!(SyncReport::Search { lines: vec![] }.outcome().is_ok());
    assert!(SyncReport::Clean { removed: 3 }.outcome().is_ok());
    assert!(SyncReport::Listing {
        lines: vec![],
        diagnostics: vec![],
        error: None,
    }
    .outcome()
    .is_ok());
    let err = SyncReport::Listing {
        lines: vec![],
        diagnostics: vec!["package 'x' was not found".into()],
        error: Some("x".into()),
    }
    .outcome();
    assert!(matches!(err, Err(MizError::PackageNotFound(s)) if s == "x"));
}

#[test]
fn remove_upgrade_reports_never_error() {
    assert!(RemoveReport::Done.outcome().is_ok());
    assert!(UpgradeReport::Done.outcome().is_ok());
}

#[test]
fn transaction_plan_shapes() {
    let p = TransactionPlan::with_targets(
        vec![("a".into(), "1".into())],
        TransactionKind::Install,
        "go? ",
    );
    assert_eq!(p.targets.len(), 1);
    assert_eq!(p.prompt, "go? ");
    let q = TransactionPlan::prompt_only(TransactionKind::CleanCache, "clean? ");
    assert!(q.targets.is_empty());
    assert_eq!(q.prompt, "clean? ");
}

#[test]
fn deptest_outcome_fails_with_missing_deps() {
    assert!(DeptestReport { missing: vec![] }.outcome().is_ok());
    let err = DeptestReport { missing: vec!["foo>=2".into()] }.outcome().unwrap_err();
    assert!(matches!(err, MizError::Deptest));
    assert_eq!(err.exit_code(), 127);
    assert_eq!(err.to_string(), "dependency check failed");
}

#[test]
fn db_outcome_precedence() {
    let err = DbReport::Check { problems: vec![], count: 3, quiet: false }
        .outcome()
        .unwrap_err();
    assert_eq!(err.to_string(), "3 database error(s) found");
    assert!(DbReport::Check { problems: vec![], count: 0, quiet: true }.outcome().is_ok());
    let err = DbReport::SetReason {
        confirmations: vec![],
        not_found: Some("x".into()),
        set_reason_error: Some("could not find or read package".into()),
    }
    .outcome()
    .unwrap_err();
    assert!(matches!(err, MizError::Alpm(_)));
    let err = DbReport::SetReason {
        confirmations: vec![],
        not_found: Some("x".into()),
        set_reason_error: None,
    }
    .outcome()
    .unwrap_err();
    assert_eq!(err.to_string(), "package 'x' was not found");
}

#[test]
fn files_outcome_regex_error_wins() {
    let err = FilesReport::Search {
        machine: false,
        quiet: false,
        matches: vec![],
        error: Some("a".into()),
        regex_error: Some("unclosed group".into()),
    }
    .outcome()
    .unwrap_err();
    assert_eq!(err.to_string(), "invalid search pattern: unclosed group");
    let err = FilesReport::List {
        machine: false,
        quiet: false,
        pkgs: vec![],
        diagnostics: vec![],
        error: Some("a, b".into()),
    }
    .outcome()
    .unwrap_err();
    assert_eq!(err.to_string(), "package 'a, b' was not found");
}

#[test]
fn query_outcome_maps_each_error() {
    let r = QueryReport {
        body: QueryBody::Owns(vec![]),
        diagnostics: vec![],
        error: Some(QueryError::Io("boom".into())),
    };
    assert!(matches!(r.outcome(), Err(MizError::Io(s)) if s == "boom"));
    let r = QueryReport {
        body: QueryBody::Groups(vec![]),
        diagnostics: vec![],
        error: None,
    };
    assert!(r.outcome().is_ok());
}

#[test]
fn images_outcome_and_reboot() {
    let done = ImagesReport::Upgrade(ImageUpgradeOutcome::Done {
        name: "host".into(),
        version: "2".into(),
        host_changed: true,
        quiet: false,
        relay: None,
        reboot: true,
        error: Some("relay failed".into()),
    });
    assert!(done.wants_reboot());
    assert_eq!(done.outcome().unwrap_err().to_string(), "image update failed: relay failed");
    assert!(!ImagesReport::Silent.wants_reboot());
    assert!(ImagesReport::Silent.outcome().is_ok());
}
