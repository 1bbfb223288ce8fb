use miz::error::MizError;
use miz::images::job::{job_lost, job_outcome};

#[test]
fn job_outcome_by_exit_status() {
    assert_eq!(job_outcome(7, 0, "unused"), Ok(()));
    assert_eq!(
        job_outcome(7, 3, "unused"),
        Err(MizError::Sysupdate("update job 7 failed (exit status 3)".to_string()))
    );
    assert_eq!(
        job_outcome(12, -2, "No such file or directory (os error 2)"),
        Err(MizError::Sysupdate("update job 12 failed: No such file or directory (os error 2)".to_string()))
    );
}

#[test]
fn job_lost_reports_the_id() {
    assert_eq!(
        job_lost(42),
        MizError::Sysupdate("lost track of update job 42 before completion (no JobRemoved signal)".to_string())
    );
}
