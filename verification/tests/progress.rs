use miz::common::progress::{
    clamp_percent, label_for, nonneg, status_text, AlpmEvent, OpKind, ProgressEvent,
    ProgressSink,
};

#[derive(Default)]
struct CaptureSink {
    statuses: Vec<String>,
    ops: Vec<(OpKind, String, u64)>,
    downloads: Vec<(String, u64, u64)>,
    done: Vec<String>,
    jobs: Vec<u64>,
    job_labels: Vec<String>,
    job_ends: usize,
}

impl ProgressSink for CaptureSink {
    fn handle(&mut self, ev: ProgressEvent) {
        match ev {
            ProgressEvent::Status(s) => self.statuses.push(s),
            ProgressEvent::Op { kind, pkg, percent } => self.ops.push((kind, pkg, percent)),
            ProgressEvent::Download {
                file,
                downloaded,
                total,
            } => self.downloads.push((file, downloaded, total)),
            ProgressEvent::DownloadDone { file, .. } => self.done.push(file),
            ProgressEvent::JobBegin { label } => self.job_labels.push(label),
            ProgressEvent::Job { percent } => self.jobs.push(percent),
            ProgressEvent::JobEnd => self.job_ends += 1,
        }
    }
}

#[test]
fn capture_sink_records_events() {
    let mut sink = CaptureSink::default();
    sink.handle(ProgressEvent::Status("resolving dependencies...".into()));
    sink.handle(ProgressEvent::Op {
        kind: OpKind::Install,
        pkg: "bash".into(),
        percent: 42,
    });
    sink.handle(ProgressEvent::Download {
        file: "core.db".into(),
        downloaded: 10,
        total: 100,
    });
    sink.handle(ProgressEvent::DownloadDone {
        file: "core.db".into(),
        total: 100,
    });
    sink.handle(ProgressEvent::Job { percent: 75 });

    assert_eq!(sink.statuses, vec!["resolving dependencies...".to_string()]);
    assert_eq!(sink.ops, vec![(OpKind::Install, "bash".to_string(), 42)]);
    assert_eq!(sink.downloads, vec![("core.db".to_string(), 10, 100)]);
    assert_eq!(sink.done, vec!["core.db".to_string()]);
    assert_eq!(sink.jobs, vec![75]);
    assert!(sink.job_labels.is_empty());
    assert_eq!(sink.job_ends, 0);
}

#[test]
fn labels_and_status_lines() {
    assert_eq!(label_for(OpKind::Install), "installing");
    assert_eq!(label_for(OpKind::Keyring), "keyring");
    assert_eq!(
        status_text(&AlpmEvent::CheckDepsStart).as_deref(),
        Some("checking dependencies...")
    );
    assert_eq!(
        status_text(&AlpmEvent::HookRunStart("systemd-update".to_string())).as_deref(),
        Some("running hook systemd-update")
    );
    assert_eq!(status_text(&AlpmEvent::HookRunStart(String::new())), None);
    assert_eq!(status_text(&AlpmEvent::Other), None);
}

#[test]
fn numbers_are_clamped() {
    assert_eq!(clamp_percent(-5), 0);
    assert_eq!(clamp_percent(42), 42);
    assert_eq!(clamp_percent(250), 100);
    assert_eq!(nonneg(-1), 0);
    assert_eq!(nonneg(7), 7);
}
