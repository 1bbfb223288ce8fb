use miz::error::MizError;
use miz::images::live::{live_execute, RelayAction, RelayEvent, RelayPhase};

fn run_cmd(a: &RelayAction) -> (String, Vec<String>) {
    match a {
        RelayAction::Run(c) => (c.label.clone(), c.argv.clone()),
        _ => panic!("expected a command"),
    }
}

fn v(xs: &[&str]) -> Vec<String> {
    xs.iter().map(|x| x.to_string()).collect()
}

#[test]
fn relay_refuses_the_running_version() {
    let mut r = live_execute("20260701", false);
    assert!(matches!(r.step(RelayEvent::Begin), RelayAction::ReadRunningVersion));
    match r.step(RelayEvent::Version(Some("20260701".to_string()))) {
        RelayAction::Finish(Err(MizError::Other(m))) => {
            assert_eq!(m, "new version 20260701 equals the running version; nothing to relay")
        }
        _ => panic!("expected the relay to finish with an error"),
    }
    assert!(matches!(r.phase, RelayPhase::Finished));
}

#[test]
fn relay_without_old_snapshot_unmounts_and_fails() {
    let mut r = live_execute("20260701", true);
    assert!(matches!(r.step(RelayEvent::Begin), RelayAction::ReadRunningVersion));
    assert!(matches!(r.step(RelayEvent::Version(Some("20260601".to_string()))), RelayAction::Findmnt));
    match r.step(RelayEvent::Output(Ok("btrfs /dev/nvme0n1p3[/@archetype_20260601]\n".to_string()))) {
        RelayAction::CreateDir(d) => assert_eq!(d, "/run/miz/toplevel"),
        _ => panic!("expected the top-level mount point to be created"),
    }
    assert_eq!(r.device, "/dev/nvme0n1p3");
    let (label, argv) = run_cmd(&r.step(RelayEvent::Done(Ok(()))));
    assert_eq!(label, "mount btrfs top-level");
    assert_eq!(argv, v(&["mount", "-o", "subvolid=5", "/dev/nvme0n1p3", "/run/miz/toplevel"]));
    match r.step(RelayEvent::Done(Ok(()))) {
        RelayAction::Exists(p) => assert_eq!(p, "/run/miz/toplevel/@archetype_20260601"),
        _ => panic!("expected the old snapshot to be probed"),
    }
    // The old snapshot is missing: the top-level mount is undone, then the
    // relay fails.
    let (label, argv) = run_cmd(&r.step(RelayEvent::Exists(false)));
    assert_eq!(label, "unmount btrfs top-level");
    assert_eq!(argv, v(&["umount", "/run/miz/toplevel"]));
    assert!(matches!(r.phase, RelayPhase::Tearing));
    match r.step(RelayEvent::Done(Ok(()))) {
        RelayAction::Finish(Err(MizError::Other(m))) => assert!(m.starts_with(
            "running root has no @archetype_20260601 subvolume at the btrfs top-level"
        )),
        _ => panic!("expected the relay to finish with an error"),
    }
}

#[test]
fn relay_refuses_a_non_btrfs_root() {
    let mut r = live_execute("2", false);
    r.step(RelayEvent::Begin);
    r.step(RelayEvent::Version(Some("1".to_string())));
    match r.step(RelayEvent::Output(Ok("ext4 /dev/sda2\n".to_string()))) {
        RelayAction::Finish(Err(MizError::Other(m))) => assert_eq!(
            m,
            "refusing to relay: root filesystem is \"ext4\", not btrfs; the versioned-root layered update requires a btrfs root"
        ),
        _ => panic!("expected a refusal"),
    }
}

#[test]
fn relay_snapshot_failure_deletes_nothing_it_did_not_build() {
    let mut r = live_execute("2", true);
    r.step(RelayEvent::Begin);
    r.step(RelayEvent::Version(Some("1".to_string())));
    r.step(RelayEvent::Output(Ok("btrfs /dev/sda2\n".to_string())));
    r.step(RelayEvent::Done(Ok(())));
    r.step(RelayEvent::Done(Ok(())));
    r.step(RelayEvent::Exists(true));
    let (label, argv) = run_cmd(&r.step(RelayEvent::Exists(false)));
    assert_eq!(label, "snapshot root subvolume for the new version");
    assert_eq!(
        argv,
        v(&["btrfs", "subvolume", "snapshot", "/run/miz/toplevel/@archetype_1", "/run/miz/toplevel/@archetype_2"])
    );
    // the snapshot command fails: only the top-level unmount runs
    let (label, _) = run_cmd(&r.step(RelayEvent::Done(Err("boom".to_string()))));
    assert_eq!(label, "unmount btrfs top-level");
    match r.step(RelayEvent::Done(Ok(()))) {
        RelayAction::Finish(Err(MizError::Other(m))) => assert_eq!(m, "boom"),
        _ => panic!("expected the relay to finish with the failure"),
    }
}
