use miz::error::MizError;
use miz::images::relay::{
    archetype_subvols, assert_root_under_run, choose_uki, cmdline_pins_subvol, is_under_run,
    parse_findmnt_source, parse_subvol_list, parse_usrhash_from_cmdline, partition_by_label,
    relay_after_upgrade, render_plan, snapshots_to_prune, subvol_for_version, uki_matches_version,
    usrhash_from_uki, PlannedCommand, RelayPlan, RelayStart, Teardown,
};

#[test]
fn parse_usrhash_from_cmdline_extracts_token() {
    assert_eq!(
        parse_usrhash_from_cmdline("root=x usrhash=abc123 splash quiet").as_deref(),
        Some("abc123")
    );
    assert_eq!(
        parse_usrhash_from_cmdline("  usrhash=deadbeef  ").as_deref(),
        Some("deadbeef")
    );
    assert_eq!(parse_usrhash_from_cmdline("root=x splash quiet"), None);
    assert_eq!(parse_usrhash_from_cmdline("usrhash="), None);
}

#[test]
fn cmdline_pins_subvol_matches_exact_version() {
    let cl = "root=x usrhash=abc rootflags=subvol=@archetype_2026.07.01-7 quiet";
    assert!(cmdline_pins_subvol(cl, "2026.07.01-7"));
    assert!(!cmdline_pins_subvol(cl, "2026.07.01-1"));
    assert!(cmdline_pins_subvol(
        "rootflags=compress=zstd,subvol=/@archetype_2026.07.01-7",
        "2026.07.01-7"
    ));
    assert!(!cmdline_pins_subvol(
        "root=x usrhash=abc quiet",
        "2026.07.01-7"
    ));
}

#[test]
fn uki_matches_version_is_exact_with_tries_suffix() {
    assert!(uki_matches_version(
        "archetype_2026.07.01-1.efi",
        "2026.07.01-1"
    ));
    assert!(uki_matches_version(
        "archetype_2026.07.01-1+3.efi",
        "2026.07.01-1"
    ));
    assert!(uki_matches_version(
        "archetype_2026.07.01-1+2-1.efi",
        "2026.07.01-1"
    ));
    assert!(!uki_matches_version(
        "archetype_2026.07.01-10.efi",
        "2026.07.01-1"
    ));
    assert!(!uki_matches_version(
        "archetype_2026.07.01-1.efi",
        "2026.07.01-10"
    ));
    assert!(!uki_matches_version("systemd-bootx64.efi", "2026.07.01-1"));
}

#[test]
fn parse_findmnt_source_strips_btrfs_subvol_bracket() {
    assert_eq!(
        parse_findmnt_source("btrfs /dev/mapper/archetype-root[/@archetype_2026.06.01-1]\n")
            .unwrap(),
        "/dev/mapper/archetype-root"
    );
}

#[test]
fn snapshots_to_prune_ignores_nested_subvol_paths() {
    let existing = vec![
        "@archetype_2026.06.01-1".to_string(),
        "@archetype_2026.07.01-7".to_string(),
        "@archetype_2026.07.01-7/var/lib/machines/vm".to_string(),
    ];
    let pruned = snapshots_to_prune(&existing, &["2026.07.01-7", "2026.06.15-2"]);
    assert_eq!(pruned, vec!["@archetype_2026.06.01-1"]);
}

#[test]
fn subvol_name_matches_cross_repo_contract() {
    assert_eq!(
        subvol_for_version("2026.07.01-7"),
        "@archetype_2026.07.01-7"
    );
}

#[test]
fn snapshots_to_prune_keeps_only_the_two_usr_versions() {
    let existing = vec![
        "@archetype_2026.06.01-1".to_string(),
        "@archetype_2026.06.15-2".to_string(),
        "@archetype_2026.07.01-7".to_string(),
        "@snapshots".to_string(),
        "@home".to_string(),
    ];
    let keep = ["2026.07.01-7", "2026.06.15-2"];
    let mut pruned = snapshots_to_prune(&existing, &keep);
    pruned.sort();
    assert_eq!(pruned, vec!["@archetype_2026.06.01-1"]);
}

#[test]
fn snapshots_to_prune_never_touches_non_archetype_subvols() {
    let existing = vec!["@home".to_string(), "@var".to_string(), "root".to_string()];
    assert!(snapshots_to_prune(&existing, &["2026.07.01-7"]).is_empty());
}

#[test]
fn parse_subvol_list_extracts_paths() {
    let text = "ID 256 gen 9 top level 5 path @archetype_2026.07.01-7\n\
                ID 257 gen 9 top level 5 path @home\n";
    assert_eq!(
        parse_subvol_list(text),
        vec!["@archetype_2026.07.01-7", "@home"]
    );
}

#[test]
fn archetype_subvols_keeps_only_archetype_paths() {
    let text = "ID 256 gen 9 top level 5 path @archetype_2026.07.01-7\n\
                ID 257 gen 9 top level 5 path @home\n\
                ID 258 gen 9 top level 5 path @archetype_2026.06.01-1\n";
    assert_eq!(
        archetype_subvols(text),
        vec!["@archetype_2026.07.01-7", "@archetype_2026.06.01-1"]
    );
}

#[test]
fn is_under_run_accepts_run_paths() {
    assert!(is_under_run("/run/miz/next"));
    assert!(is_under_run("/run"));
}

#[test]
fn is_under_run_rejects_live_paths() {
    assert!(!is_under_run("/"));
    assert!(!is_under_run("/usr"));
    assert!(!is_under_run("/var/lib/miz"));
    assert!(!is_under_run("/runtime/x"));
}

#[test]
fn assert_root_rejects_existing_path_outside_run() {
    let err = assert_root_under_run("/tmp", Ok("/tmp".to_string())).unwrap_err();
    assert!(
        err.to_string().contains("does not resolve under /run/"),
        "unexpected error: {:?}",
        err
    );
}

#[test]
fn assert_root_rejects_nonexistent_path() {
    let err = assert_root_under_run(
        "/run/miz/definitely-not-mounted-xyz",
        Err("No such file or directory (os error 2)".to_string()),
    )
    .unwrap_err();
    assert!(
        err.to_string().contains("cannot be canonicalized"),
        "unexpected error: {:?}",
        err
    );
}

#[test]
fn assert_root_accepts_canonical_run_path() {
    assert_eq!(
        assert_root_under_run("/run/miz/next", Ok("/run/miz/next".to_string())).unwrap(),
        "/run/miz/next"
    );
}

#[test]
fn parse_findmnt_source_accepts_btrfs() {
    assert_eq!(
        parse_findmnt_source("btrfs /dev/mapper/archetype-root\n").unwrap(),
        "/dev/mapper/archetype-root"
    );
}

#[test]
fn parse_findmnt_source_rejects_non_btrfs() {
    let err = parse_findmnt_source("ext4 /dev/sda2\n").unwrap_err();
    assert!(err.to_string().contains("not btrfs"), "unexpected: {:?}", err);
    assert!(err.to_string().contains("\"ext4\""), "unexpected: {:?}", err);
}

#[test]
fn parse_findmnt_source_rejects_missing_device() {
    let err = parse_findmnt_source("btrfs\n").unwrap_err();
    assert!(
        err.to_string().contains("did not report a source device"),
        "unexpected: {:?}",
        err
    );
}

#[test]
fn parse_findmnt_source_rejects_empty_output() {
    let err = parse_findmnt_source("\n  \n").unwrap_err();
    assert!(err.to_string().contains("produced no output"), "unexpected: {:?}", err);
}

#[test]
fn render_plan_lists_named_subvol_sequence() {
    let plan = RelayPlan::new(Some("2026.06.15-2"), Some("2026.07.01-7"));
    let out = render_plan(&plan);
    assert!(out.contains("DRY RUN"));
    assert!(out.contains("@archetype_2026.06.15-2"));
    assert!(out.contains("@archetype_2026.07.01-7"));
    assert!(out.contains("subvolume snapshot"));
    assert!(out.contains("-Syu"));
    assert!(out.contains("NO btrfs set-default"));
    assert!(!out.contains("set-default /"));
}

#[test]
fn render_plan_uses_placeholders_when_versions_unknown() {
    let out = render_plan(&RelayPlan::new(None, None));
    assert!(out.contains("@archetype_<running-version>"));
    assert!(out.contains("@archetype_<new-version>"));
}

#[test]
fn usrhash_from_uki_requires_pinned_subvol() {
    let pinned = "root=x usrhash=cafe rootflags=subvol=@archetype_2.0-1".to_string();
    assert_eq!(
        usrhash_from_uki("/efi/a.efi", "2.0-1", Ok(pinned.clone())).unwrap(),
        "cafe"
    );
    let err = usrhash_from_uki("/efi/a.efi", "1.0-1", Ok(pinned)).unwrap_err();
    assert!(err.to_string().contains("does not pin rootflags=subvol=@archetype_1.0-1"));
    let nohash = "rootflags=subvol=@archetype_2.0-1".to_string();
    let err = usrhash_from_uki("/efi/a.efi", "2.0-1", Ok(nohash)).unwrap_err();
    assert!(err.to_string().contains("has no usrhash="));
    let err = usrhash_from_uki("/efi/a.efi", "2.0-1", Err(MizError::Other("io".to_string())))
        .unwrap_err();
    assert_eq!(err, MizError::Other("io".to_string()));
}

#[test]
fn choose_uki_needs_exactly_one() {
    assert_eq!(
        choose_uki("2.0-1", &vec!["/efi/EFI/Linux/archetype_2.0-1.efi".to_string()]).unwrap(),
        "/efi/EFI/Linux/archetype_2.0-1.efi"
    );
    assert!(choose_uki("2.0-1", &vec![])
        .unwrap_err()
        .to_string()
        .contains("no UKI for version 2.0-1"));
    let two = vec!["/efi/a.efi".to_string(), "/boot/a.efi".to_string()];
    assert!(choose_uki("2.0-1", &two)
        .unwrap_err()
        .to_string()
        .contains("multiple UKIs for version 2.0-1"));
}

#[test]
fn partition_by_label_finds_the_one_match() {
    let lsblk = "/dev/sda1 esp\n/dev/sda2 archetype_2.0-1\n/dev/sda3 archetype_1.0-1\n";
    assert_eq!(
        partition_by_label(lsblk, "archetype_2.0-1").unwrap(),
        "/dev/sda2"
    );
    assert!(partition_by_label(lsblk, "archetype_3.0-1").is_err());
    let dup = "/dev/sda2 x\n/dev/sdb2 x\n";
    assert!(partition_by_label(dup, "x").is_err());
}

#[test]
fn teardown_runs_in_reverse_and_skips_failure_steps_once_committed() {
    let mut t = Teardown::new();
    t.always(PlannedCommand::new("unmount top", &["umount", "/run/miz/top"]));
    t.on_failure(PlannedCommand::new("delete snapshot", &["btrfs", "subvolume", "delete", "x"]));
    t.always(PlannedCommand::new("unmount next", &["umount", "/run/miz/next"]));
    let labels: Vec<String> = t.into_pending().into_iter().map(|c| c.label).collect();
    assert_eq!(labels, vec!["unmount next", "delete snapshot", "unmount top"]);

    let mut t = Teardown::new();
    t.always(PlannedCommand::new("unmount top", &["umount", "/run/miz/top"]));
    t.on_failure(PlannedCommand::new("delete snapshot", &["btrfs", "subvolume", "delete", "x"]));
    t.commit();
    let pending = t.into_pending();
    assert_eq!(pending.len(), 1);
    assert_eq!(pending[0].rendered(), "umount /run/miz/top");
}

#[test]
fn relay_after_upgrade_previews_or_runs() {
    match relay_after_upgrade("2.0-1", true, Some("1.0-1")) {
        RelayStart::DryRun(t) => {
            assert!(t.contains("@archetype_1.0-1"));
            assert!(t.contains("@archetype_2.0-1"));
        },
        RelayStart::Live(_) => panic!("expected a preview"),
    }
    match relay_after_upgrade("2.0-1", false, None) {
        RelayStart::Live(v) => assert_eq!(v, "2.0-1"),
        RelayStart::DryRun(_) => panic!("expected the live relay"),
    }
}
