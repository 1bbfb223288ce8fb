use miz::cli::args::images::Args;
use miz::error::MizError;
use miz::images::describe::{value_to_text, Describe, Feature, JsonValue};
use miz::images::format::{component_line, feature_block, info_block, list_line, yesno};
use miz::images::json_text;
use miz::images::{
    acquire_args, info_version, json_mode, list_flags, relay_wanted, resolve_upgrade_plan, run,
    split_component, upgrade_plan, ImagesVerb, JsonMode, UpgradePlan, FLAG_OFFLINE,
};

fn describe(version: Option<&str>) -> Describe {
    Describe {
        version: version.map(|v| v.to_string()),
        newest: None,
        available: None,
        installed: None,
        obsolete: None,
        incomplete: None,
        changelog: None,
        contents: None,
        extra: Vec::new(),
    }
}

fn feature(name: &str) -> Feature {
    Feature {
        name: Some(name.to_string()),
        enabled: None,
        description: None,
        documentation_url: None,
        appstream_url: None,
        transfers: None,
    }
}

fn jint(n: i64) -> JsonValue {
    JsonValue::Number { text: n.to_string(), integer: Some(n) }
}

#[test]
fn list_line_markers() {
    assert_eq!(
        list_line("host", "2.3", true, false, false),
        "host 2.3 [installed]"
    );
    assert_eq!(
        list_line("host", "2.4", false, true, false),
        "host 2.4 [newest]"
    );
    assert_eq!(
        list_line("host", "2.4", true, true, false),
        "host 2.4 [installed] [newest]"
    );
    assert_eq!(list_line("host", "2.4", false, false, false), "host 2.4");
}

#[test]
fn list_line_quiet_is_bare_version() {
    assert_eq!(list_line("host", "2.3", true, true, true), "2.3");
}

#[test]
fn component_line_shapes() {
    assert_eq!(component_line("url-file", "host", false), "url-file host");
    assert_eq!(component_line("url-file", "host", true), "host");
}

#[test]
fn format_info_block_golden() {
    let mut d = describe(Some("2.3"));
    d.newest = Some(true);
    d.available = Some(true);
    d.installed = Some(false);
    d.obsolete = Some(false);
    d.incomplete = Some(false);
    let got = info_block("host", &d, false);
    let expected = "\
Component          : host
Version            : 2.3
Newest             : Yes
Available          : Yes
Installed          : No
Obsolete           : No
Incomplete         : No
";
    assert_eq!(got, expected);
}

#[test]
fn format_info_block_unknown_fields_render_unknown() {
    let d = describe(Some("1.0"));
    let got = info_block("host", &d, false);
    assert!(got.contains("Newest             : Unknown"));
    assert!(got.contains("Version            : 1.0"));
}

#[test]
fn format_info_block_verbose_adds_changelog_contents() {
    let mut d = describe(Some("1.0"));
    d.changelog = Some(JsonValue::Str("fixes".to_string()));
    d.contents = Some(JsonValue::Array(vec![
        JsonValue::Str("a".to_string()),
        JsonValue::Str("b".to_string()),
    ]));
    let got = info_block("host", &d, true);
    assert!(got.contains("Changelog          : fixes"));
    assert!(got.contains("Contents           : a, b"));
}

#[test]
fn format_feature_block_golden() {
    let mut f = feature("experimental");
    f.enabled = Some(true);
    f.description = Some("edge".to_string());
    f.documentation_url = Some("https://d".to_string());
    let got = feature_block("experimental", &f);
    let expected = "\
Feature            : experimental
Name               : experimental
Enabled            : Yes
Description        : edge
Documentation      : https://d
";
    assert_eq!(got, expected);
}

#[test]
fn format_feature_block_minimal() {
    let f = feature("x");
    let got = feature_block("x", &f);
    assert!(got.contains("Enabled            : Unknown"));
    assert!(!got.contains("Description"));
}

#[test]
fn format_info_block_extra_size_uses_format_size() {
    let mut d = describe(Some("1.0"));
    d.extra.push(("size".to_string(), jint(1048576)));
    let got = info_block("host", &d, false);
    assert!(got.contains("Download Size      : 1.00 MiB"));
}

#[test]
fn info_block_without_version_says_none_and_hides_changelog_unless_verbose() {
    let mut d = describe(None);
    d.changelog = Some(JsonValue::Str("fixes".to_string()));
    d.extra.push(("type".to_string(), JsonValue::Str("url-file".to_string())));
    let got = info_block("host", &d, false);
    assert!(got.contains("Version            : None\n"));
    assert!(got.contains("Type               : url-file\n"));
    assert!(!got.contains("Changelog"));
}

#[test]
fn value_to_text_renders_each_shape() {
    assert_eq!(value_to_text(&JsonValue::Null), "None");
    assert_eq!(value_to_text(&JsonValue::Bool(true)), "true");
    assert_eq!(value_to_text(&jint(42)), "42");
    assert_eq!(
        value_to_text(&JsonValue::Array(vec![
            JsonValue::Str("x".to_string()),
            JsonValue::Null,
            jint(3)
        ])),
        "x, None, 3"
    );
    assert_eq!(value_to_text(&JsonValue::Object("{\"a\":1}".to_string())), "{\"a\":1}");
}

#[test]
fn yesno_maps_three_states() {
    assert_eq!(yesno(Some(true)), "Yes");
    assert_eq!(yesno(Some(false)), "No");
    assert_eq!(yesno(None), "Unknown");
}

#[test]
fn acquire_args_newest_uses_empty_arg_for_no_auth_update() {
    let (arg, host_changed) = acquire_args(&UpgradePlan::Newest);
    assert_eq!(arg, "");
    assert!(host_changed);
}

#[test]
fn acquire_args_complete_uses_installed_version_without_host_change() {
    let (arg, host_changed) = acquire_args(&UpgradePlan::Complete("2026.07.10-1".into()));
    assert_eq!(arg, "2026.07.10-1");
    assert!(!host_changed);
}

#[test]
fn acquire_args_to_version_passes_version_and_advances() {
    let (arg, host_changed) = acquire_args(&UpgradePlan::ToVersion("2026.07.09-1".into()));
    assert_eq!(arg, "2026.07.09-1");
    assert!(host_changed);
}

#[test]
fn list_flags_offline_sets_bit() {
    assert_eq!(list_flags(true), FLAG_OFFLINE);
    assert_eq!(list_flags(false), 0);
}

#[test]
fn split_defaults_to_host() {
    assert_eq!(split_component(None), ("host", None));
}

#[test]
fn split_bare_component() {
    assert_eq!(split_component(Some("foo")), ("foo", None));
}

#[test]
fn split_component_version() {
    assert_eq!(split_component(Some("host/2.3")), ("host", Some("2.3")));
}

#[test]
fn json_mode_parsing() {
    assert!(matches!(json_mode(None).unwrap(), JsonMode::Off));
    assert!(matches!(json_mode(Some("off")).unwrap(), JsonMode::Off));
    assert!(matches!(json_mode(Some("short")).unwrap(), JsonMode::Short));
    assert!(matches!(
        json_mode(Some("pretty")).unwrap(),
        JsonMode::Pretty
    ));
    assert!(json_mode(Some("bogus")).is_err());
}

#[test]
fn json_mode_error_names_the_mode() {
    match json_mode(Some("bogus")) {
        Err(MizError::Sysupdate(m)) => {
            assert_eq!(m, "invalid --json mode: bogus (expected short, pretty, or off)")
        },
        _ => panic!("expected a sysupdate error"),
    }
}

#[test]
fn upgrade_plan_decisions() {
    assert!(matches!(
        resolve_upgrade_plan("2.4", "2.3", Some(false)),
        UpgradePlan::Newest
    ));
    match resolve_upgrade_plan("", "2.3", Some(true)) {
        UpgradePlan::Complete(v) => assert_eq!(v, "2.3"),
        _ => panic!("expected an in-place completion"),
    }
    assert!(matches!(
        resolve_upgrade_plan("", "2.3", Some(false)),
        UpgradePlan::UpToDate
    ));
    match upgrade_plan(Some("2.5"), "2.4", "2.3", None) {
        UpgradePlan::ToVersion(v) => assert_eq!(v, "2.5"),
        _ => panic!("expected an explicit version"),
    }
}

#[test]
fn relay_only_for_advancing_host() {
    assert!(relay_wanted("host", true));
    assert!(!relay_wanted("host", false));
    assert!(!relay_wanted("foo", true));
}

#[test]
fn info_version_prefers_explicit_then_installed_then_newest() {
    assert_eq!(info_version("host", Some("1.0"), "2.0", "3.0").unwrap(), "1.0");
    assert_eq!(info_version("host", None, "2.0", "3.0").unwrap(), "2.0");
    assert_eq!(info_version("host", None, "", "3.0").unwrap(), "3.0");
    assert!(info_version("host", None, "", "").is_err());
}

#[test]
fn images_run_picks_the_verb() {
    let mut a = Args {
        list: false,
        info: 0,
        check_new: false,
        upgrade: 0,
        clean: 0,
        pending: false,
        reboot: false,
        components: false,
        features: false,
        enable: None,
        disable: None,
        appstream: false,
        offline: false,
        reinstall_layered: false,
        dry_run: false,
        quiet: false,
        noconfirm: false,
        noprogressbar: false,
        json: None,
        targets: Vec::new(),
    };
    assert!(run(&a).is_err());
    a.list = true;
    assert!(matches!(run(&a).unwrap(), ImagesVerb::List));
    a.reinstall_layered = true;
    assert!(matches!(run(&a).unwrap(), ImagesVerb::ReinstallLayered));
}

#[test]
fn pending_report_labels_and_reboot_due() {
    match miz::images::pending_report("host", false, "2", Some("1")) {
        miz::report::ImagesReport::Pending { name, quiet, installed, booted_label, installed_label, reboot_due } => {
            assert_eq!(name, "host");
            assert!(!quiet);
            assert_eq!(installed, "2");
            assert_eq!(booted_label, "1");
            assert_eq!(installed_label, "2");
            assert!(reboot_due);
        }
        _ => panic!("not a pending report"),
    }
    match miz::images::pending_report("host", true, "", None) {
        miz::report::ImagesReport::Pending { booted_label, installed_label, reboot_due, .. } => {
            assert_eq!(booted_label, "(unknown)");
            assert_eq!(installed_label, "(none)");
            assert!(!reboot_due);
        }
        _ => panic!("not a pending report"),
    }
    match miz::images::pending_report("host", false, "1", Some("1")) {
        miz::report::ImagesReport::Pending { reboot_due, .. } => assert!(!reboot_due),
        _ => panic!("not a pending report"),
    }
}

#[test]
fn dash_i_images_is_not_yet_implemented() {
    let a = Args {
        list: false,
        info: 0,
        check_new: false,
        upgrade: 0,
        clean: 0,
        pending: false,
        reboot: false,
        components: false,
        features: false,
        enable: None,
        disable: None,
        appstream: false,
        offline: false,
        reinstall_layered: false,
        dry_run: false,
        quiet: false,
        noconfirm: false,
        noprogressbar: false,
        json: None,
        targets: vec!["anything".to_string()],
    };
    match run(&a) {
        Err(e) => assert!(e.to_string().contains("not yet implemented")),
        Ok(_) => panic!("-I without a verb must fail"),
    }
}

#[test]
fn json_text_pretty_reindents_and_keeps_what_does_not_parse() {
    assert_eq!(json_text("{\"a\":1}", JsonMode::Pretty), "{\n  \"a\": 1\n}");
    assert_eq!(json_text("not json", JsonMode::Pretty), "not json");
    assert_eq!(json_text("{\"a\":1}", JsonMode::Short), "{\"a\":1}");
}
