use miz::error::MizError;
use miz::layering::{load_layered, merge_config_tables, merge_repos_by_name, merge_sub_table, parse_layer, Element, TopValue};

fn tbl(s: &str) -> Vec<(String, TopValue)> {
    match parse_layer(s, "test.toml") {
        Ok(t) => t,
        Err(e) => panic!("parse failed: {:?}", e),
    }
}

fn entry<'a>(t: &'a [(String, TopValue)], k: &str) -> &'a TopValue {
    &t.iter().find(|(key, _)| key == k).expect("key present").1
}

fn sub<'a>(t: &'a [(String, toml::Value)], k: &str) -> &'a toml::Value {
    &t.iter().find(|(key, _)| key == k).expect("sub-key present").1
}

fn repo_names(v: &TopValue) -> Vec<String> {
    match v {
        TopValue::Array(items) => items.iter().map(|e| e.name.clone().unwrap_or_default()).collect(),
        _ => panic!("not an array"),
    }
}

#[test]
fn merge_options_overrides_per_key_not_wholesale() {
    let vendor = tbl("[options]\nparallel_downloads = 5\ncheck_space = true\nhold_pkg = [\"pacman\"]\n");
    let user = tbl("[options]\nparallel_downloads = 10\n");
    let merged = merge_config_tables(vendor, user);
    let opts = match entry(&merged, "options") {
        TopValue::Table(t) => t,
        _ => panic!("options is not a table"),
    };
    // user key wins
    assert_eq!(sub(opts, "parallel_downloads").as_integer(), Some(10));
    // vendor-only keys survive (NOT wiped by a wholesale section replace)
    assert_eq!(sub(opts, "check_space").as_bool(), Some(true));
    assert_eq!(sub(opts, "hold_pkg").as_array().unwrap().len(), 1);
}

#[test]
fn merge_repos_by_name_replaces_and_appends_preserving_order() {
    let vendor = tbl(
        "[[repos]]\nname = \"core\"\nservers = [\"https://vendor/core\"]\n\
         [[repos]]\nname = \"archetype\"\nservers = [\"https://vendor/arch\"]\n",
    );
    let user = tbl(
        "[[repos]]\nname = \"archetype\"\nservers = [\"https://user/arch\"]\n\
         [[repos]]\nname = \"aur\"\nservers = [\"https://user/aur\"]\n",
    );
    let merged = merge_config_tables(vendor, user);
    let repos = entry(&merged, "repos");
    // core kept, archetype replaced in place, aur appended.
    assert_eq!(repo_names(repos), vec!["core", "archetype", "aur"]);
    let arch = match repos {
        TopValue::Array(items) => items[1].value.as_table().unwrap().clone(),
        _ => unreachable!(),
    };
    assert_eq!(arch["servers"].as_array().unwrap()[0].as_str(), Some("https://user/arch"));
}

#[test]
fn load_layered_vendor_only_when_no_user_override() {
    let vendor = tbl("[options]\nparallel_downloads = 7\n");
    let conf = load_layered(Some(vendor), None, "vendor.toml", "user-absent.toml").unwrap();
    let opts = match entry(&conf, "options") {
        TopValue::Table(t) => t,
        _ => panic!("options is not a table"),
    };
    assert_eq!(sub(opts, "parallel_downloads").as_integer(), Some(7));
}

#[test]
fn load_layered_errors_when_neither_layer_exists() {
    let err = load_layered(None, None, "/nonexistent/vendor.toml", "/nonexistent/user.toml").unwrap_err();
    match &err {
        MizError::Other(m) => {
            assert!(m.contains("no miz config found"), "unexpected: {m}");
            assert_eq!(
                m,
                "no miz config found: neither /nonexistent/vendor.toml (vendor) nor /nonexistent/user.toml (user override) exists"
            );
        }
        other => panic!("unexpected: {:?}", other),
    }
}

#[test]
fn load_layered_user_only_is_the_user_table() {
    let user = tbl("[options]\nparallel_downloads = 3\n");
    let conf = load_layered(None, Some(user), "v.toml", "u.toml").unwrap();
    assert_eq!(conf.len(), 1);
    assert_eq!(conf[0].0, "options");
}

#[test]
fn parse_layer_reports_toml_error_with_path() {
    match parse_layer("[options\n", "/etc/miz.toml") {
        Err(MizError::Toml { path, source }) => {
            assert_eq!(path, "/etc/miz.toml");
            assert!(!source.is_empty());
        }
        _ => panic!("expected a TOML error"),
    }
}

#[test]
fn parse_layer_reads_repo_names_only_from_string_name_keys() {
    let t = tbl("[[repos]]\nname = \"core\"\n[[repos]]\nname = 3\n[[repos]]\nservers = []\n");
    match entry(&t, "repos") {
        TopValue::Array(items) => {
            let names: Vec<Option<String>> = items.iter().map(|e| e.name.clone()).collect();
            assert_eq!(names, vec![Some("core".to_string()), None, None]);
        }
        _ => panic!("repos is not an array"),
    }
}

#[test]
fn other_top_level_keys_are_replaced_wholesale() {
    let vendor = tbl("color = true\n[archetype]\nurl = \"a\"\nchannel = \"stable\"\n[extra]\nx = 1\ny = 2\n");
    let user = tbl("color = false\n[archetype]\nurl = \"b\"\n[extra]\nx = 5\n");
    let merged = merge_config_tables(vendor, user);
    match entry(&merged, "color") {
        TopValue::Other(v) => assert_eq!(v.as_bool(), Some(false)),
        _ => panic!("color is not a plain value"),
    }
    // archetype merges per key
    match entry(&merged, "archetype") {
        TopValue::Table(t) => {
            assert_eq!(sub(t, "url").as_str(), Some("b"));
            assert_eq!(sub(t, "channel").as_str(), Some("stable"));
        }
        _ => panic!("archetype is not a table"),
    }
    // any other table is the user's alone
    match entry(&merged, "extra") {
        TopValue::Table(t) => {
            assert_eq!(t.len(), 1);
            assert_eq!(sub(t, "x").as_integer(), Some(5));
        }
        _ => panic!("extra is not a table"),
    }
    // no key twice
    let mut keys: Vec<&String> = merged.iter().map(|(k, _)| k).collect();
    keys.sort();
    keys.dedup();
    assert_eq!(keys.len(), merged.len());
}

#[test]
fn merge_sub_table_puts_each_user_key() {
    let v = vec![
        ("a".to_string(), toml::Value::Integer(1)),
        ("b".to_string(), toml::Value::Integer(2)),
    ];
    let u = vec![
        ("b".to_string(), toml::Value::Integer(20)),
        ("c".to_string(), toml::Value::Integer(30)),
    ];
    let r = merge_sub_table(v, u);
    let got: Vec<(String, i64)> = r.iter().map(|(k, v)| (k.clone(), v.as_integer().unwrap())).collect();
    assert_eq!(
        got,
        vec![("a".to_string(), 1), ("b".to_string(), 20), ("c".to_string(), 30)]
    );
}

#[test]
fn merge_repos_entry_without_name_is_appended() {
    let el = |n: Option<&str>, x: i64| Element { name: n.map(|s| s.to_string()), value: toml::Value::Integer(x) };
    let r = merge_repos_by_name(vec![el(Some("core"), 1)], vec![el(None, 2), el(Some("core"), 3)]);
    let got: Vec<(Option<String>, i64)> = r.iter().map(|e| (e.name.clone(), e.value.as_integer().unwrap())).collect();
    assert_eq!(got, vec![(Some("core".to_string()), 3), (None, 2)]);
}

#[test]
fn mismatched_section_kinds_take_the_user_value() {
    let vendor = tbl("options = [1, 2]\nrepos = { a = 1 }\n");
    let user = tbl("[options]\nx = 1\n[repos]\nb = 2\n");
    let merged = merge_config_tables(vendor, user);
    match entry(&merged, "options") {
        TopValue::Table(t) => assert_eq!(t.len(), 1),
        _ => panic!("options should be the user's table"),
    }
    match entry(&merged, "repos") {
        TopValue::Table(t) => {
            assert_eq!(t.len(), 1);
            assert_eq!(sub(t, "b").as_integer(), Some(2));
        }
        _ => panic!("repos should be the user's table"),
    }
}
