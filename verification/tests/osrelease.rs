use miz::osrelease::{archive_url, image_date, parse_image_version, resolve_archive_date};

#[test]
fn image_date_strips_release_and_slashes_date() {
    assert_eq!(image_date("2026.06.17-2"), "2026/06/17");
}

#[test]
fn image_date_no_release_suffix() {
    assert_eq!(image_date("2026.06.17"), "2026/06/17");
}

#[test]
fn resolve_archive_date_override_wins() {
    assert_eq!(
        resolve_archive_date(Some("2020/01/01"), Some("2026.06.17-2")),
        Some("2020/01/01".to_string())
    );
}

#[test]
fn resolve_archive_date_derives_when_no_override() {
    assert_eq!(
        resolve_archive_date(None, Some("2026.06.17-2")),
        Some("2026/06/17".to_string())
    );
}

#[test]
fn resolve_archive_date_none_without_version() {
    assert_eq!(resolve_archive_date(None, None), None);
}

#[test]
fn archive_url_default_base() {
    assert_eq!(
        archive_url(None, "2026/06/17"),
        "https://archive.archlinux.org/repos/2026/06/17/$repo/os/$arch"
    );
}

#[test]
fn archive_url_custom_base_trims_trailing_slash() {
    assert_eq!(
        archive_url(Some("https://example.test/repos/"), "2026/06/17"),
        "https://example.test/repos/2026/06/17/$repo/os/$arch"
    );
}

#[test]
fn parse_image_version_extracts_quoted_value() {
    let text = "ID=archetype\nIMAGE_VERSION=\"2026.06.17-2\"\nNAME=foo\n";
    assert_eq!(parse_image_version(text), Some("2026.06.17-2".to_string()));
}

#[test]
fn parse_image_version_absent_key() {
    assert_eq!(parse_image_version("ID=archetype\n"), None);
}

#[test]
fn parse_image_version_first_key_wins_and_trims() {
    let text = "IMAGE_VERSION=  1.0 \nIMAGE_VERSION=2.0\n";
    assert_eq!(parse_image_version(text), Some("1.0".to_string()));
}
