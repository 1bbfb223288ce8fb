use miz::error::{other, MizError, EXIT_ALPM, EXIT_DEPTEST, EXIT_GENERIC};
use miz::render::palette::color_enabled;

#[test]
fn error_messages_and_exit_codes() {
    assert_eq!(MizError::Alpm("db locked".into()).to_string(), "db locked");
    assert_eq!(MizError::Alpm("x".into()).exit_code(), EXIT_ALPM);
    assert_eq!(MizError::Deptest.exit_code(), EXIT_DEPTEST);
    assert_eq!(EXIT_DEPTEST, 127);
    assert_eq!(MizError::Deptest.to_string(), "dependency check failed");
    assert_eq!(MizError::DatabaseErrors(3).to_string(), "3 database error(s) found");
    assert_eq!(MizError::DatabaseErrors(3).exit_code(), EXIT_GENERIC);
    assert_eq!(
        MizError::PackageNotFound("foo".into()).to_string(),
        "package 'foo' was not found"
    );
    assert_eq!(
        MizError::Toml {
            path: "/etc/miz.toml".into(),
            source: "bad".into()
        }
        .to_string(),
        "could not parse config /etc/miz.toml: bad"
    );
    assert_eq!(MizError::Regex("(".into()).to_string(), "invalid search pattern: (");
    assert_eq!(other("plain"), MizError::Other("plain".into()));
}

#[test]
fn non_tty_forces_off_regardless_of_config() {
    assert!(!color_enabled(true, false, None));
    assert!(!color_enabled(false, false, None));
}

#[test]
fn tty_follows_config_when_no_color_unset() {
    assert!(color_enabled(true, true, None));
    assert!(!color_enabled(false, true, None));
    assert!(color_enabled(true, true, Some("")));
    assert!(!color_enabled(true, true, Some("1")));
}
