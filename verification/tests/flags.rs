use miz::common::transaction::{release_warning, target_not_found};
use miz::operations::sync::{install_prompt, print_target, TRANS_CASCADE, TRANS_NODEPS, TRANS_NODEPVERSION, TRANS_RECURSE, TRANS_RECURSEALL, TRANS_UNNEEDED};
use miz::report::TransactionKind;

#[test]
fn remove_flags_by_count() {
    let mut p = miz::params::remove::Params {
        cascade: false,
        nodeps: 0,
        nosave: false,
        print: false,
        print_format: None,
        recursive: 0,
        unneeded: false,
        assume_installed: Vec::new(),
        dbonly: false,
        noconfirm: false,
        noprogressbar: false,
        noscriptlet: false,
        packages: Vec::new(),
    };
    assert_eq!(miz::operations::remove::build_flags(&p), 0);
    p.cascade = true;
    p.nodeps = 1;
    p.recursive = 1;
    assert_eq!(miz::operations::remove::build_flags(&p), TRANS_CASCADE | TRANS_NODEPVERSION | TRANS_RECURSE);
    p.nodeps = 2;
    p.recursive = 3;
    p.unneeded = true;
    assert_eq!(
        miz::operations::remove::build_flags(&p),
        TRANS_CASCADE | TRANS_NODEPS | TRANS_RECURSE | TRANS_RECURSEALL | TRANS_UNNEEDED
    );
    assert_eq!(miz::operations::remove::build_flags(&p), 16 | 1 | 32 | 65536 | 32768);
}

#[test]
fn upgrade_flags_by_option() {
    let mut p = miz::params::upgrade::Params {
        print: false,
        print_format: None,
        nodeps: 0,
        asdeps: false,
        asexplicit: false,
        overwrite: Vec::new(),
        needed: false,
        dbonly: false,
        noscriptlet: false,
        noconfirm: false,
        noprogressbar: false,
        files: Vec::new(),
    };
    assert_eq!(miz::operations::upgrade::build_flags(&p), 0);
    p.nodeps = 2;
    p.needed = true;
    p.dbonly = true;
    assert_eq!(miz::operations::upgrade::build_flags(&p), 1 | 8192 | 64);
    p.nodeps = 1;
    p.asexplicit = true;
    p.noscriptlet = true;
    assert_eq!(miz::operations::upgrade::build_flags(&p), 8 | 8192 | 64 | 16384 | 1024);
}

#[test]
fn print_target_prefers_server_url() {
    assert_eq!(
        print_target(Some("core"), "bash-5.2-1-x86_64.pkg.tar.zst", Some("https://m/core/os/x86_64//"), "bash", "5.2-1"),
        "https://m/core/os/x86_64/bash-5.2-1-x86_64.pkg.tar.zst"
    );
    assert_eq!(print_target(Some("core"), "", Some("https://m"), "bash", "5.2-1"), "core/bash-5.2-1");
    assert_eq!(print_target(Some("core"), "bash.pkg.tar", None, "bash", "5.2-1"), "core/bash.pkg.tar");
    assert_eq!(print_target(None, "", None, "bash", "5.2-1"), "local/bash 5.2-1");
}

#[test]
fn install_prompt_by_download_only() {
    assert_eq!(install_prompt(true), (TransactionKind::DownloadOnly, "Proceed with download? [Y/n] "));
    assert_eq!(install_prompt(false), (TransactionKind::Install, "Proceed with installation? [Y/n] "));
}

#[test]
fn transaction_messages() {
    assert_eq!(release_warning("busy"), "trans_release failed after --print: busy");
    assert_eq!(target_not_found("foo"), "error: target not found: foo");
}
