use miz::images::live::{live_execute, RelayAction, RelayEvent, RelayPhase};
use miz::images::relay::uki_cmdline;

fn put16(v: &mut Vec<u8>, at: usize, x: u16) {
    v[at..at + 2].copy_from_slice(&x.to_le_bytes());
}

fn put32(v: &mut Vec<u8>, at: usize, x: u32) {
    v[at..at + 4].copy_from_slice(&x.to_le_bytes());
}

/// A minimal 64-bit PE image with one section `name` holding `body`.
fn pe_with_section(name: &[u8; 8], body: &[u8]) -> Vec<u8> {
    let data_at = 240usize;
    let mut v = vec![0u8; data_at + body.len()];
    v[0] = b'M';
    v[1] = b'Z';
    put32(&mut v, 0x3c, 64);
    v[64..68].copy_from_slice(b"PE\0\0");
    put16(&mut v, 68, 0x8664); // machine
    put16(&mut v, 70, 1); // sections
    put16(&mut v, 84, 112); // optional header size
    put16(&mut v, 86, 0x22);
    put16(&mut v, 88, 0x20b); // PE32+ magic
    let sh = 88 + 112;
    v[sh..sh + 8].copy_from_slice(name);
    put32(&mut v, sh + 8, body.len() as u32); // virtual size
    put32(&mut v, sh + 12, 0x1000); // virtual address
    put32(&mut v, sh + 16, body.len() as u32); // raw size
    put32(&mut v, sh + 20, data_at as u32); // raw pointer
    v[data_at..].copy_from_slice(body);
    v
}

#[test]
fn uki_cmdline_reads_and_trims_the_section() {
    let uki = pe_with_section(b".cmdline", b"  root=x usrhash=abc rootflags=subvol=@archetype_1-1 \n\0\0");
    assert_eq!(
        uki_cmdline("/efi/EFI/Linux/archetype_1-1.efi", &uki).unwrap(),
        "root=x usrhash=abc rootflags=subvol=@archetype_1-1"
    );
}

#[test]
fn uki_cmdline_without_the_section_fails() {
    let uki = pe_with_section(b".osrel\0\0", b"ID=x\n");
    assert_eq!(uki_cmdline("u.efi", &uki).unwrap_err(), "UKI u.efi has no .cmdline section");
}

#[test]
fn uki_cmdline_of_non_pe_fails() {
    let e = uki_cmdline("u.efi", b"not a PE image at all").unwrap_err();
    assert!(e.starts_with("cannot parse UKI u.efi as PE: "), "{e}");
}

fn command_of(a: &RelayAction) -> Vec<String> {
    match a {
        RelayAction::Run(c) => c.argv.clone(),
        _ => panic!("expected a command"),
    }
}

#[test]
fn relay_failure_after_the_uki_deletes_the_snapshot_then_removes_the_uki() {
    let mut r = live_execute("2", true);
    r.step(RelayEvent::Begin);
    r.step(RelayEvent::Version(Some("1".to_string())));
    r.step(RelayEvent::Output(Ok("btrfs /dev/sda2\n".to_string())));
    r.step(RelayEvent::Done(Ok(())));
    r.step(RelayEvent::Done(Ok(())));
    r.step(RelayEvent::Exists(true));
    r.step(RelayEvent::Exists(false));
    r.step(RelayEvent::Done(Ok(()))); // snapshot taken
    r.step(RelayEvent::Done(Ok(()))); // next root created
    assert!(matches!(r.step(RelayEvent::Done(Ok(()))), RelayAction::Lsblk)); // mounted
    let lsblk = "/dev/sda5 archetype_2\n/dev/sda6 archetype_2_verity\n";
    assert!(matches!(r.step(RelayEvent::Output(Ok(lsblk.to_string()))), RelayAction::Lsblk));
    assert!(matches!(r.step(RelayEvent::Output(Ok(lsblk.to_string()))), RelayAction::ListEspEntries));
    let uki_path = "/efi/EFI/Linux/archetype_2.efi";
    match r.step(RelayEvent::Entries(vec![(uki_path.to_string(), "archetype_2.efi".to_string())])) {
        RelayAction::ReadUkiCmdline(p) => assert_eq!(p, uki_path),
        _ => panic!("expected the UKI to be read"),
    }
    let uki = pe_with_section(b".cmdline", b"root=x rootflags=subvol=@archetype_2 usrhash=abc\0");
    assert!(matches!(r.step(RelayEvent::Bytes(Ok(uki))), RelayAction::Exists(_)));
    assert_eq!(r.roothash, "abc");
    let (label, _) = match r.step(RelayEvent::Exists(false)) {
        RelayAction::Run(c) => (c.label.clone(), c.argv.clone()),
        _ => panic!("expected verity to be opened"),
    };
    assert_eq!(label, "verity-open the new /usr");
    // verity fails: unmount the new root, delete the snapshot, remove the
    // UKI, unmount the top-level, in that order.
    let mut ran = vec![command_of(&r.step(RelayEvent::Done(Err("boom".to_string()))))];
    while matches!(r.phase, RelayPhase::Tearing) {
        match r.step(RelayEvent::Done(Ok(()))) {
            RelayAction::Run(c) => ran.push(c.argv.clone()),
            RelayAction::Finish(res) => assert!(res.is_err()),
            _ => panic!("unexpected action"),
        }
    }
    let s = |xs: &[&str]| xs.iter().map(|x| x.to_string()).collect::<Vec<String>>();
    assert_eq!(
        ran,
        vec![
            s(&["umount", "/run/miz/next"]),
            s(&["btrfs", "subvolume", "delete", "/run/miz/toplevel/@archetype_2"]),
            s(&["rm", "-f", uki_path]),
            s(&["umount", "/run/miz/toplevel"]),
        ]
    );
}
