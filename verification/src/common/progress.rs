//! Progress events independent of libalpm: the operation kinds, the events a
//! sink receives, the status line an alpm event maps to, and the numbers a
//! callback reports.
use crate::text::{chars_of, push_str, to_owned};
use vstd::prelude::*;

verus! {

/// The transaction operation kinds a progress bar labels.
#[derive(PartialEq, Eq, Structural, Clone, Copy, Debug)]
pub enum OpKind {
    Install,
    Upgrade,
    Downgrade,
    Reinstall,
    Remove,
    Conflicts,
    Diskspace,
    Integrity,
    Load,
    Keyring,
}

/// One progress event.
pub enum ProgressEvent {
    Status(String),
    Op { kind: OpKind, pkg: String, percent: u64 },
    Download { file: String, downloaded: u64, total: u64 },
    DownloadDone { file: String, total: u64 },
    /// Start of an image job bar; `label` is the left-margin verb.
    JobBegin { label: String },
    Job { percent: u64 },
    JobEnd,
}

/// Receives progress events; a renderer or a recorder implements it.
pub trait ProgressSink {
    fn handle(&mut self, ev: ProgressEvent);

    /// Start a fresh progress session (after any summary and confirmation).
    fn begin(&mut self) {
    }
}

/// The bar label of an operation kind.
pub open spec fn label_text(kind: OpKind) -> Seq<char> {
    match kind {
        OpKind::Install => "installing"@,
        OpKind::Upgrade => "upgrading"@,
        OpKind::Downgrade => "downgrading"@,
        OpKind::Reinstall => "reinstalling"@,
        OpKind::Remove => "removing"@,
        OpKind::Conflicts => "conflicts"@,
        OpKind::Diskspace => "diskspace"@,
        OpKind::Integrity => "integrity"@,
        OpKind::Load => "loading"@,
        OpKind::Keyring => "keyring"@,
    }
}

pub fn label_for(kind: OpKind) -> (r: &'static str)
    ensures
        r@ == label_text(kind),
{
    match kind {
        OpKind::Install => "installing",
        OpKind::Upgrade => "upgrading",
        OpKind::Downgrade => "downgrading",
        OpKind::Reinstall => "reinstalling",
        OpKind::Remove => "removing",
        OpKind::Conflicts => "conflicts",
        OpKind::Diskspace => "diskspace",
        OpKind::Integrity => "integrity",
        OpKind::Load => "loading",
        OpKind::Keyring => "keyring",
    }
}

/// The libalpm transaction events a status line is shown for; a hook run
/// carries the hook's name; every other event is `Other`.
pub enum AlpmEvent {
    CheckDepsStart,
    ResolveDepsStart,
    InterConflictsStart,
    FileConflictsStart,
    IntegrityStart,
    LoadStart,
    KeyringStart,
    TransactionStart,
    TransactionDone,
    HookRunStart(String),
    Other,
}

/// The status line of an event (without the `::` marker), if it has one; a
/// hook without a name has none.
pub open spec fn status_of(e: AlpmEvent) -> Option<Seq<char>> {
    match e {
        AlpmEvent::CheckDepsStart => Some("checking dependencies..."@),
        AlpmEvent::ResolveDepsStart => Some("resolving dependencies..."@),
        AlpmEvent::InterConflictsStart => Some("looking for conflicting packages..."@),
        AlpmEvent::FileConflictsStart => Some("checking for file conflicts..."@),
        AlpmEvent::IntegrityStart => Some("checking package integrity..."@),
        AlpmEvent::LoadStart => Some("loading package files..."@),
        AlpmEvent::KeyringStart => Some("checking keyring..."@),
        AlpmEvent::TransactionStart => Some("processing transaction..."@),
        AlpmEvent::TransactionDone => Some("transaction done"@),
        AlpmEvent::HookRunStart(name) => if name@.len() == 0 {
            None
        } else {
            Some("running hook "@ + name@)
        },
        AlpmEvent::Other => None,
    }
}

/// Map a libalpm event to its status line text.
pub fn status_text(event: &AlpmEvent) -> (r: Option<String>)
    ensures
        match status_of(*event) {
            Some(t) => r matches Some(x) && x@ == t,
            None => r is None,
        },
{
    match event {
        AlpmEvent::CheckDepsStart => Some(to_owned("checking dependencies...")),
        AlpmEvent::ResolveDepsStart => Some(to_owned("resolving dependencies...")),
        AlpmEvent::InterConflictsStart => Some(to_owned("looking for conflicting packages...")),
        AlpmEvent::FileConflictsStart => Some(to_owned("checking for file conflicts...")),
        AlpmEvent::IntegrityStart => Some(to_owned("checking package integrity...")),
        AlpmEvent::LoadStart => Some(to_owned("loading package files...")),
        AlpmEvent::KeyringStart => Some(to_owned("checking keyring...")),
        AlpmEvent::TransactionStart => Some(to_owned("processing transaction...")),
        AlpmEvent::TransactionDone => Some(to_owned("transaction done")),
        AlpmEvent::HookRunStart(name) => {
            if chars_of(name.as_str()).len() == 0 {
                None
            } else {
                let mut s = String::new();
                push_str(&mut s, "running hook ");
                push_str(&mut s, name.as_str());
                Some(s)
            }
        },
        AlpmEvent::Other => None,
    }
}

/// An operation's percentage clamped to `0..=100`.
pub fn clamp_percent(p: i32) -> (r: u64)
    ensures
        r == if p < 0 {
            0
        } else if p > 100 {
            100
        } else {
            p as int
        },
{
    if p < 0 {
        0
    } else if p > 100 {
        100
    } else {
        p as u64
    }
}

/// A download counter, negative values read as zero.
pub fn nonneg(x: i64) -> (r: u64)
    ensures
        r == if x < 0 {
            0
        } else {
            x as int
        },
{
    if x < 0 {
        0
    } else {
        x as u64
    }
}

} // verus!
