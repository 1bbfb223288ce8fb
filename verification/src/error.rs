//! The error type shared by every operation, its user-facing messages and the
//! process exit code each kind maps to.
use crate::common::fmt::{dec, push_dec};
use crate::text::{push_str, to_owned};
use vstd::prelude::*;

verus! {

/// Exit status for failures reported by libalpm (pacman's generic failure).
pub const EXIT_ALPM: i32 = 1;

/// Exit status for `-T` when at least one dependency is unsatisfied.
pub const EXIT_DEPTEST: i32 = 127;

/// Exit status for every other failure.
pub const EXIT_GENERIC: i32 = 1;

/// Every failure an operation can report. Errors that come from a library
/// carry that library's own message.
#[derive(Debug, Clone, PartialEq, Eq)]
pub enum MizError {
    /// A libalpm failure; its message is already user-facing.
    Alpm(String),
    /// An I/O failure, with the system's description.
    Io(String),
    /// A search pattern that is not a valid regular expression.
    Regex(String),
    /// A config file that could not be parsed.
    Toml { path: String, source: String },
    PackageNotFound(String),
    NotImplemented,
    Sysupdate(String),
    Dbus(String),
    Deptest,
    DatabaseErrors(usize),
    BadArgs(String),
    Other(String),
}

/// The message shown for `e` (after the `error: ` prefix the caller prints).
pub open spec fn error_message(e: MizError) -> Seq<char> {
    match e {
        MizError::Alpm(m) => m@,
        MizError::Io(m) => m@,
        MizError::Regex(m) => "invalid search pattern: "@ + m@,
        MizError::Toml { path, source } => "could not parse config "@ + path@ + ": "@ + source@,
        MizError::PackageNotFound(name) => "package '"@ + name@ + "' was not found"@,
        MizError::NotImplemented => "this operation is not implemented"@,
        MizError::Sysupdate(m) => "image update failed: "@ + m@,
        MizError::Dbus(m) => "could not reach the image service over D-Bus: "@ + m@,
        MizError::Deptest => "dependency check failed"@,
        MizError::DatabaseErrors(n) => dec(n as nat) + " database error(s) found"@,
        MizError::BadArgs(m) => "conflicting options: "@ + m@,
        MizError::Other(m) => m@,
    }
}

/// The exit status for `e`.
pub open spec fn error_exit_code(e: MizError) -> i32 {
    match e {
        MizError::Alpm(_) => EXIT_ALPM,
        MizError::Deptest => EXIT_DEPTEST,
        _ => EXIT_GENERIC,
    }
}

impl MizError {
    /// The process exit status for this error.
    pub fn exit_code(&self) -> (code: i32)
        ensures
            code == error_exit_code(*self),
    {
        match self {
            MizError::Alpm(_) => EXIT_ALPM,
            MizError::Deptest => EXIT_DEPTEST,
            MizError::Io(_)
            | MizError::Regex(_)
            | MizError::Toml { .. }
            | MizError::PackageNotFound(_)
            | MizError::DatabaseErrors(_)
            | MizError::NotImplemented
            | MizError::Sysupdate(_)
            | MizError::Dbus(_)
            | MizError::BadArgs(_)
            | MizError::Other(_) => EXIT_GENERIC,
        }
    }

    /// The user-facing message of this error.
    pub fn to_string(&self) -> (s: String)
        ensures
            s@ == error_message(*self),
    {
        let mut out = String::new();
        match self {
            MizError::Alpm(m) => {
                push_str(&mut out, m.as_str());
            },
            MizError::Io(m) => {
                push_str(&mut out, m.as_str());
            },
            MizError::Regex(m) => {
                push_str(&mut out, "invalid search pattern: ");
                push_str(&mut out, m.as_str());
            },
            MizError::Toml { path, source } => {
                push_str(&mut out, "could not parse config ");
                push_str(&mut out, path.as_str());
                push_str(&mut out, ": ");
                push_str(&mut out, source.as_str());
            },
            MizError::PackageNotFound(name) => {
                push_str(&mut out, "package '");
                push_str(&mut out, name.as_str());
                push_str(&mut out, "' was not found");
            },
            MizError::NotImplemented => {
                push_str(&mut out, "this operation is not implemented");
            },
            MizError::Sysupdate(m) => {
                push_str(&mut out, "image update failed: ");
                push_str(&mut out, m.as_str());
            },
            MizError::Dbus(m) => {
                push_str(&mut out, "could not reach the image service over D-Bus: ");
                push_str(&mut out, m.as_str());
            },
            MizError::Deptest => {
                push_str(&mut out, "dependency check failed");
            },
            MizError::DatabaseErrors(n) => {
                push_dec(&mut out, *n as u64);
                push_str(&mut out, " database error(s) found");
            },
            MizError::BadArgs(m) => {
                push_str(&mut out, "conflicting options: ");
                push_str(&mut out, m.as_str());
            },
            MizError::Other(m) => {
                push_str(&mut out, m.as_str());
            },
        }
        proof {
            assert(out@ =~= error_message(*self));
        }
        out
    }
}

/// An `Other` error carrying `msg`.
pub fn other(msg: &str) -> (e: MizError)
    ensures
        e matches MizError::Other(m) && m@ == msg@,
{
    MizError::Other(to_owned(msg))
}

} // verus!
