//! Structured results of every operation, the transaction plan handed to a
//! confirmer, and how each result maps to success or the error to exit with.
//! Rendering them is the caller's business.
use crate::error::MizError;
use crate::text::to_owned;
use vstd::prelude::*;

verus! {

/// What a confirmer needs: the `(name, version)` summary rows (empty for a
/// prompt-only confirmation), the operation kind, and the exact prompt line.
pub struct TransactionPlan {
    pub targets: Vec<(String, String)>,
    pub kind: TransactionKind,
    pub prompt: String,
}

/// The operation a [`TransactionPlan`] confirms.
#[derive(PartialEq, Eq, Structural, Clone, Copy, Debug)]
pub enum TransactionKind {
    Install,
    Remove,
    DownloadOnly,
    CleanCache,
    ImageInstall,
}

impl TransactionPlan {
    /// A plan with a package summary (install/remove/upgrade).
    pub fn with_targets(targets: Vec<(String, String)>, kind: TransactionKind, prompt: &str) -> (p:
        Self)
        ensures
            p.targets@ == targets@,
            p.kind == kind,
            p.prompt@ == prompt@,
    {
        TransactionPlan { targets, kind, prompt: to_owned(prompt) }
    }

    /// A prompt-only plan (no summary): cache clean, image install.
    pub fn prompt_only(kind: TransactionKind, prompt: &str) -> (p: Self)
        ensures
            p.targets@.len() == 0,
            p.kind == kind,
            p.prompt@ == prompt@,
    {
        TransactionPlan { targets: Vec::new(), kind, prompt: to_owned(prompt) }
    }
}

/// Asks whether to go ahead with a plan; the library never prompts itself.
pub trait Confirmer {
    fn confirm(&mut self, plan: &TransactionPlan) -> bool;
}

/// `-V`.
pub struct VersionReport {
    pub miz: String,
    pub alpm: String,
}

/// `-T`: the unsatisfied dependency tokens, in input order.
pub struct DeptestReport {
    pub missing: Vec<String>,
}

impl DeptestReport {
    /// Success exactly when every dependency is satisfied.
    pub fn outcome(&self) -> (r: Result<(), MizError>)
        ensures
            r is Ok <==> self.missing@.len() == 0,
            r matches Err(e) ==> e is Deptest,
    {
        if self.missing.len() == 0 {
            Ok(())
        } else {
            Err(MizError::Deptest)
        }
    }
}

/// `-D`.
pub enum DbReport {
    /// `-Dk`: formatted problem lines, the error count, and `-q`.
    Check { problems: Vec<String>, count: usize, quiet: bool },
    /// `--asdeps`/`--asexplicit`: confirmation lines, the first name that was
    /// not found, and a libalpm failure (its message) on a later package.
    SetReason {
        confirmations: Vec<String>,
        not_found: Option<String>,
        set_reason_error: Option<String>,
    },
}

impl DbReport {
    /// A check fails with the error count; a reason change fails first with
    /// libalpm's failure, then with the missing package.
    pub fn outcome(&self) -> (r: Result<(), MizError>)
        ensures
            match *self {
                DbReport::Check { count, .. } => if count == 0 {
                    r is Ok
                } else {
                    r matches Err(MizError::DatabaseErrors(n)) && n == count
                },
                DbReport::SetReason { not_found, set_reason_error, .. } => match set_reason_error {
                    Some(m) => r matches Err(MizError::Alpm(x)) && x@ == m@,
                    None => match not_found {
                        Some(name) => r matches Err(MizError::PackageNotFound(x)) && x@ == name@,
                        None => r is Ok,
                    },
                },
            },
    {
        match self {
            DbReport::Check { count, .. } => {
                if *count == 0 {
                    Ok(())
                } else {
                    Err(MizError::DatabaseErrors(*count))
                }
            },
            DbReport::SetReason { not_found, set_reason_error, .. } => {
                if let Some(e) = set_reason_error {
                    return Err(MizError::Alpm(e.clone()));
                }
                match not_found {
                    Some(name) => Err(MizError::PackageNotFound(name.clone())),
                    None => Ok(()),
                }
            },
        }
    }
}

/// One package's matched or owned files (raw bytes, for byte-exact output).
pub struct FilePkg {
    pub db: String,
    pub pkg: String,
    pub version: String,
    pub files: Vec<Vec<u8>>,
    /// Search only: the target contained a `/`.
    pub exact_file: bool,
}

/// `-F`.
pub enum FilesReport {
    List {
        machine: bool,
        quiet: bool,
        pkgs: Vec<FilePkg>,
        diagnostics: Vec<String>,
        /// The joined names of missing targets.
        error: Option<String>,
    },
    Search {
        machine: bool,
        quiet: bool,
        matches: Vec<FilePkg>,
        error: Option<String>,
        /// A pattern that failed to compile (its message); wins over `error`.
        regex_error: Option<String>,
    },
}

impl FilesReport {
    pub fn outcome(&self) -> (r: Result<(), MizError>)
        ensures
            match *self {
                FilesReport::List { error, .. } => match error {
                    Some(j) => r matches Err(MizError::PackageNotFound(x)) && x@ == j@,
                    None => r is Ok,
                },
                FilesReport::Search { error, regex_error, .. } => match regex_error {
                    Some(m) => r matches Err(MizError::Regex(x)) && x@ == m@,
                    None => match error {
                        Some(j) => r matches Err(MizError::PackageNotFound(x)) && x@ == j@,
                        None => r is Ok,
                    },
                },
            },
    {
        match self {
            FilesReport::List { error, .. } => match error {
                Some(joined) => Err(MizError::PackageNotFound(joined.clone())),
                None => Ok(()),
            },
            FilesReport::Search { error, regex_error, .. } => {
                if let Some(e) = regex_error {
                    return Err(MizError::Regex(e.clone()));
                }
                match error {
                    Some(joined) => Err(MizError::PackageNotFound(joined.clone())),
                    None => Ok(()),
                }
            },
        }
    }
}

/// One name/version listing row.
pub struct PkgLine {
    pub name: String,
    pub version: String,
}

/// One `-Qi` field: `Label` renders `{:<19}: {}`; `Backup` renders the
/// "Backup Files" header then one `path\thash` line each.
pub enum InfoField {
    Label { key: String, value: String },
    Backup(Vec<String>),
}

pub struct InfoBlock {
    pub fields: Vec<InfoField>,
}

/// One `-Ql` row.
pub struct FileLine {
    pub pkg: String,
    pub file: String,
}

/// One `-Qk` result: problem lines then a summary.
pub struct CheckResult {
    pub problems: Vec<String>,
    pub summary: String,
}

pub enum SearchSource {
    Local,
    Image,
}

/// One `-Qs` hit.
pub struct SearchHit {
    pub source: SearchSource,
    pub name: String,
    pub version: String,
    pub desc: String,
}

pub enum QueryBody {
    List { quiet: bool, pkgs: Vec<PkgLine> },
    Info(Vec<InfoBlock>),
    Files { quiet: bool, lines: Vec<FileLine> },
    Check(Vec<CheckResult>),
    Changelog(Vec<String>),
    Search { quiet: bool, hits: Vec<SearchHit> },
    Owns(Vec<String>),
    Groups(Vec<String>),
}

pub enum QueryError {
    NotFound(String),
    Other(String),
    /// A changelog read failure (its message).
    Io(String),
}

/// `-Q`: the body, trailing diagnostics, and the error to exit with.
pub struct QueryReport {
    pub body: QueryBody,
    pub diagnostics: Vec<String>,
    pub error: Option<QueryError>,
}

impl QueryReport {
    pub fn outcome(&self) -> (r: Result<(), MizError>)
        ensures
            match self.error {
                None => r is Ok,
                Some(QueryError::NotFound(s)) => r matches Err(MizError::PackageNotFound(x)) && x@
                    == s@,
                Some(QueryError::Other(s)) => r matches Err(MizError::Other(x)) && x@ == s@,
                Some(QueryError::Io(s)) => r matches Err(MizError::Io(x)) && x@ == s@,
            },
    {
        match &self.error {
            None => Ok(()),
            Some(QueryError::NotFound(s)) => Err(MizError::PackageNotFound(s.clone())),
            Some(QueryError::Other(s)) => Err(MizError::Other(s.clone())),
            Some(QueryError::Io(s)) => Err(MizError::Io(s.clone())),
        }
    }
}

/// `-S`.
pub enum SyncReport {
    Search { lines: Vec<String> },
    Listing { lines: Vec<String>, diagnostics: Vec<String>, error: Option<String> },
    Clean { removed: u64 },
    Print { lines: Vec<String>, release_warning: Option<String> },
    Done,
}

impl SyncReport {
    /// Only a listing with missing targets fails.
    pub fn outcome(&self) -> (r: Result<(), MizError>)
        ensures
            match *self {
                SyncReport::Listing { error: Some(j), .. } => r matches Err(
                    MizError::PackageNotFound(x),
                ) && x@ == j@,
                _ => r is Ok,
            },
    {
        match self {
            SyncReport::Listing { error: Some(joined), .. } => Err(
                MizError::PackageNotFound(joined.clone()),
            ),
            _ => Ok(()),
        }
    }
}

/// `-R`.
pub enum RemoveReport {
    Print { lines: Vec<String>, release_warning: Option<String> },
    Done,
}

impl RemoveReport {
    /// A removal report never fails.
    pub fn outcome(&self) -> (r: Result<(), MizError>)
        ensures
            r is Ok,
    {
        Ok(())
    }
}

/// `-U`.
pub enum UpgradeReport {
    Print { lines: Vec<String>, release_warning: Option<String> },
    Done,
}

impl UpgradeReport {
    /// An upgrade report never fails.
    pub fn outcome(&self) -> (r: Result<(), MizError>)
        ensures
            r is Ok,
    {
        Ok(())
    }
}

/// One `-Il` row.
pub struct ImageListRow {
    pub version: String,
    pub installed: bool,
    pub newest: bool,
}

/// Outcome of the layered-package relay.
pub enum RelayReport {
    /// `--dry-run`: the plan text, printed verbatim.
    DryRun(String),
    /// Relay finished onto `subvol`.
    Relayed { subvol: String, quiet: bool },
}

/// Outcome of `-Iu`.
pub enum ImageUpgradeOutcome {
    AlreadyUpToDate { name: String, quiet: bool },
    Declined,
    Done {
        name: String,
        version: String,
        host_changed: bool,
        quiet: bool,
        relay: Option<RelayReport>,
        reboot: bool,
        /// A relay failure after the install completed.
        error: Option<String>,
    },
}

/// `-I`.
pub enum ImagesReport {
    List { component: String, quiet: bool, rows: Vec<ImageListRow> },
    Json(String),
    Info(Vec<InfoField>),
    CheckNew { name: String, quiet: bool, newest: Option<String> },
    Components { quiet: bool, rows: Vec<(String, String)> },
    Pending {
        name: String,
        quiet: bool,
        installed: String,
        booted_label: String,
        installed_label: String,
        reboot_due: bool,
    },
    FeatureList(Vec<String>),
    FeatureToggle { name: String, feature: String, enabled: bool, quiet: bool },
    AppStream(Vec<String>),
    Upgrade(ImageUpgradeOutcome),
    Vacuum { name: String, quiet: bool, instances: u32, disabled: u32 },
    Relay(RelayReport),
    Silent,
}

impl ImagesReport {
    /// Fails only with a relay failure carried by a completed upgrade.
    pub fn outcome(&self) -> (r: Result<(), MizError>)
        ensures
            match *self {
                ImagesReport::Upgrade(ImageUpgradeOutcome::Done { error: Some(e), .. }) => r matches Err(
                    MizError::Sysupdate(x),
                ) && x@ == e@,
                _ => r is Ok,
            },
    {
        if let ImagesReport::Upgrade(ImageUpgradeOutcome::Done { error: Some(e), .. }) = self {
            return Err(MizError::Sysupdate(e.clone()));
        }
        Ok(())
    }

    /// Whether a reboot was requested after a completed upgrade.
    pub fn wants_reboot(&self) -> (r: bool)
        ensures
            r == (*self matches ImagesReport::Upgrade(
                ImageUpgradeOutcome::Done { reboot: true, .. },
            )),
    {
        match self {
            ImagesReport::Upgrade(ImageUpgradeOutcome::Done { reboot, .. }) => *reboot,
            _ => false,
        }
    }
}

} // verus!
