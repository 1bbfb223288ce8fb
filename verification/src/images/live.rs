//! The live relay as a state machine. Each step takes what the host reported
//! for the previous action and decides the next action: the checks that fail
//! closed, the commands to run with their teardown registered right after each
//! succeeds, and the teardown itself, run in reverse once the relay ends (the
//! failure-only steps only when it failed). The caller performs each action
//! and hands back its result.
use crate::common::fmt::strings_view;
use crate::error::MizError;
use crate::images::relay::{
    failure_slot, first_failure_only, lemma_failure_slot, uki_cmdline, uki_cmdline_of,
    archetype_paths, archetype_subvols, assert_root_under_run, choose_uki, debug_list,
    debug_text, lines, partition_by_label, prune_list, run_order, snapshots_to_prune,
    subvol_for_version, subvol_name, subvol_paths, uki_matches_version, uki_name_matches,
    under_run, usrhash_from_uki, usrhash_of, pins_subvol, labelled_paths, PlannedCommand,
    Teardown, TeardownStep, NEXT_ROOT, TOPLEVEL_MOUNT, USR_LOWER_MOUNT, USR_VERITY_NEXT,
};
use crate::osrelease::{date_of_version, image_date};
use crate::text::{push_str, str_eq, to_owned};
use vstd::prelude::*;

verus! {

/// Where the relay stands: the action it issued last and so the event it
/// waits for.
#[derive(PartialEq, Eq, Structural, Clone, Copy, Debug)]
pub enum RelayPhase {
    Start,
    Running,
    Device,
    MkTop,
    MountTop,
    CheckOld,
    CheckNew,
    Snapshot,
    MkNext,
    MountNext,
    LsblkData,
    LsblkHash,
    FindUki,
    Cmdline,
    StaleMapper,
    CloseStale,
    VerityOpen,
    MkLower,
    MountLower,
    MkUpper,
    MkWork,
    MountOverlay,
    Canon,
    Staged,
    Upgrade,
    ListPrune,
    Pruning,
    PruneAck,
    Report,
    Tearing,
    TearAck,
    Finished,
}

/// What the host reports back for an action.
pub enum RelayEvent {
    /// Start the relay.
    Begin,
    /// An `IMAGE_VERSION`, if one was found.
    Version(Option<String>),
    /// A command's or a file's text, or the failure's message.
    Output(Result<String, String>),
    /// A file's bytes, or the failure's message.
    Bytes(Result<Vec<u8>, String>),
    /// A command or directory creation finished, or failed with a message.
    Done(Result<(), String>),
    /// Whether a path exists.
    Exists(bool),
    /// `(path, file name)` of each entry of the ESP `EFI/Linux` directories.
    Entries(Vec<(String, String)>),
    /// The layered-package upgrade finished.
    Upgraded(Result<(), MizError>),
    /// A message was shown.
    Ack,
}

/// What the relay asks the host to do next.
pub enum RelayAction {
    /// Read the running `IMAGE_VERSION` (answer: `Version`).
    ReadRunningVersion,
    /// `findmnt -no FSTYPE,SOURCE /` (answer: `Output`).
    Findmnt,
    /// Create a directory and its parents (answer: `Done`, the error's text).
    CreateDir(String),
    /// Run a command (answer: `Done`, the full failure message).
    Run(PlannedCommand),
    /// Whether a path exists (answer: `Exists`).
    Exists(String),
    /// `lsblk -rno PATH,PARTLABEL` (answer: `Output`, the spawn error's text).
    Lsblk,
    /// List the ESP `EFI/Linux` directories of `/efi`, `/boot`, `/boot/efi`
    /// (answer: `Entries`; an unreadable directory lists nothing).
    ListEspEntries,
    /// Read a UKI file, for its `.cmdline` section (answer: `Bytes`, the full
    /// failure message).
    ReadUkiCmdline(String),
    /// Canonicalize a path (answer: `Output`, the error's text).
    Canonicalize(String),
    /// `IMAGE_VERSION` of an os-release file (answer: `Version`).
    ReadImageVersion(String),
    /// Refresh the sync databases and upgrade every layered package in the
    /// system rooted at `root` (answer: `Upgraded`).
    Sysupgrade { root: String, dbpath: String, image_db: String, archive_date: String },
    /// `btrfs subvolume list -o` of a directory (answer: `Output`, the full
    /// failure message).
    ListSubvols(String),
    /// A warning line for stderr (answer: `Ack`).
    Warn(String),
    /// A line for stdout (answer: `Ack`).
    Print(String),
    /// The relay is over with this outcome.
    Finish(Result<(), MizError>),
}

/// The relay's state.
pub struct LiveRelay {
    pub phase: RelayPhase,
    pub new_version: String,
    pub quiet: bool,
    /// The running image version.
    pub running: String,
    /// The btrfs device of the live root.
    pub device: String,
    /// The new `/usr` data and hash partitions.
    pub usr_data: String,
    pub usr_hash_dev: String,
    /// The new version's UKI, every ESP file naming that version, and the
    /// verity root hash from its command line.
    pub uki: String,
    pub ukis: Vec<String>,
    pub roothash: String,
    /// The canonical path of the mounted new root.
    pub canon_root: String,
    pub teardown: Teardown,
    /// Teardown commands not yet issued, in the order they run.
    pub pending: Vec<PlannedCommand>,
    /// Snapshot names not yet pruned, and the one being pruned.
    pub prune: Vec<String>,
    pub current: String,
    /// The failure the relay ends with, once one happened.
    pub result: Option<MizError>,
}

// ---------------------------------------------------------------------------
// Paths and commands
// ---------------------------------------------------------------------------

/// `base/rel`.
pub open spec fn path_in(base: Seq<char>, rel: Seq<char>) -> Seq<char> {
    base + "/"@ + rel
}

fn join_path(base: &str, rel: &str) -> (r: String)
    ensures
        r@ == path_in(base@, rel@),
{
    let mut s = to_owned(base);
    push_str(&mut s, "/");
    push_str(&mut s, rel);
    s
}

/// `c` is the command `label` running `argv`.
pub open spec fn is_cmd(c: PlannedCommand, label: Seq<char>, argv: Seq<Seq<char>>) -> bool {
    c.label@ == label && strings_view(c.argv@) == argv
}

fn command(label: &str, argv: Vec<String>) -> (c: PlannedCommand)
    ensures
        c.label@ == label@,
        c.argv@ == argv@,
{
    PlannedCommand { label: to_owned(label), argv }
}

fn strs2(a: &str, b: &str) -> (v: Vec<String>)
    ensures
        strings_view(v@) == seq![a@, b@],
{
    let mut v: Vec<String> = Vec::new();
    v.push(to_owned(a));
    v.push(to_owned(b));
    proof {
        assert(strings_view(v@) =~= seq![a@, b@]);
    }
    v
}

fn strs3(a: &str, b: &str, c: &str) -> (v: Vec<String>)
    ensures
        strings_view(v@) == seq![a@, b@, c@],
{
    let mut v: Vec<String> = Vec::new();
    v.push(to_owned(a));
    v.push(to_owned(b));
    v.push(to_owned(c));
    proof {
        assert(strings_view(v@) =~= seq![a@, b@, c@]);
    }
    v
}

fn strs4(a: &str, b: &str, c: &str, d: &str) -> (v: Vec<String>)
    ensures
        strings_view(v@) == seq![a@, b@, c@, d@],
{
    let mut v: Vec<String> = Vec::new();
    v.push(to_owned(a));
    v.push(to_owned(b));
    v.push(to_owned(c));
    v.push(to_owned(d));
    proof {
        assert(strings_view(v@) =~= seq![a@, b@, c@, d@]);
    }
    v
}

fn strs5(a: &str, b: &str, c: &str, d: &str, e: &str) -> (v: Vec<String>)
    ensures
        strings_view(v@) == seq![a@, b@, c@, d@, e@],
{
    let mut v: Vec<String> = Vec::new();
    v.push(to_owned(a));
    v.push(to_owned(b));
    v.push(to_owned(c));
    v.push(to_owned(d));
    v.push(to_owned(e));
    proof {
        assert(strings_view(v@) =~= seq![a@, b@, c@, d@, e@]);
    }
    v
}

fn strs6(a: &str, b: &str, c: &str, d: &str, e: &str, f: &str) -> (v: Vec<String>)
    ensures
        strings_view(v@) == seq![a@, b@, c@, d@, e@, f@],
{
    let mut v = strs5(a, b, c, d, e);
    let ghost before = v@;
    v.push(to_owned(f));
    proof {
        assert(strings_view(v@) =~= strings_view(before).push(f@));
    }
    v
}

fn strs7(a: &str, b: &str, c: &str, d: &str, e: &str, f: &str, g: &str) -> (v: Vec<String>)
    ensures
        strings_view(v@) == seq![a@, b@, c@, d@, e@, f@, g@],
{
    let mut v = strs6(a, b, c, d, e, f);
    let ghost before = v@;
    v.push(to_owned(g));
    proof {
        assert(strings_view(v@) =~= strings_view(before).push(g@));
    }
    v
}

/// `Other(msg)`.
fn other_error(msg: String) -> (e: MizError)
    ensures
        e == MizError::Other(msg),
{
    MizError::Other(msg)
}

// ---------------------------------------------------------------------------
// What the host reports, decided
// ---------------------------------------------------------------------------

/// The paths among ESP entries whose file name is a UKI of `version`.
pub open spec fn matching_paths(entries: Seq<(String, String)>, version: Seq<char>) -> Seq<
    Seq<char>,
>
    decreases entries.len(),
{
    if entries.len() == 0 {
        seq![]
    } else if uki_name_matches(entries.last().1@, version) {
        matching_paths(entries.drop_last(), version).push(entries.last().0@)
    } else {
        matching_paths(entries.drop_last(), version)
    }
}

fn uki_paths(entries: &Vec<(String, String)>, version: &str) -> (r: Vec<String>)
    ensures
        strings_view(r@) == matching_paths(entries@, version@),
{
    let mut out: Vec<String> = Vec::new();
    let mut i: usize = 0;
    while i < entries.len()
        invariant
            0 <= i <= entries@.len(),
            strings_view(out@) == matching_paths(entries@.take(i as int), version@),
        decreases entries@.len() - i,
    {
        proof {
            assert(entries@.take(i + 1).drop_last() =~= entries@.take(i as int));
            assert(entries@.take(i + 1).last() == entries@[i as int]);
        }
        if uki_matches_version(entries[i].1.as_str(), version) {
            let ghost before = out@;
            out.push(entries[i].0.clone());
            proof {
                assert(strings_view(out@) =~= strings_view(before).push(entries@[i as int].0@));
            }
        }
        i = i + 1;
    }
    proof {
        assert(entries@.take(entries@.len() as int) =~= entries@);
    }
    out
}

/// The one partition labelled `label` in `lsblk` output, or the refusal.
pub open spec fn label_pick(text: Seq<char>, label: Seq<char>) -> Result<Seq<char>, Seq<char>> {
    let ps = labelled_paths(lines(text), label);
    if ps.len() == 1 {
        Ok(ps[0])
    } else if ps.len() == 0 {
        Err("no partition with GPT label "@ + debug_text(label) + " found (is the new /usr slot written?)"@)
    } else {
        Err("multiple partitions with GPT label "@ + debug_text(label)
            + "; refusing to guess which /usr to open"@)
    }
}

/// The one UKI among `found`, or the refusal.
pub open spec fn uki_pick(version: Seq<char>, found: Seq<Seq<char>>) -> Result<Seq<char>, Seq<char>> {
    if found.len() == 1 {
        Ok(found[0])
    } else if found.len() == 0 {
        Err("no UKI for version "@ + version
            + " found on the ESP (/efi,/boot,/boot/efi); the new /usr root hash cannot be read"@)
    } else {
        Err("multiple UKIs for version "@ + version + " found across ESP mountpoints ("@
            + debug_list(found) + "); refusing to guess which to trust"@)
    }
}

/// The verity root hash that the UKI at `uki` holding `data` carries on its
/// command line (see [`usrhash_pick`]), or why it cannot be had.
pub open spec fn uki_usrhash(uki: Seq<char>, version: Seq<char>, data: Seq<u8>) -> Result<Seq<char>, Seq<char>> {
    match uki_cmdline_of(uki, data) {
        Ok(c) => usrhash_pick(uki, version, c),
        Err(m) => Err(m),
    }
}

/// The verity root hash of a UKI command line that pins the new version's
/// root subvolume, or the refusal.
pub open spec fn usrhash_pick(uki: Seq<char>, version: Seq<char>, c: Seq<char>) -> Result<
    Seq<char>,
    Seq<char>,
> {
    if !pins_subvol(c, version) {
        Err("UKI "@ + uki + " does not pin rootflags=subvol="@ + subvol_name(version)
            + " (its cmdline: "@ + debug_text(c)
            + "); refusing to relay -- the new UKI would not boot the root snapshot we build, breaking version-matched rollback"@)
    } else {
        match usrhash_of(c) {
            Some(h) => Ok(h),
            None => Err("UKI "@ + uki + " .cmdline has no usrhash= (cannot open the new /usr verity): "@
                + debug_text(c)),
        }
    }
}

/// The canonical new root, or the refusal.
pub open spec fn root_pick(canon: Result<String, String>) -> Result<Seq<char>, Seq<char>> {
    match canon {
        Err(e) => Err("refusing to relay: target root "@ + NEXT_ROOT@ + " cannot be canonicalized: "@
            + e@),
        Ok(c) => if under_run(c@) {
            Ok(c@)
        } else {
            Err("refusing to relay: target root "@ + NEXT_ROOT@ + " does not resolve under /run/ (got "@
                + c@ + "); aborting to protect the live system"@)
        },
    }
}

/// `act` runs the command `label` with `argv`.
pub open spec fn runs(act: RelayAction, label: Seq<char>, argv: Seq<Seq<char>>) -> bool {
    act matches RelayAction::Run(c) && is_cmd(c, label, argv)
}

/// `act` creates directory `p`.
pub open spec fn creates(act: RelayAction, p: Seq<char>) -> bool {
    act matches RelayAction::CreateDir(d) && d@ == p
}

/// `act` asks whether `p` exists.
pub open spec fn probes(act: RelayAction, p: Seq<char>) -> bool {
    act matches RelayAction::Exists(d) && d@ == p
}

/// `act` warns with `text`.
pub open spec fn warns(act: RelayAction, text: Seq<char>) -> bool {
    act matches RelayAction::Warn(w) && w@ == text
}

/// `act` prints `text`.
pub open spec fn prints(act: RelayAction, text: Seq<char>) -> bool {
    act matches RelayAction::Print(w) && w@ == text
}

/// `act` reads the command line of UKI `p`.
pub open spec fn reads_cmdline(act: RelayAction, p: Seq<char>) -> bool {
    act matches RelayAction::ReadUkiCmdline(d) && d@ == p
}

/// `act` canonicalizes `p`.
pub open spec fn canonicalizes(act: RelayAction, p: Seq<char>) -> bool {
    act matches RelayAction::Canonicalize(d) && d@ == p
}

/// `act` reads the image version of os-release file `p`.
pub open spec fn reads_version(act: RelayAction, p: Seq<char>) -> bool {
    act matches RelayAction::ReadImageVersion(d) && d@ == p
}

/// `act` lists the subvolumes under `p`.
pub open spec fn lists_subvols(act: RelayAction, p: Seq<char>) -> bool {
    act matches RelayAction::ListSubvols(d) && d@ == p
}

// ---------------------------------------------------------------------------
// Transitions
// ---------------------------------------------------------------------------

/// The events each phase takes.
pub open spec fn accepts(phase: RelayPhase, ev: RelayEvent) -> bool {
    match phase {
        RelayPhase::Start => ev is Begin,
        RelayPhase::Running | RelayPhase::Staged => ev is Version,
        RelayPhase::Device | RelayPhase::LsblkData | RelayPhase::LsblkHash | RelayPhase::Canon
        | RelayPhase::ListPrune => ev is Output,
        RelayPhase::Cmdline => ev is Bytes,
        RelayPhase::CheckOld | RelayPhase::CheckNew | RelayPhase::StaleMapper => ev is Exists,
        RelayPhase::FindUki => ev is Entries,
        RelayPhase::Upgrade => ev is Upgraded,
        RelayPhase::PruneAck | RelayPhase::Report | RelayPhase::TearAck => ev is Ack,
        RelayPhase::Finished => false,
        _ => ev is Done,
    }
}

/// The facts gathered so far are kept, but for the one numbered `which`
/// (in the order they are learned: running version, device, data partition,
/// hash partition, UKI, root hash, canonical root).
pub open spec fn keeps_but(pre: LiveRelay, post: LiveRelay, which: int) -> bool {
    &&& post.new_version == pre.new_version
    &&& post.quiet == pre.quiet
    &&& which != 0 ==> post.running == pre.running
    &&& which != 1 ==> post.device == pre.device
    &&& which != 2 ==> post.usr_data == pre.usr_data
    &&& which != 3 ==> post.usr_hash_dev == pre.usr_hash_dev
    &&& which != 4 ==> post.uki == pre.uki && post.ukis == pre.ukis
    &&& which != 5 ==> post.roothash == pre.roothash
    &&& which != 6 ==> post.canon_root == pre.canon_root
}

/// Every fact gathered so far is kept.
pub open spec fn keeps(pre: LiveRelay, post: LiveRelay) -> bool {
    keeps_but(pre, post, -1)
}

/// The relay goes on to `phase` having learned fact `which`, its teardown
/// and queues unchanged.
pub open spec fn learns(pre: LiveRelay, post: LiveRelay, phase: RelayPhase, which: int) -> bool {
    &&& post.phase == phase
    &&& keeps_but(pre, post, which)
    &&& post.teardown == pre.teardown
    &&& post.pending == pre.pending
    &&& post.prune == pre.prune
    &&& post.result == pre.result
}

/// The relay goes on to `phase` with `act`, its teardown and queues unchanged.
pub open spec fn advances(pre: LiveRelay, post: LiveRelay, phase: RelayPhase) -> bool {
    &&& post.phase == phase
    &&& keeps(pre, post)
    &&& post.teardown == pre.teardown
    &&& post.pending == pre.pending
    &&& post.prune == pre.prune
    &&& post.result == pre.result
}

/// As [`advances`], after registering one teardown step for `label`/`argv`.
pub open spec fn registers(
    pre: LiveRelay,
    post: LiveRelay,
    phase: RelayPhase,
    failure_only: bool,
    label: Seq<char>,
    argv: Seq<Seq<char>>,
) -> bool {
    &&& post.phase == phase
    &&& keeps(pre, post)
    &&& post.teardown.committed == pre.teardown.committed
    &&& post.teardown.steps@.len() == pre.teardown.steps@.len() + 1
    &&& post.teardown.steps@.drop_last() == pre.teardown.steps@
    &&& post.teardown.steps@.last().failure_only == failure_only
    &&& is_cmd(post.teardown.steps@.last().cmd, label, argv)
    &&& post.pending == pre.pending
    &&& post.prune == pre.prune
    &&& post.result == pre.result
}

/// The next teardown command is issued, or, with none left, the relay
/// finishes with its outcome.
pub open spec fn tears_next(pending: Seq<PlannedCommand>, result: Option<MizError>, post: LiveRelay, act: RelayAction) -> bool {
    &&& post.result == result
    &&& if pending.len() > 0 {
        &&& post.phase == RelayPhase::Tearing
        &&& act == RelayAction::Run(pending[0])
        &&& post.pending@ == pending.drop_first()
    } else {
        &&& post.phase == RelayPhase::Finished
        &&& post.pending@.len() == 0
        &&& act == RelayAction::Finish(
            match result {
                Some(e) => Err(e),
                None => Ok(()),
            },
        )
    }
}

/// The relay ends with `e`: the registered teardown runs in reverse, the
/// failure-only steps too unless committed.
pub open spec fn fails(pre: LiveRelay, post: LiveRelay, e: MizError, act: RelayAction) -> bool {
    &&& keeps(pre, post)
    &&& post.teardown.steps@.len() == 0
    &&& !post.teardown.committed
    &&& tears_next(run_order(pre.teardown.steps@, pre.teardown.committed), Some(e), post, act)
}

/// [`fails`] with an `Other` error carrying `msg`.
pub open spec fn fails_with(pre: LiveRelay, post: LiveRelay, msg: Seq<char>, act: RelayAction) -> bool {
    post.result matches Some(MizError::Other(m)) && m@ == msg && fails(pre, post, post.result->0, act)
}

/// [`fails_with`] the refusal, or else `ok`.
pub open spec fn decides(r: Result<Seq<char>, Seq<char>>, pre: LiveRelay, post: LiveRelay, act: RelayAction, ok: bool) -> bool {
    match r {
        Err(m) => fails_with(pre, post, m, act),
        Ok(_) => ok,
    }
}

/// The teardown starts: what was registered runs in reverse, the relay
/// having succeeded.
pub open spec fn tears_down(pre: LiveRelay, post: LiveRelay, act: RelayAction) -> bool {
    &&& keeps(pre, post)
    &&& post.teardown.steps@.len() == 0
    &&& !post.teardown.committed
    &&& tears_next(run_order(pre.teardown.steps@, pre.teardown.committed), pre.result, post, act)
}

/// The success report, unless quiet, then the teardown.
pub open spec fn reports(pre: LiveRelay, post: LiveRelay, act: RelayAction) -> bool {
    if pre.quiet {
        tears_down(pre, post, act)
    } else {
        &&& advances(pre, post, RelayPhase::Report)
        &&& prints(act, "relayed layered packages onto "@ + subvol_name(
            pre.new_version@,
        ))
    }
}

/// The next of `queue` is deleted, or, with none left, the report follows.
pub open spec fn prunes_next(pre: LiveRelay, queue: Seq<Seq<char>>, post: LiveRelay, act: RelayAction) -> bool {
    if queue.len() > 0 {
        &&& post.phase == RelayPhase::Pruning
        &&& keeps(pre, post)
        &&& post.teardown == pre.teardown
        &&& post.pending == pre.pending
        &&& post.result == pre.result
        &&& strings_view(post.prune@) == queue.drop_first()
        &&& post.current@ == queue[0]
        &&& runs(act,
            "prune old root snapshot"@,
            seq!["btrfs"@, "subvolume"@, "delete"@, path_in(TOPLEVEL_MOUNT@, queue[0])],
        )
    } else {
        reports(pre, post, act)
    }
}

/// The removal of each UKI in `ukis` is registered as failure-only just below
/// the snapshot delete (the first failure-only step), so that a failure
/// deletes the half-built snapshot first and then removes the UKIs.
pub open spec fn uki_rollback_inserted(pre: Seq<TeardownStep>, post: Seq<TeardownStep>, ukis: Seq<String>) -> bool {
    let at = failure_slot(pre);
    &&& post.len() == pre.len() + ukis.len()
    &&& post.take(at) == pre.take(at)
    &&& post.skip(at + ukis.len()) == pre.skip(at)
    &&& forall|k: int|
        0 <= k < ukis.len() ==> #[trigger] post[at + k].failure_only && is_cmd(
            post[at + k].cmd,
            "roll back: remove the new UKI so the failed update is not boot-selected"@,
            seq!["rm"@, "-f"@, ukis[k]@],
        )
}

/// One step of the relay from `pre` on `ev` to `post`, issuing `act`.
pub open spec fn relay_step(pre: LiveRelay, ev: RelayEvent, post: LiveRelay, act: RelayAction) -> bool {
    let nv = pre.new_version@;
    let old_path = path_in(TOPLEVEL_MOUNT@, subvol_name(pre.running@));
    let new_path = path_in(TOPLEVEL_MOUNT@, subvol_name(nv));
    let upper = path_in(NEXT_ROOT@, "var/lib/extensions.mutable/usr"@);
    let work = path_in(NEXT_ROOT@, "var/lib/extensions.mutable/.usr-work"@);
    let mapper = "/dev/mapper/"@ + USR_VERITY_NEXT@;
    match pre.phase {
        RelayPhase::Start => advances(pre, post, RelayPhase::Running) && act is ReadRunningVersion,
        RelayPhase::Running => match ev {
            RelayEvent::Version(Some(r)) => if r@ == nv {
                fails_with(
                    pre,
                    post,
                    "new version "@ + nv + " equals the running version; nothing to relay"@,
                    act,
                )
            } else {
                learns(pre, post, RelayPhase::Device, 0) && post.running == r && act is Findmnt
            },
            _ => fails_with(
                pre,
                post,
                "cannot determine the running IMAGE_VERSION from os-release; cannot name the root subvolume to snapshot"@,
                act,
            ),
        },
        RelayPhase::Device => match ev {
            RelayEvent::Output(Ok(t)) => decides(
                crate::images::relay::findmnt_result(t@),
                pre,
                post,
                act,
                learns(pre, post, RelayPhase::MkTop, 1) && Ok::<Seq<char>, Seq<char>>(post.device@)
                    == crate::images::relay::findmnt_result(t@) && creates(act, TOPLEVEL_MOUNT@),
            ),
            RelayEvent::Output(Err(m)) => fails_with(pre, post, m@, act),
            _ => true,
        },
        RelayPhase::MkTop => match ev {
            RelayEvent::Done(Ok(_)) => advances(pre, post, RelayPhase::MountTop) && runs(act,
                "mount btrfs top-level"@,
                seq!["mount"@, "-o"@, "subvolid=5"@, pre.device@, TOPLEVEL_MOUNT@],
            ),
            RelayEvent::Done(Err(m)) => fails_with(
                pre,
                post,
                "cannot create "@ + TOPLEVEL_MOUNT@ + ": "@ + m@,
                act,
            ),
            _ => true,
        },
        RelayPhase::MountTop => match ev {
            RelayEvent::Done(Ok(_)) => registers(
                pre,
                post,
                RelayPhase::CheckOld,
                false,
                "unmount btrfs top-level"@,
                seq!["umount"@, TOPLEVEL_MOUNT@],
            ) && probes(act, old_path),
            RelayEvent::Done(Err(m)) => fails_with(pre, post, m@, act),
            _ => true,
        },
        RelayPhase::CheckOld => match ev {
            RelayEvent::Exists(true) => advances(pre, post, RelayPhase::CheckNew) && probes(act, new_path),
            _ => fails_with(
                pre,
                post,
                "running root has no "@ + subvol_name(pre.running@)
                    + " subvolume at the btrfs top-level; this system predates versioned-root. Reinstall to adopt it (no in-place migration)."@,
                act,
            ),
        },
        RelayPhase::CheckNew => match ev {
            RelayEvent::Exists(false) => advances(pre, post, RelayPhase::Snapshot) && runs(act,
                "snapshot root subvolume for the new version"@,
                seq!["btrfs"@, "subvolume"@, "snapshot"@, old_path, new_path],
            ),
            _ => fails_with(
                pre,
                post,
                subvol_name(nv)
                    + " already exists at the btrfs top-level (interrupted prior update?). Delete it and retry: btrfs subvolume delete "@
                    + new_path,
                act,
            ),
        },
        RelayPhase::Snapshot => match ev {
            RelayEvent::Done(Ok(_)) => registers(
                pre,
                post,
                RelayPhase::MkNext,
                true,
                "delete the half-built new snapshot"@,
                seq!["btrfs"@, "subvolume"@, "delete"@, new_path],
            ) && creates(act, NEXT_ROOT@),
            RelayEvent::Done(Err(m)) => fails_with(pre, post, m@, act),
            _ => true,
        },
        RelayPhase::MkNext => match ev {
            RelayEvent::Done(Ok(_)) => advances(pre, post, RelayPhase::MountNext) && runs(act,
                "mount the new root snapshot"@,
                seq!["mount"@, "-o"@, "subvol="@ + subvol_name(nv), pre.device@, NEXT_ROOT@],
            ),
            RelayEvent::Done(Err(m)) => fails_with(pre, post, "cannot create "@ + NEXT_ROOT@ + ": "@ + m@, act),
            _ => true,
        },
        RelayPhase::MountNext => match ev {
            RelayEvent::Done(Ok(_)) => registers(
                pre,
                post,
                RelayPhase::LsblkData,
                false,
                "unmount the new root snapshot"@,
                seq!["umount"@, NEXT_ROOT@],
            ) && act is Lsblk,
            RelayEvent::Done(Err(m)) => fails_with(pre, post, m@, act),
            _ => true,
        },
        RelayPhase::LsblkData => match ev {
            RelayEvent::Output(Ok(t)) => decides(
                label_pick(t@, "archetype_"@ + nv),
                pre,
                post,
                act,
                learns(pre, post, RelayPhase::LsblkHash, 2) && Ok::<Seq<char>, Seq<char>>(
                    post.usr_data@,
                ) == label_pick(t@, "archetype_"@ + nv) && act is Lsblk,
            ),
            RelayEvent::Output(Err(m)) => fails_with(pre, post, "failed to run lsblk: "@ + m@, act),
            _ => true,
        },
        RelayPhase::LsblkHash => match ev {
            RelayEvent::Output(Ok(t)) => decides(
                label_pick(t@, "archetype_"@ + nv + "_verity"@),
                pre,
                post,
                act,
                learns(pre, post, RelayPhase::FindUki, 3) && Ok::<Seq<char>, Seq<char>>(
                    post.usr_hash_dev@,
                ) == label_pick(t@, "archetype_"@ + nv + "_verity"@) && act is ListEspEntries,
            ),
            RelayEvent::Output(Err(m)) => fails_with(pre, post, "failed to run lsblk: "@ + m@, act),
            _ => true,
        },
        RelayPhase::FindUki => match ev {
            RelayEvent::Entries(es) => decides(
                uki_pick(nv, matching_paths(es@, nv)),
                pre,
                post,
                act,
                learns(pre, post, RelayPhase::Cmdline, 4) && Ok::<Seq<char>, Seq<char>>(post.uki@)
                    == uki_pick(nv, matching_paths(es@, nv)) && strings_view(post.ukis@)
                    == matching_paths(es@, nv) && reads_cmdline(act, post.uki@),
            ),
            _ => true,
        },
        RelayPhase::Cmdline => match ev {
            RelayEvent::Bytes(Ok(d)) => decides(
                uki_usrhash(pre.uki@, nv, d@),
                pre,
                post,
                act,
                post.phase == RelayPhase::StaleMapper && keeps_but(pre, post, 5) && post.pending
                    == pre.pending && post.prune == pre.prune && post.result == pre.result
                    && Ok::<Seq<char>, Seq<char>>(post.roothash@) == uki_usrhash(pre.uki@, nv, d@)
                    && post.teardown.committed == pre.teardown.committed && uki_rollback_inserted(
                    pre.teardown.steps@,
                    post.teardown.steps@,
                    pre.ukis@,
                ) && probes(act, mapper),
            ),
            RelayEvent::Bytes(Err(m)) => fails_with(pre, post, m@, act),
            _ => true,
        },
        RelayPhase::StaleMapper => match ev {
            RelayEvent::Exists(true) => advances(pre, post, RelayPhase::CloseStale) && runs(act,
                "close stale new-/usr verity mapper"@,
                seq!["veritysetup"@, "close"@, USR_VERITY_NEXT@],
            ),
            _ => advances(pre, post, RelayPhase::VerityOpen) && runs(act,
                "verity-open the new /usr"@,
                seq![
                    "veritysetup"@,
                    "open"@,
                    pre.usr_data@,
                    USR_VERITY_NEXT@,
                    pre.usr_hash_dev@,
                    pre.roothash@,
                ],
            ),
        },
        RelayPhase::CloseStale => advances(pre, post, RelayPhase::VerityOpen) && runs(act,
            "verity-open the new /usr"@,
            seq![
                "veritysetup"@,
                "open"@,
                pre.usr_data@,
                USR_VERITY_NEXT@,
                pre.usr_hash_dev@,
                pre.roothash@,
            ],
        ),
        RelayPhase::VerityOpen => match ev {
            RelayEvent::Done(Ok(_)) => registers(
                pre,
                post,
                RelayPhase::MkLower,
                false,
                "close the new /usr verity mapper"@,
                seq!["veritysetup"@, "close"@, USR_VERITY_NEXT@],
            ) && creates(act, USR_LOWER_MOUNT@),
            RelayEvent::Done(Err(m)) => fails_with(pre, post, m@, act),
            _ => true,
        },
        RelayPhase::MkLower => match ev {
            RelayEvent::Done(Ok(_)) => advances(pre, post, RelayPhase::MountLower) && runs(act,
                "mount the new /usr (overlay lowerdir, ro)"@,
                seq!["mount"@, "-o"@, "ro"@, mapper, USR_LOWER_MOUNT@],
            ),
            RelayEvent::Done(Err(m)) => fails_with(
                pre,
                post,
                "cannot create "@ + USR_LOWER_MOUNT@ + ": "@ + m@,
                act,
            ),
            _ => true,
        },
        RelayPhase::MountLower => match ev {
            RelayEvent::Done(Ok(_)) => registers(
                pre,
                post,
                RelayPhase::MkUpper,
                false,
                "unmount the /usr overlay lowerdir"@,
                seq!["umount"@, USR_LOWER_MOUNT@],
            ) && creates(act, upper),
            RelayEvent::Done(Err(m)) => fails_with(pre, post, m@, act),
            _ => true,
        },
        RelayPhase::MkUpper => match ev {
            RelayEvent::Done(Ok(_)) => advances(pre, post, RelayPhase::MkWork) && creates(act, work),
            RelayEvent::Done(Err(m)) => fails_with(pre, post, "cannot create /usr overlay upper: "@ + m@, act),
            _ => true,
        },
        RelayPhase::MkWork => match ev {
            RelayEvent::Done(Ok(_)) => advances(pre, post, RelayPhase::MountOverlay) && runs(act,
                "mount the writable /usr overlay into the snapshot"@,
                seq![
                    "mount"@,
                    "-t"@,
                    "overlay"@,
                    "archetype-usr-overlay"@,
                    "-o"@,
                    "lowerdir="@ + USR_LOWER_MOUNT@ + ",upperdir="@ + upper + ",workdir="@ + work,
                    path_in(NEXT_ROOT@, "usr"@),
                ],
            ),
            RelayEvent::Done(Err(m)) => fails_with(pre, post, "cannot create /usr overlay work: "@ + m@, act),
            _ => true,
        },
        RelayPhase::MountOverlay => match ev {
            RelayEvent::Done(Ok(_)) => registers(
                pre,
                post,
                RelayPhase::Canon,
                false,
                "unmount the /usr overlay"@,
                seq!["umount"@, path_in(NEXT_ROOT@, "usr"@)],
            ) && canonicalizes(act, NEXT_ROOT@),
            RelayEvent::Done(Err(m)) => fails_with(pre, post, m@, act),
            _ => true,
        },
        RelayPhase::Canon => match ev {
            RelayEvent::Output(c) => decides(
                root_pick(c),
                pre,
                post,
                act,
                learns(pre, post, RelayPhase::Staged, 6) && Ok::<Seq<char>, Seq<char>>(
                    post.canon_root@,
                ) == root_pick(c) && reads_version(act, path_in(
                    post.canon_root@,
                    "usr/lib/os-release"@,
                ))
            ),
            _ => true,
        },
        RelayPhase::Staged => match ev {
            RelayEvent::Version(v) => if v matches Some(x) && x@ == nv {
                advances(pre, post, RelayPhase::Upgrade) && (act matches RelayAction::Sysupgrade {
                    root,
                    dbpath,
                    image_db,
                    archive_date,
                } && root@ == pre.canon_root@ && dbpath@ == path_in(pre.canon_root@, "var/lib/miz"@)
                    && image_db@ == path_in(pre.canon_root@, "usr/lib/miz/db"@) && archive_date@
                    == date_of_version(nv))
            } else {
                fails_with(
                pre,
                post,
                "mounted /usr reports version "@ + debug_text(
                    match v {
                        Some(x) => x@,
                        None => "<unknown>"@,
                    },
                ) + ", expected "@ + nv + "; refusing to upgrade against the wrong image"@,
                act,
                )
            },
            _ => true,
        },
        RelayPhase::Upgrade => match ev {
            RelayEvent::Upgraded(Ok(_)) => {
                &&& post.phase == RelayPhase::ListPrune
                &&& keeps(pre, post)
                &&& post.teardown.committed
                &&& post.teardown.steps@ == pre.teardown.steps@
                &&& post.result == pre.result
                &&& lists_subvols(act, TOPLEVEL_MOUNT@)
            },
            RelayEvent::Upgraded(Err(e)) => fails(pre, post, e, act),
            _ => true,
        },
        RelayPhase::ListPrune => match ev {
            RelayEvent::Output(Ok(t)) => prunes_next(
                pre,
                prune_list(archetype_paths(subvol_paths(lines(t@))), seq![nv, pre.running@]),
                post,
                act,
            ),
            RelayEvent::Output(Err(m)) => if pre.quiet {
                reports(pre, post, act)
            } else {
                advances(pre, post, RelayPhase::PruneAck) && warns(act, "warning: could not list root snapshots to prune: "@ + m@)
            },
            _ => true,
        },
        RelayPhase::Pruning => match ev {
            RelayEvent::Done(Err(m)) => if pre.quiet {
                prunes_next(pre, strings_view(pre.prune@), post, act)
            } else {
                advances(pre, post, RelayPhase::PruneAck) && warns(act, "warning: could not prune "@ + pre.current@ + ": "@ + m@)
            },
            _ => prunes_next(pre, strings_view(pre.prune@), post, act),
        },
        RelayPhase::PruneAck => prunes_next(pre, strings_view(pre.prune@), post, act),
        RelayPhase::Report => tears_down(pre, post, act),
        RelayPhase::Tearing => match ev {
            RelayEvent::Done(Err(m)) => advances(pre, post, RelayPhase::TearAck) && warns(act, "warning: relay teardown step failed (possible leak): "@ + m@),
            _ => keeps(pre, post) && post.teardown == pre.teardown && tears_next(
                pre.pending@,
                pre.result,
                post,
                act,
            ),
        },
        RelayPhase::TearAck => keeps(pre, post) && post.teardown == pre.teardown && tears_next(
            pre.pending@,
            pre.result,
            post,
            act,
        ),
        RelayPhase::Finished => true,
    }
}

/// An identical error value.
fn copy_error(e: &MizError) -> (r: MizError)
    ensures
        r == *e,
{
    match e {
        MizError::Alpm(m) => MizError::Alpm(m.clone()),
        MizError::Io(m) => MizError::Io(m.clone()),
        MizError::Regex(m) => MizError::Regex(m.clone()),
        MizError::Toml { path, source } => MizError::Toml { path: path.clone(), source: source.clone() },
        MizError::PackageNotFound(m) => MizError::PackageNotFound(m.clone()),
        MizError::NotImplemented => MizError::NotImplemented,
        MizError::Sysupdate(m) => MizError::Sysupdate(m.clone()),
        MizError::Dbus(m) => MizError::Dbus(m.clone()),
        MizError::Deptest => MizError::Deptest,
        MizError::DatabaseErrors(n) => MizError::DatabaseErrors(*n),
        MizError::BadArgs(m) => MizError::BadArgs(m.clone()),
        MizError::Other(m) => MizError::Other(m.clone()),
    }
}

/// `prefix` followed by `rest`.
fn message(prefix: &str, rest: &str) -> (r: String)
    ensures
        r@ == prefix@ + rest@,
{
    crate::text::concat2(prefix, rest)
}

/// The relay of `-Iu` onto `new_version`, before its first step.
pub fn live_execute(new_version: &str, quiet: bool) -> (r: LiveRelay)
    ensures
        r.phase == RelayPhase::Start,
        r.new_version@ == new_version@,
        r.quiet == quiet,
        r.teardown.steps@.len() == 0,
        !r.teardown.committed,
        r.pending@.len() == 0,
        r.prune@.len() == 0,
        r.result is None,
{
    LiveRelay {
        phase: RelayPhase::Start,
        new_version: to_owned(new_version),
        quiet,
        running: String::new(),
        device: String::new(),
        usr_data: String::new(),
        usr_hash_dev: String::new(),
        uki: String::new(),
        ukis: Vec::new(),
        roothash: String::new(),
        canon_root: String::new(),
        teardown: Teardown::new(),
        pending: Vec::new(),
        prune: Vec::new(),
        current: String::new(),
        result: None,
    }
}

impl LiveRelay {
    /// Whether the relay, in its current phase, takes `ev`.
    pub fn accepts_event(&self, ev: &RelayEvent) -> (r: bool)
        ensures
            r == accepts(self.phase, *ev),
    {
        match self.phase {
            RelayPhase::Start => matches!(ev, RelayEvent::Begin),
            RelayPhase::Running | RelayPhase::Staged => matches!(ev, RelayEvent::Version(_)),
            RelayPhase::Device | RelayPhase::LsblkData | RelayPhase::LsblkHash
            | RelayPhase::Canon | RelayPhase::ListPrune => matches!(ev, RelayEvent::Output(_)),
            RelayPhase::Cmdline => matches!(ev, RelayEvent::Bytes(_)),
            RelayPhase::CheckOld | RelayPhase::CheckNew | RelayPhase::StaleMapper => matches!(
                ev,
                RelayEvent::Exists(_)
            ),
            RelayPhase::FindUki => matches!(ev, RelayEvent::Entries(_)),
            RelayPhase::Upgrade => matches!(ev, RelayEvent::Upgraded(_)),
            RelayPhase::PruneAck | RelayPhase::Report | RelayPhase::TearAck => matches!(
                ev,
                RelayEvent::Ack
            ),
            RelayPhase::Finished => false,
            _ => matches!(ev, RelayEvent::Done(_)),
        }
    }

    /// Issue the next teardown command, or finish.
    fn tear_next(&mut self) -> (act: RelayAction)
        ensures
            keeps(*old(self), *final(self)),
            final(self).teardown == old(self).teardown,
            final(self).prune == old(self).prune,
            tears_next(old(self).pending@, old(self).result, *final(self), act),
    {
        if self.pending.len() > 0 {
            let c = self.pending.remove(0);
            self.phase = RelayPhase::Tearing;
            proof {
                assert(self.pending@ =~= old(self).pending@.drop_first());
            }
            RelayAction::Run(c)
        } else {
            self.phase = RelayPhase::Finished;
            let r = match &self.result {
                Some(e) => Err(copy_error(e)),
                None => Ok(()),
            };
            RelayAction::Finish(r)
        }
    }

    /// Start the teardown: what was registered, in reverse.
    fn tear_start(&mut self) -> (act: RelayAction)
        ensures
            tears_down(*old(self), *final(self), act),
            final(self).prune == old(self).prune,
    {
        let mut td = Teardown::new();
        core::mem::swap(&mut td, &mut self.teardown);
        self.pending = td.into_pending();
        self.tear_next()
    }

    /// End with `e`.
    fn fail(&mut self, e: MizError) -> (act: RelayAction)
        ensures
            fails(*old(self), *final(self), e, act),
    {
        self.result = Some(e);
        self.tear_start()
    }

    /// End with an `Other` error carrying `msg`.
    fn fail_msg(&mut self, msg: String) -> (act: RelayAction)
        ensures
            fails_with(*old(self), *final(self), msg@, act),
    {
        self.fail(other_error(msg))
    }

    /// The success report, unless quiet, then the teardown.
    fn report(&mut self) -> (act: RelayAction)
        ensures
            reports(*old(self), *final(self), act),
    {
        if self.quiet {
            self.tear_start()
        } else {
            let sv = subvol_for_version(self.new_version.as_str());
            self.phase = RelayPhase::Report;
            RelayAction::Print(message("relayed layered packages onto ", sv.as_str()))
        }
    }

    /// Delete the next queued snapshot, or report.
    fn prune_next(&mut self) -> (act: RelayAction)
        ensures
            prunes_next(*old(self), strings_view(old(self).prune@), *final(self), act),
    {
        if self.prune.len() > 0 {
            let name = self.prune.remove(0);
            let path = join_path(TOPLEVEL_MOUNT, name.as_str());
            let c = command(
                "prune old root snapshot",
                strs4("btrfs", "subvolume", "delete", path.as_str()),
            );
            self.current = name;
            self.phase = RelayPhase::Pruning;
            proof {
                assert(strings_view(self.prune@) =~= strings_view(old(self).prune@).drop_first());
            }
            RelayAction::Run(c)
        } else {
            self.report()
        }
    }

    /// Register a teardown step and move on.
    fn register(&mut self, failure_only: bool, c: PlannedCommand, phase: RelayPhase)
        ensures
            final(self).phase == phase,
            keeps(*old(self), *final(self)),
            final(self).teardown.committed == old(self).teardown.committed,
            final(self).teardown.steps@ == old(self).teardown.steps@.push(
                TeardownStep { cmd: c, failure_only },
            ),
            final(self).teardown.steps@.drop_last() == old(self).teardown.steps@,
            final(self).teardown.steps@.last() == (TeardownStep { cmd: c, failure_only }),
            final(self).pending == old(self).pending,
            final(self).prune == old(self).prune,
            final(self).result == old(self).result,
    {
        if failure_only {
            self.teardown.on_failure(c);
        } else {
            self.teardown.always(c);
        }
        self.phase = phase;
        proof {
            assert(self.teardown.steps@.drop_last() =~= old(self).teardown.steps@);
        }
    }

    /// The `verity-open` command of the new `/usr`.
    fn verity_open(&self) -> (c: PlannedCommand)
        ensures
            is_cmd(
                c,
                "verity-open the new /usr"@,
                seq![
                    "veritysetup"@,
                    "open"@,
                    self.usr_data@,
                    USR_VERITY_NEXT@,
                    self.usr_hash_dev@,
                    self.roothash@,
                ],
            ),
    {
        command(
            "verity-open the new /usr",
            strs6(
                "veritysetup",
                "open",
                self.usr_data.as_str(),
                USR_VERITY_NEXT,
                self.usr_hash_dev.as_str(),
                self.roothash.as_str(),
            ),
        )
    }
}

impl LiveRelay {
    /// One step: decide what follows what the host reported for the last
    /// action.
    pub fn step(&mut self, ev: RelayEvent) -> (act: RelayAction)
        requires
            accepts(old(self).phase, ev),
        ensures
            relay_step(*old(self), ev, *final(self), act),
    {
        match self.phase {
            RelayPhase::Start | RelayPhase::Running | RelayPhase::Device | RelayPhase::MkTop
            | RelayPhase::MountTop | RelayPhase::CheckOld | RelayPhase::CheckNew
            | RelayPhase::Snapshot | RelayPhase::MkNext | RelayPhase::MountNext => self.step_setup(ev),
            RelayPhase::LsblkData | RelayPhase::LsblkHash | RelayPhase::FindUki
            | RelayPhase::Cmdline | RelayPhase::StaleMapper | RelayPhase::CloseStale => self.step_usr(ev),
            RelayPhase::VerityOpen | RelayPhase::MkLower | RelayPhase::MountLower
            | RelayPhase::MkUpper | RelayPhase::MkWork | RelayPhase::MountOverlay
            | RelayPhase::Canon | RelayPhase::Staged => self.step_mounts(ev),
            _ => self.step_finish(ev),
        }
    }

    fn step_setup(&mut self, ev: RelayEvent) -> (act: RelayAction)
        requires
            accepts(old(self).phase, ev),
            old(self).phase == RelayPhase::Start || old(self).phase == RelayPhase::Running
                || old(self).phase == RelayPhase::Device || old(self).phase == RelayPhase::MkTop
                || old(self).phase == RelayPhase::MountTop || old(self).phase == RelayPhase::CheckOld
                || old(self).phase == RelayPhase::CheckNew || old(self).phase == RelayPhase::Snapshot
                || old(self).phase == RelayPhase::MkNext || old(self).phase == RelayPhase::MountNext,
        ensures
            relay_step(*old(self), ev, *final(self), act),
    {
        match self.phase {
            RelayPhase::Start => {
                self.phase = RelayPhase::Running;
                RelayAction::ReadRunningVersion
            },
            RelayPhase::Running => match ev {
                RelayEvent::Version(Some(r)) => {
                    if str_eq(r.as_str(), self.new_version.as_str()) {
                        let mut m = to_owned("new version ");
                        push_str(&mut m, self.new_version.as_str());
                        push_str(&mut m, " equals the running version; nothing to relay");
                        self.fail_msg(m)
                    } else {
                        self.running = r;
                        self.phase = RelayPhase::Device;
                        RelayAction::Findmnt
                    }
                },
                _ => self.fail_msg(
                    to_owned(
                        "cannot determine the running IMAGE_VERSION from os-release; cannot name the root subvolume to snapshot",
                    ),
                ),
            },
            RelayPhase::Device => match ev {
                RelayEvent::Output(Ok(t)) => match crate::images::relay::parse_findmnt_source(
                    t.as_str(),
                ) {
                    Ok(d) => {
                        self.device = d;
                        self.phase = RelayPhase::MkTop;
                        RelayAction::CreateDir(to_owned(TOPLEVEL_MOUNT))
                    },
                    Err(e) => self.fail(e),
                },
                RelayEvent::Output(Err(m)) => self.fail_msg(m),
                _ => RelayAction::Finish(Ok(())),
            },
            RelayPhase::MkTop => match ev {
                RelayEvent::Done(Ok(_)) => {
                    self.phase = RelayPhase::MountTop;
                    RelayAction::Run(
                        command(
                            "mount btrfs top-level",
                            strs5("mount", "-o", "subvolid=5", self.device.as_str(), TOPLEVEL_MOUNT),
                        ),
                    )
                },
                RelayEvent::Done(Err(m)) => {
                    let mut t = to_owned("cannot create ");
                    push_str(&mut t, TOPLEVEL_MOUNT);
                    push_str(&mut t, ": ");
                    push_str(&mut t, m.as_str());
                    self.fail_msg(t)
                },
                _ => RelayAction::Finish(Ok(())),
            },
            RelayPhase::MountTop => match ev {
                RelayEvent::Done(Ok(_)) => {
                    self.register(
                        false,
                        command("unmount btrfs top-level", strs2("umount", TOPLEVEL_MOUNT)),
                        RelayPhase::CheckOld,
                    );
                    let old = subvol_for_version(self.running.as_str());
                    RelayAction::Exists(join_path(TOPLEVEL_MOUNT, old.as_str()))
                },
                RelayEvent::Done(Err(m)) => self.fail_msg(m),
                _ => RelayAction::Finish(Ok(())),
            },
            RelayPhase::CheckOld => match ev {
                RelayEvent::Exists(true) => {
                    self.phase = RelayPhase::CheckNew;
                    let new = subvol_for_version(self.new_version.as_str());
                    RelayAction::Exists(join_path(TOPLEVEL_MOUNT, new.as_str()))
                },
                _ => {
                    let old = subvol_for_version(self.running.as_str());
                    let mut m = to_owned("running root has no ");
                    push_str(&mut m, old.as_str());
                    push_str(
                        &mut m,
                        " subvolume at the btrfs top-level; this system predates versioned-root. Reinstall to adopt it (no in-place migration).",
                    );
                    self.fail_msg(m)
                },
            },
            RelayPhase::CheckNew => {
                let old = subvol_for_version(self.running.as_str());
                let new = subvol_for_version(self.new_version.as_str());
                let old_path = join_path(TOPLEVEL_MOUNT, old.as_str());
                let new_path = join_path(TOPLEVEL_MOUNT, new.as_str());
                match ev {
                    RelayEvent::Exists(false) => {
                        self.phase = RelayPhase::Snapshot;
                        RelayAction::Run(
                            command(
                                "snapshot root subvolume for the new version",
                                strs5(
                                    "btrfs",
                                    "subvolume",
                                    "snapshot",
                                    old_path.as_str(),
                                    new_path.as_str(),
                                ),
                            ),
                        )
                    },
                    _ => {
                        let mut m = new;
                        push_str(
                            &mut m,
                            " already exists at the btrfs top-level (interrupted prior update?). Delete it and retry: btrfs subvolume delete ",
                        );
                        push_str(&mut m, new_path.as_str());
                        self.fail_msg(m)
                    },
                }
            },
            RelayPhase::Snapshot => match ev {
                RelayEvent::Done(Ok(_)) => {
                    let new = subvol_for_version(self.new_version.as_str());
                    let new_path = join_path(TOPLEVEL_MOUNT, new.as_str());
                    self.register(
                        true,
                        command(
                            "delete the half-built new snapshot",
                            strs4("btrfs", "subvolume", "delete", new_path.as_str()),
                        ),
                        RelayPhase::MkNext,
                    );
                    RelayAction::CreateDir(to_owned(NEXT_ROOT))
                },
                RelayEvent::Done(Err(m)) => self.fail_msg(m),
                _ => RelayAction::Finish(Ok(())),
            },
            RelayPhase::MkNext => match ev {
                RelayEvent::Done(Ok(_)) => {
                    let new = subvol_for_version(self.new_version.as_str());
                    let opt = message("subvol=", new.as_str());
                    self.phase = RelayPhase::MountNext;
                    RelayAction::Run(
                        command(
                            "mount the new root snapshot",
                            strs5("mount", "-o", opt.as_str(), self.device.as_str(), NEXT_ROOT),
                        ),
                    )
                },
                RelayEvent::Done(Err(m)) => {
                    let mut t = to_owned("cannot create ");
                    push_str(&mut t, NEXT_ROOT);
                    push_str(&mut t, ": ");
                    push_str(&mut t, m.as_str());
                    self.fail_msg(t)
                },
                _ => RelayAction::Finish(Ok(())),
            },
            _ => match ev {
                RelayEvent::Done(Ok(_)) => {
                    self.register(
                        false,
                        command("unmount the new root snapshot", strs2("umount", NEXT_ROOT)),
                        RelayPhase::LsblkData,
                    );
                    RelayAction::Lsblk
                },
                RelayEvent::Done(Err(m)) => self.fail_msg(m),
                _ => RelayAction::Finish(Ok(())),
            },
        }
    }
}

impl LiveRelay {
    fn step_usr(&mut self, ev: RelayEvent) -> (act: RelayAction)
        requires
            accepts(old(self).phase, ev),
            old(self).phase == RelayPhase::LsblkData || old(self).phase == RelayPhase::LsblkHash
                || old(self).phase == RelayPhase::FindUki || old(self).phase == RelayPhase::Cmdline
                || old(self).phase == RelayPhase::StaleMapper || old(self).phase
                == RelayPhase::CloseStale,
        ensures
            relay_step(*old(self), ev, *final(self), act),
    {
        match self.phase {
            RelayPhase::LsblkData | RelayPhase::LsblkHash => {
                let data = self.phase == RelayPhase::LsblkData;
                let mut label = to_owned("archetype_");
                push_str(&mut label, self.new_version.as_str());
                if !data {
                    push_str(&mut label, "_verity");
                }
                match ev {
                    RelayEvent::Output(Ok(t)) => {
                        let r = partition_by_label(t.as_str(), label.as_str());
                        proof {
                            if r is Err {
                                let ps = labelled_paths(lines(t@), label@);
                                assert(ps.len() != 1);
                            }
                        }
                        match r {
                            Ok(p) => {
                                if data {
                                    self.usr_data = p;
                                    self.phase = RelayPhase::LsblkHash;
                                    RelayAction::Lsblk
                                } else {
                                    self.usr_hash_dev = p;
                                    self.phase = RelayPhase::FindUki;
                                    RelayAction::ListEspEntries
                                }
                            },
                            Err(e) => self.fail(e),
                        }
                    },
                    RelayEvent::Output(Err(m)) => self.fail_msg(
                        message("failed to run lsblk: ", m.as_str()),
                    ),
                    _ => RelayAction::Finish(Ok(())),
                }
            },
            RelayPhase::FindUki => match ev {
                RelayEvent::Entries(es) => {
                    let found = uki_paths(&es, self.new_version.as_str());
                    let r = choose_uki(self.new_version.as_str(), &found);
                    match r {
                        Ok(u) => {
                            self.uki = u;
                            self.ukis = found;
                            self.phase = RelayPhase::Cmdline;
                            RelayAction::ReadUkiCmdline(self.uki.clone())
                        },
                        Err(e) => self.fail(e),
                    }
                },
                _ => RelayAction::Finish(Ok(())),
            },
            RelayPhase::Cmdline => match ev {
                RelayEvent::Bytes(Ok(d)) => {
                    let c = match uki_cmdline(self.uki.as_str(), d.as_slice()) {
                        Ok(c) => Ok(c),
                        Err(m) => Err(other_error(m)),
                    };
                    let r = usrhash_from_uki(self.uki.as_str(), self.new_version.as_str(), c);
                    match r {
                        Ok(h) => {
                            self.roothash = h;
                            self.register_uki_removal();
                            self.phase = RelayPhase::StaleMapper;
                            RelayAction::Exists(message("/dev/mapper/", USR_VERITY_NEXT))
                        },
                        Err(e) => self.fail(e),
                    }
                },
                RelayEvent::Bytes(Err(m)) => self.fail_msg(m),
                _ => RelayAction::Finish(Ok(())),
            },
            RelayPhase::StaleMapper => match ev {
                RelayEvent::Exists(true) => {
                    self.phase = RelayPhase::CloseStale;
                    RelayAction::Run(
                        command(
                            "close stale new-/usr verity mapper",
                            strs3("veritysetup", "close", USR_VERITY_NEXT),
                        ),
                    )
                },
                _ => {
                    self.phase = RelayPhase::VerityOpen;
                    RelayAction::Run(self.verity_open())
                },
            },
            _ => {
                self.phase = RelayPhase::VerityOpen;
                RelayAction::Run(self.verity_open())
            },
        }
    }

    /// Register the removal of every UKI of the new version, run only if the
    /// relay fails, so a failed update is not boot-selected; placed below the
    /// snapshot delete, so it runs after it.
    fn register_uki_removal(&mut self)
        ensures
            keeps(*old(self), *final(self)),
            final(self).phase == old(self).phase,
            final(self).pending == old(self).pending,
            final(self).prune == old(self).prune,
            final(self).result == old(self).result,
            final(self).teardown.committed == old(self).teardown.committed,
            uki_rollback_inserted(old(self).teardown.steps@, final(self).teardown.steps@, old(self).ukis@),
    {
        let ghost base = self.teardown.steps@;
        proof {
            lemma_failure_slot(base);
        }
        let at = first_failure_only(&self.teardown.steps);
        let mut i: usize = 0;
        while i < self.ukis.len()
            invariant
                0 <= i <= self.ukis@.len(),
                self.ukis == old(self).ukis,
                keeps(*old(self), *self),
                self.phase == old(self).phase,
                self.pending == old(self).pending,
                self.prune == old(self).prune,
                self.result == old(self).result,
                self.teardown.committed == old(self).teardown.committed,
                base == old(self).teardown.steps@,
                at == failure_slot(base),
                0 <= at <= base.len(),
                self.teardown.steps@.len() == base.len() + i,
                self.teardown.steps@.take(at as int) == base.take(at as int),
                self.teardown.steps@.skip(at + i) == base.skip(at as int),
                forall|k: int|
                    0 <= k < i ==> #[trigger] self.teardown.steps@[at + k].failure_only && is_cmd(
                        self.teardown.steps@[at + k].cmd,
                        "roll back: remove the new UKI so the failed update is not boot-selected"@,
                        seq!["rm"@, "-f"@, self.ukis@[k]@],
                    ),
            decreases self.ukis@.len() - i,
        {
            let c = command(
                "roll back: remove the new UKI so the failed update is not boot-selected",
                strs3("rm", "-f", self.ukis[i].as_str()),
            );
            let ghost before = self.teardown.steps@;
            let ghost cg = c;
            let _n: usize = self.teardown.steps.len();
            self.teardown.on_failure_at(at + i, c);
            proof {
                let after = self.teardown.steps@;
                assert(after.take(at as int) =~= before.take(at as int));
                assert(after.skip(at + i + 1) =~= before.skip(at + i));
                assert forall|k: int| 0 <= k < i + 1 implies #[trigger] self.teardown.steps@[at + k].failure_only
                    && is_cmd(
                    self.teardown.steps@[at + k].cmd,
                    "roll back: remove the new UKI so the failed update is not boot-selected"@,
                    seq!["rm"@, "-f"@, self.ukis@[k]@],
                ) by {
                    if k < i {
                        assert(after[at + k] == before[at + k]);
                    } else {
                        assert(after[at + k] == TeardownStep { cmd: cg, failure_only: true });
                    }
                }
            }
            i = i + 1;
        }
    }

    fn step_mounts(&mut self, ev: RelayEvent) -> (act: RelayAction)
        requires
            accepts(old(self).phase, ev),
            old(self).phase == RelayPhase::VerityOpen || old(self).phase == RelayPhase::MkLower
                || old(self).phase == RelayPhase::MountLower || old(self).phase == RelayPhase::MkUpper
                || old(self).phase == RelayPhase::MkWork || old(self).phase
                == RelayPhase::MountOverlay || old(self).phase == RelayPhase::Canon
                || old(self).phase == RelayPhase::Staged,
        ensures
            relay_step(*old(self), ev, *final(self), act),
    {
        let upper = join_path(NEXT_ROOT, "var/lib/extensions.mutable/usr");
        let work = join_path(NEXT_ROOT, "var/lib/extensions.mutable/.usr-work");
        let usr = join_path(NEXT_ROOT, "usr");
        match self.phase {
            RelayPhase::VerityOpen => match ev {
                RelayEvent::Done(Ok(_)) => {
                    self.register(
                        false,
                        command(
                            "close the new /usr verity mapper",
                            strs3("veritysetup", "close", USR_VERITY_NEXT),
                        ),
                        RelayPhase::MkLower,
                    );
                    RelayAction::CreateDir(to_owned(USR_LOWER_MOUNT))
                },
                RelayEvent::Done(Err(m)) => self.fail_msg(m),
                _ => RelayAction::Finish(Ok(())),
            },
            RelayPhase::MkLower => match ev {
                RelayEvent::Done(Ok(_)) => {
                    let mapper = message("/dev/mapper/", USR_VERITY_NEXT);
                    self.phase = RelayPhase::MountLower;
                    RelayAction::Run(
                        command(
                            "mount the new /usr (overlay lowerdir, ro)",
                            strs5("mount", "-o", "ro", mapper.as_str(), USR_LOWER_MOUNT),
                        ),
                    )
                },
                RelayEvent::Done(Err(m)) => {
                    let mut t = to_owned("cannot create ");
                    push_str(&mut t, USR_LOWER_MOUNT);
                    push_str(&mut t, ": ");
                    push_str(&mut t, m.as_str());
                    self.fail_msg(t)
                },
                _ => RelayAction::Finish(Ok(())),
            },
            RelayPhase::MountLower => match ev {
                RelayEvent::Done(Ok(_)) => {
                    self.register(
                        false,
                        command("unmount the /usr overlay lowerdir", strs2("umount", USR_LOWER_MOUNT)),
                        RelayPhase::MkUpper,
                    );
                    RelayAction::CreateDir(upper)
                },
                RelayEvent::Done(Err(m)) => self.fail_msg(m),
                _ => RelayAction::Finish(Ok(())),
            },
            RelayPhase::MkUpper => match ev {
                RelayEvent::Done(Ok(_)) => {
                    self.phase = RelayPhase::MkWork;
                    RelayAction::CreateDir(work)
                },
                RelayEvent::Done(Err(m)) => self.fail_msg(
                    message("cannot create /usr overlay upper: ", m.as_str()),
                ),
                _ => RelayAction::Finish(Ok(())),
            },
            RelayPhase::MkWork => match ev {
                RelayEvent::Done(Ok(_)) => {
                    let mut opts = to_owned("lowerdir=");
                    push_str(&mut opts, USR_LOWER_MOUNT);
                    push_str(&mut opts, ",upperdir=");
                    push_str(&mut opts, upper.as_str());
                    push_str(&mut opts, ",workdir=");
                    push_str(&mut opts, work.as_str());
                    self.phase = RelayPhase::MountOverlay;
                    RelayAction::Run(
                        command(
                            "mount the writable /usr overlay into the snapshot",
                            strs7(
                                "mount",
                                "-t",
                                "overlay",
                                "archetype-usr-overlay",
                                "-o",
                                opts.as_str(),
                                usr.as_str(),
                            ),
                        ),
                    )
                },
                RelayEvent::Done(Err(m)) => self.fail_msg(
                    message("cannot create /usr overlay work: ", m.as_str()),
                ),
                _ => RelayAction::Finish(Ok(())),
            },
            RelayPhase::MountOverlay => match ev {
                RelayEvent::Done(Ok(_)) => {
                    self.register(
                        false,
                        command("unmount the /usr overlay", strs2("umount", usr.as_str())),
                        RelayPhase::Canon,
                    );
                    RelayAction::Canonicalize(to_owned(NEXT_ROOT))
                },
                RelayEvent::Done(Err(m)) => self.fail_msg(m),
                _ => RelayAction::Finish(Ok(())),
            },
            RelayPhase::Canon => match ev {
                RelayEvent::Output(c) => match assert_root_under_run(NEXT_ROOT, c) {
                    Ok(root) => {
                        let p = join_path(root.as_str(), "usr/lib/os-release");
                        self.canon_root = root;
                        self.phase = RelayPhase::Staged;
                        RelayAction::ReadImageVersion(p)
                    },
                    Err(e) => self.fail(e),
                },
                _ => RelayAction::Finish(Ok(())),
            },
            _ => match ev {
                RelayEvent::Version(v) => {
                    let ok = match &v {
                        Some(x) => str_eq(x.as_str(), self.new_version.as_str()),
                        None => false,
                    };
                    if ok {
                        self.phase = RelayPhase::Upgrade;
                        RelayAction::Sysupgrade {
                            root: self.canon_root.clone(),
                            dbpath: join_path(self.canon_root.as_str(), "var/lib/miz"),
                            image_db: join_path(self.canon_root.as_str(), "usr/lib/miz/db"),
                            archive_date: image_date(self.new_version.as_str()),
                        }
                    } else {
                        let shown = match &v {
                            Some(x) => crate::images::relay::debug_str(x.as_str()),
                            None => crate::images::relay::debug_str("<unknown>"),
                        };
                        let mut m = to_owned("mounted /usr reports version ");
                        push_str(&mut m, shown.as_str());
                        push_str(&mut m, ", expected ");
                        push_str(&mut m, self.new_version.as_str());
                        push_str(&mut m, "; refusing to upgrade against the wrong image");
                        self.fail_msg(m)
                    }
                },
                _ => RelayAction::Finish(Ok(())),
            },
        }
    }

    fn step_finish(&mut self, ev: RelayEvent) -> (act: RelayAction)
        requires
            accepts(old(self).phase, ev),
            old(self).phase == RelayPhase::Upgrade || old(self).phase == RelayPhase::ListPrune
                || old(self).phase == RelayPhase::Pruning || old(self).phase == RelayPhase::PruneAck
                || old(self).phase == RelayPhase::Report || old(self).phase == RelayPhase::Tearing
                || old(self).phase == RelayPhase::TearAck,
        ensures
            relay_step(*old(self), ev, *final(self), act),
    {
        match self.phase {
            RelayPhase::Upgrade => match ev {
                RelayEvent::Upgraded(Ok(_)) => {
                    self.teardown.commit();
                    self.phase = RelayPhase::ListPrune;
                    RelayAction::ListSubvols(to_owned(TOPLEVEL_MOUNT))
                },
                RelayEvent::Upgraded(Err(e)) => self.fail(e),
                _ => RelayAction::Finish(Ok(())),
            },
            RelayPhase::ListPrune => match ev {
                RelayEvent::Output(Ok(t)) => {
                    let existing = archetype_subvols(t.as_str());
                    let keep: [&str; 2] = [self.new_version.as_str(), self.running.as_str()];
                    let names = snapshots_to_prune(&existing, &keep);
                    proof {
                        assert(crate::images::relay::keep_views(keep@) =~= seq![
                            self.new_version@,
                            self.running@,
                        ]);
                    }
                    if names.len() > 0 {
                        self.prune = names;
                        self.prune_next()
                    } else {
                        self.report()
                    }
                },
                RelayEvent::Output(Err(m)) => {
                    if self.quiet {
                        self.report()
                    } else {
                        self.phase = RelayPhase::PruneAck;
                        RelayAction::Warn(
                            message("warning: could not list root snapshots to prune: ", m.as_str()),
                        )
                    }
                },
                _ => RelayAction::Finish(Ok(())),
            },
            RelayPhase::Pruning => match ev {
                RelayEvent::Done(Err(m)) => {
                    if self.quiet {
                        self.prune_next()
                    } else {
                        let mut w = to_owned("warning: could not prune ");
                        push_str(&mut w, self.current.as_str());
                        push_str(&mut w, ": ");
                        push_str(&mut w, m.as_str());
                        self.phase = RelayPhase::PruneAck;
                        RelayAction::Warn(w)
                    }
                },
                _ => self.prune_next(),
            },
            RelayPhase::PruneAck => self.prune_next(),
            RelayPhase::Report => self.tear_start(),
            RelayPhase::Tearing => match ev {
                RelayEvent::Done(Err(m)) => {
                    self.phase = RelayPhase::TearAck;
                    RelayAction::Warn(
                        message("warning: relay teardown step failed (possible leak): ", m.as_str()),
                    )
                },
                _ => self.tear_next(),
            },
            _ => self.tear_next(),
        }
    }
}

// ---------------------------------------------------------------------------
// Laws
// ---------------------------------------------------------------------------

/// The root snapshot is taken only right after the new version's subvolume
/// was found absent, which in turn is checked only right after the running
/// version's subvolume was found present.
pub proof fn snapshot_only_after_both_checks(pre: LiveRelay, ev: RelayEvent, post: LiveRelay, act: RelayAction)
    requires
        accepts(pre.phase, ev),
        relay_step(pre, ev, post, act),
    ensures
        post.phase == RelayPhase::Snapshot ==> pre.phase == RelayPhase::CheckNew && ev == RelayEvent::Exists(false),
        post.phase == RelayPhase::CheckNew ==> pre.phase == RelayPhase::CheckOld && ev == RelayEvent::Exists(true),
{
}

/// The teardown is committed (its failure-only steps dropped) only when the
/// layered-package upgrade succeeded.
pub proof fn commits_only_after_upgrade(pre: LiveRelay, ev: RelayEvent, post: LiveRelay, act: RelayAction)
    requires
        accepts(pre.phase, ev),
        relay_step(pre, ev, post, act),
        !pre.teardown.committed,
    ensures
        post.teardown.committed ==> pre.phase == RelayPhase::Upgrade && ev matches RelayEvent::Upgraded(Ok(_)),
{
}

/// A failure before the commit runs every registered teardown step, the
/// failure-only ones included, last registered first; the relay then ends
/// with that failure.
pub proof fn failure_undoes_everything_in_reverse(pre: LiveRelay, ev: RelayEvent, post: LiveRelay, act: RelayAction)
    requires
        accepts(pre.phase, ev),
        relay_step(pre, ev, post, act),
        pre.phase != RelayPhase::Tearing && pre.phase != RelayPhase::TearAck,
        pre.result is None,
        post.result is Some,
        !pre.teardown.committed,
    ensures
        post.teardown.steps@.len() == 0,
        match act {
            RelayAction::Run(c) => seq![c] + post.pending@ == pre.teardown.steps@.reverse().map_values(
                |s: TeardownStep| s.cmd,
            ),
            RelayAction::Finish(r) => pre.teardown.steps@.len() == 0 && r == Err::<(), MizError>(
                post.result->0,
            ),
            _ => false,
        },
{
    crate::images::relay::teardown_runs_in_reverse(pre.teardown.steps@);
    let order = run_order(pre.teardown.steps@, false);
    if order.len() > 0 {
        assert(seq![order[0]] + order.drop_first() =~= order);
    } else {
        assert(pre.teardown.steps@.reverse().map_values(|s: TeardownStep| s.cmd).len() == 0);
    }
}

/// What the relay knows once the new root is mounted: it resolved under
/// `/run`.
pub open spec fn relay_inv(s: LiveRelay) -> bool {
    (s.phase == RelayPhase::Staged || s.phase == RelayPhase::Upgrade) ==> under_run(s.canon_root@)
}

/// The relay starts in a state meeting [`relay_inv`], and every step keeps it.
pub proof fn relay_inv_holds(pre: LiveRelay, ev: RelayEvent, post: LiveRelay, act: RelayAction)
    requires
        accepts(pre.phase, ev),
        relay_step(pre, ev, post, act),
        relay_inv(pre),
    ensures
        relay_inv(post),
{
}

/// The upgrade runs only in a root that resolved under `/run` and whose
/// mounted `/usr` reported the new version; it writes its database there.
pub proof fn upgrade_only_in_checked_root(pre: LiveRelay, ev: RelayEvent, post: LiveRelay, act: RelayAction)
    requires
        accepts(pre.phase, ev),
        relay_step(pre, ev, post, act),
        relay_inv(pre),
    ensures
        act matches RelayAction::Sysupgrade { root, dbpath, .. } ==> under_run(root@) && dbpath@ == path_in(
            root@,
            "var/lib/miz"@,
        ) && pre.phase == RelayPhase::Staged && (ev matches RelayEvent::Version(Some(v)) && v@
            == pre.new_version@),
{
}


// ---------------------------------------------------------------------------
// Failing closed before the snapshot
// ---------------------------------------------------------------------------

/// The phases before the root snapshot is taken.
pub open spec fn before_snapshot(p: RelayPhase) -> bool {
    ||| p == RelayPhase::Start
    ||| p == RelayPhase::Running
    ||| p == RelayPhase::Device
    ||| p == RelayPhase::MkTop
    ||| p == RelayPhase::MountTop
    ||| p == RelayPhase::CheckOld
    ||| p == RelayPhase::CheckNew
}

/// The phases of the closing teardown.
pub open spec fn tearing_phase(p: RelayPhase) -> bool {
    p == RelayPhase::Tearing || p == RelayPhase::TearAck || p == RelayPhase::Finished
}

/// The unmount of the btrfs top-level.
pub open spec fn top_umount(c: PlannedCommand) -> bool {
    is_cmd(c, "unmount btrfs top-level"@, seq!["umount"@, TOPLEVEL_MOUNT@])
}

/// A relay that has not passed the snapshot checks, or is tearing down
/// after failing before them: at most the top-level unmount is registered
/// or queued, and a teardown carries its failure.
pub open spec fn closed(s: LiveRelay) -> bool {
    &&& before_snapshot(s.phase) || tearing_phase(s.phase)
    &&& tearing_phase(s.phase) ==> s.result is Some
    &&& forall|i: int| 0 <= i < s.teardown.steps@.len() ==> top_umount(#[trigger] s.teardown.steps@[i].cmd)
    &&& forall|i: int| 0 <= i < s.pending@.len() ==> top_umount(#[trigger] s.pending@[i])
}

/// An action that changes nothing but the top-level mount: reading the
/// running version, `findmnt`, a probe, a warning, creating, mounting or
/// unmounting the top-level mount point, or ending with a failure.
pub open spec fn harmless(act: RelayAction) -> bool {
    ||| act is ReadRunningVersion
    ||| act is Findmnt
    ||| act is Exists
    ||| act is Warn
    ||| creates(act, TOPLEVEL_MOUNT@)
    ||| act matches RelayAction::Run(c) && (top_umount(c) || (c.label@ == "mount btrfs top-level"@
        && strings_view(c.argv@) == seq!["mount"@, "-o"@, "subvolid=5"@, strings_view(c.argv@)[3], TOPLEVEL_MOUNT@]))
    ||| act matches RelayAction::Finish(Err(_))
}

/// The refusals before the snapshot: no running version, a running version
/// equal to the new one, no subvolume for the running version, or one
/// already there for the new version.
pub open spec fn refuses(s: LiveRelay, ev: RelayEvent) -> bool {
    ||| s.phase == RelayPhase::Running && (ev matches RelayEvent::Version(None) || (ev matches RelayEvent::Version(
        Some(r),
    ) && r@ == s.new_version@))
    ||| s.phase == RelayPhase::CheckOld && ev matches RelayEvent::Exists(false)
    ||| s.phase == RelayPhase::CheckNew && ev matches RelayEvent::Exists(true)
}

proof fn lemma_run_order_top(steps: Seq<TeardownStep>, committed: bool)
    requires
        forall|i: int| 0 <= i < steps.len() ==> top_umount(#[trigger] steps[i].cmd),
    ensures
        forall|i: int| 0 <= i < run_order(steps, committed).len() ==> top_umount(#[trigger] run_order(steps, committed)[i]),
    decreases steps.len(),
{
    if steps.len() > 0 {
        assert forall|i: int| 0 <= i < steps.drop_last().len() implies top_umount(#[trigger] steps.drop_last()[i].cmd) by {
            assert(steps.drop_last()[i] == steps[i]);
        }
        lemma_run_order_top(steps.drop_last(), committed);
        assert(top_umount(steps[steps.len() - 1].cmd));
        let rest = run_order(steps.drop_last(), committed);
        assert forall|i: int| 0 <= i < (seq![steps.last().cmd] + rest).len() implies top_umount(
            #[trigger] (seq![steps.last().cmd] + rest)[i],
        ) by {
            if i > 0 {
                assert((seq![steps.last().cmd] + rest)[i] == rest[i - 1]);
            }
        }
    }
}

/// One step keeps a relay [`closed`] and its action [`harmless`], unless it
/// is the step into the snapshot.
proof fn lemma_closed_step(pre: LiveRelay, ev: RelayEvent, post: LiveRelay, act: RelayAction)
    requires
        accepts(pre.phase, ev),
        relay_step(pre, ev, post, act),
        closed(pre),
        !(pre.phase == RelayPhase::CheckNew && ev matches RelayEvent::Exists(false)),
    ensures
        closed(post),
        harmless(act),
{
    reveal_strlit("umount");
    lemma_run_order_top(pre.teardown.steps@, pre.teardown.committed);
    let order = run_order(pre.teardown.steps@, pre.teardown.committed);
    if tearing_phase(pre.phase) && pre.pending@.len() > 0 {
        assert forall|i: int| 0 <= i < pre.pending@.drop_first().len() implies top_umount(
            #[trigger] pre.pending@.drop_first()[i],
        ) by {
            assert(pre.pending@.drop_first()[i] == pre.pending@[i + 1]);
        }
    }
    if !tearing_phase(pre.phase) && order.len() > 0 {
        assert forall|i: int| 0 <= i < order.drop_first().len() implies top_umount(#[trigger] order.drop_first()[i]) by {
            assert(order.drop_first()[i] == order[i + 1]);
        }
    }
    if pre.phase == RelayPhase::MountTop && ev matches RelayEvent::Done(Ok(_)) {
        assert forall|i: int| 0 <= i < post.teardown.steps@.len() implies top_umount(
            #[trigger] post.teardown.steps@[i].cmd,
        ) by {
            if i < pre.teardown.steps@.len() {
                assert(post.teardown.steps@[i] == post.teardown.steps@.drop_last()[i]);
            }
        }
    }
}

/// From a phase past the snapshot checks no step leads back to them.
proof fn lemma_no_return(pre: LiveRelay, ev: RelayEvent, post: LiveRelay, act: RelayAction)
    requires
        accepts(pre.phase, ev),
        relay_step(pre, ev, post, act),
        !before_snapshot(pre.phase),
    ensures
        !before_snapshot(post.phase),
        tearing_phase(pre.phase) ==> tearing_phase(post.phase),
{
}

/// A failing step ends in the teardown.
proof fn lemma_refusal_tears(pre: LiveRelay, ev: RelayEvent, post: LiveRelay, act: RelayAction)
    requires
        accepts(pre.phase, ev),
        relay_step(pre, ev, post, act),
        refuses(pre, ev),
    ensures
        tearing_phase(post.phase),
{
}

/// A valid run of the relay: `acts[i]` and `ss[i + 1]` follow from `ss[i]`
/// on `es[i]`.
pub open spec fn relay_run(ss: Seq<LiveRelay>, es: Seq<RelayEvent>, acts: Seq<RelayAction>) -> bool {
    &&& ss.len() == es.len() + 1
    &&& acts.len() == es.len()
    &&& forall|i: int|
        0 <= i < es.len() ==> accepts((#[trigger] ss[i]).phase, es[i]) && relay_step(ss[i], es[i], ss[i + 1], acts[i])
}

proof fn lemma_run_stays(ss: Seq<LiveRelay>, es: Seq<RelayEvent>, acts: Seq<RelayAction>, a: int, b: int)
    requires
        relay_run(ss, es, acts),
        0 <= a <= b < ss.len(),
        !before_snapshot(ss[a].phase),
    ensures
        !before_snapshot(ss[b].phase),
        tearing_phase(ss[a].phase) ==> tearing_phase(ss[b].phase),
    decreases b - a,
{
    if a < b {
        lemma_no_return(ss[a], es[a], ss[a + 1], acts[a]);
        lemma_run_stays(ss, es, acts, a + 1, b);
    }
}

proof fn lemma_run_closed(ss: Seq<LiveRelay>, es: Seq<RelayEvent>, acts: Seq<RelayAction>, j: int)
    requires
        relay_run(ss, es, acts),
        0 <= j < ss.len(),
        closed(ss[0]),
        forall|k: int| 0 <= k < es.len() ==> !((#[trigger] ss[k]).phase == RelayPhase::CheckNew && es[k] matches RelayEvent::Exists(false)),
    ensures
        closed(ss[j]),
        j < es.len() ==> harmless(acts[j]),
    decreases j,
{
    if j > 0 {
        lemma_run_closed(ss, es, acts, j - 1);
        lemma_closed_step(ss[j - 1], es[j - 1], ss[j], acts[j - 1]);
    }
    if j < es.len() {
        lemma_closed_step(ss[j], es[j], ss[j + 1], acts[j]);
    }
}

/// The relay fails closed: in a run from the start in which it meets one of
/// its refusals before the snapshot (no running version, the running version
/// equal to the new one, no subvolume for the running version, or one
/// already there for the new one), no action takes a snapshot, deletes a
/// subvolume, removes a file, opens verity or runs a transaction: each only
/// reads, probes, warns, creates or (un)mounts the btrfs top-level, and a
/// finish is a failure.
pub proof fn law_fails_closed(ss: Seq<LiveRelay>, es: Seq<RelayEvent>, acts: Seq<RelayAction>, i: int)
    requires
        relay_run(ss, es, acts),
        ss[0].phase == RelayPhase::Start,
        ss[0].teardown.steps@.len() == 0,
        ss[0].pending@.len() == 0,
        0 <= i < es.len(),
        refuses(ss[i], es[i]),
    ensures
        forall|j: int| 0 <= j < acts.len() ==> harmless(#[trigger] acts[j]),
{
    assert forall|k: int| 0 <= k < es.len() implies !((#[trigger] ss[k]).phase == RelayPhase::CheckNew
        && es[k] matches RelayEvent::Exists(false)) by {
        if ss[k].phase == RelayPhase::CheckNew && es[k] matches RelayEvent::Exists(false) {
            assert(accepts(ss[i].phase, es[i]) && relay_step(ss[i], es[i], ss[i + 1], acts[i]));
            assert(accepts(ss[k].phase, es[k]) && relay_step(ss[k], es[k], ss[k + 1], acts[k]));
            if i < k {
                lemma_refusal_tears(ss[i], es[i], ss[i + 1], acts[i]);
                lemma_run_stays(ss, es, acts, i + 1, k);
            } else if k < i {
                assert(ss[k + 1].phase == RelayPhase::Snapshot);
                lemma_run_stays(ss, es, acts, k + 1, i);
            }
        }
    }
    assert forall|j: int| 0 <= j < acts.len() implies harmless(#[trigger] acts[j]) by {
        lemma_run_closed(ss, es, acts, j);
    }
}


// ---------------------------------------------------------------------------
// The teardown stack and the order of a failure's roll-back
// ---------------------------------------------------------------------------

/// The delete of the new version's half-built snapshot.
pub open spec fn snapshot_delete(c: PlannedCommand, nv: Seq<char>) -> bool {
    is_cmd(
        c,
        "delete the half-built new snapshot"@,
        seq!["btrfs"@, "subvolume"@, "delete"@, path_in(TOPLEVEL_MOUNT@, subvol_name(nv))],
    )
}

/// The removal of the UKI at `u`.
pub open spec fn uki_removal(c: PlannedCommand, u: Seq<char>) -> bool {
    is_cmd(c, "roll back: remove the new UKI so the failed update is not boot-selected"@, seq!["rm"@, "-f"@, u])
}

/// The phases after the snapshot is taken and before the UKI is located.
pub open spec fn snapshot_taken(p: RelayPhase) -> bool {
    ||| p == RelayPhase::MkNext
    ||| p == RelayPhase::MountNext
    ||| p == RelayPhase::LsblkData
    ||| p == RelayPhase::LsblkHash
    ||| p == RelayPhase::FindUki
    ||| p == RelayPhase::Cmdline
}

/// The phases after the UKI is located, up to the teardown.
pub open spec fn uki_located(p: RelayPhase) -> bool {
    ||| p == RelayPhase::StaleMapper
    ||| p == RelayPhase::CloseStale
    ||| p == RelayPhase::VerityOpen
    ||| p == RelayPhase::MkLower
    ||| p == RelayPhase::MountLower
    ||| p == RelayPhase::MkUpper
    ||| p == RelayPhase::MkWork
    ||| p == RelayPhase::MountOverlay
    ||| p == RelayPhase::Canon
    ||| p == RelayPhase::Staged
    ||| p == RelayPhase::Upgrade
    ||| p == RelayPhase::ListPrune
    ||| p == RelayPhase::Pruning
    ||| p == RelayPhase::PruneAck
    ||| p == RelayPhase::Report
}

/// The bottom of the teardown stack in each phase: nothing before the
/// top-level is mounted; then its unmount; then, once the snapshot is taken,
/// the snapshot delete above it; and once the UKI is located, the removal of
/// each UKI of the new version between the two.
pub open spec fn stack_shape(s: LiveRelay) -> bool {
    let st = s.teardown.steps@;
    let nv = s.new_version@;
    let n = s.ukis@.len() as int;
    if s.phase == RelayPhase::Start || s.phase == RelayPhase::Running || s.phase == RelayPhase::Device
        || s.phase == RelayPhase::MkTop || s.phase == RelayPhase::MountTop {
        st.len() == 0
    } else if s.phase == RelayPhase::CheckOld || s.phase == RelayPhase::CheckNew || s.phase
        == RelayPhase::Snapshot {
        st.len() == 1 && top_umount(st[0].cmd) && !st[0].failure_only
    } else if snapshot_taken(s.phase) {
        &&& st.len() >= 2
        &&& top_umount(st[0].cmd) && !st[0].failure_only
        &&& st[1].failure_only && snapshot_delete(st[1].cmd, nv)
        &&& forall|i: int| 2 <= i < st.len() ==> !(#[trigger] st[i]).failure_only
    } else if uki_located(s.phase) {
        &&& st.len() >= n + 2
        &&& top_umount(st[0].cmd) && !st[0].failure_only
        &&& forall|k: int|
            0 <= k < n ==> (#[trigger] st[1 + k]).failure_only && uki_removal(st[1 + k].cmd, s.ukis@[k]@)
        &&& st[1 + n].failure_only && snapshot_delete(st[1 + n].cmd, nv)
    } else {
        true
    }
}

/// Every step keeps [`stack_shape`].
#[verifier::rlimit(50)]
proof fn lemma_stack_shape_step(pre: LiveRelay, ev: RelayEvent, post: LiveRelay, act: RelayAction)
    requires
        accepts(pre.phase, ev),
        relay_step(pre, ev, post, act),
        stack_shape(pre),
    ensures
        stack_shape(post),
{
    let st = pre.teardown.steps@;
    let pt = post.teardown.steps@;
    if pt.len() == st.len() + 1 && pt.drop_last() == st {
        assert forall|i: int| 0 <= i < st.len() implies pt[i] == st[i] by {
            assert(pt.drop_last()[i] == pt[i]);
        }
    }
    if pre.phase == RelayPhase::Cmdline && st.len() >= 2 && !st[0].failure_only && st[1].failure_only {
        assert(st.drop_first()[0] == st[1]);
        assert(failure_slot(st.drop_first()) == 0);
        assert(failure_slot(st) == 1);
        let n = pre.ukis@.len() as int;
        if uki_rollback_inserted(st, pt, pre.ukis@) {
            assert(pt.take(1)[0] == pt[0]);
            assert(st.take(1)[0] == st[0]);
            assert(pt.skip(1 + n)[0] == pt[1 + n]);
            assert(st.skip(1)[0] == st[1]);
            assert forall|k: int| 0 <= k < n implies (#[trigger] pt[1 + k]).failure_only && uki_removal(
                pt[1 + k].cmd,
                pre.ukis@[k]@,
            ) by {
                assert(pt[1 + k] == pt[failure_slot(st) + k]);
            }
        }
    }
}

/// A run from the start keeps [`stack_shape`] in every state.
pub proof fn lemma_run_stack_shape(ss: Seq<LiveRelay>, es: Seq<RelayEvent>, acts: Seq<RelayAction>, j: int)
    requires
        relay_run(ss, es, acts),
        ss[0].phase == RelayPhase::Start,
        ss[0].teardown.steps@.len() == 0,
        0 <= j < ss.len(),
    ensures
        stack_shape(ss[j]),
    decreases j,
{
    if j > 0 {
        lemma_run_stack_shape(ss, es, acts, j - 1);
        lemma_stack_shape_step(ss[j - 1], es[j - 1], ss[j], acts[j - 1]);
    }
}

proof fn lemma_run_order_uncommitted(steps: Seq<TeardownStep>)
    ensures
        run_order(steps, false).len() == steps.len(),
        forall|i: int|
            0 <= i < steps.len() ==> #[trigger] run_order(steps, false)[i] == steps[steps.len() - 1 - i].cmd,
    decreases steps.len(),
{
    if steps.len() > 0 {
        lemma_run_order_uncommitted(steps.drop_last());
        let rest = run_order(steps.drop_last(), false);
        assert forall|i: int| 0 <= i < steps.len() implies #[trigger] run_order(steps, false)[i]
            == steps[steps.len() - 1 - i].cmd by {
            if i > 0 {
                assert((seq![steps.last().cmd] + rest)[i] == rest[i - 1]);
                assert(steps.drop_last()[steps.len() - 1 - i] == steps[steps.len() - 1 - i]);
            }
        }
    }
}

/// Once the UKI is located, a failure before the commit runs the teardown so
/// that the half-built snapshot is deleted first, then each UKI of the new
/// version is removed, and the btrfs top-level is unmounted last. (A failure
/// runs exactly these commands: see [`failure_undoes_everything_in_reverse`].)
pub proof fn law_failure_deletes_snapshot_then_removes_ukis(
    ss: Seq<LiveRelay>,
    es: Seq<RelayEvent>,
    acts: Seq<RelayAction>,
    j: int,
)
    requires
        relay_run(ss, es, acts),
        ss[0].phase == RelayPhase::Start,
        ss[0].teardown.steps@.len() == 0,
        0 <= j < ss.len(),
        uki_located(ss[j].phase),
        !ss[j].teardown.committed,
    ensures
        ({
            let o = run_order(ss[j].teardown.steps@, false);
            let n = ss[j].ukis@.len() as int;
            let l = o.len() as int;
            &&& l >= n + 2
            &&& snapshot_delete(o[l - 2 - n], ss[j].new_version@)
            &&& forall|k: int| 0 <= k < n ==> uki_removal(#[trigger] o[l - 2 - k], ss[j].ukis@[k]@)
            &&& top_umount(o[l - 1])
        }),
{
    lemma_run_stack_shape(ss, es, acts, j);
    let st = ss[j].teardown.steps@;
    lemma_run_order_uncommitted(st);
    let o = run_order(st, false);
    let n = ss[j].ukis@.len() as int;
    let l = o.len() as int;
    assert(o[l - 2 - n] == st[1 + n].cmd);
    assert(o[l - 1] == st[0].cmd);
    assert forall|k: int| 0 <= k < n implies uki_removal(#[trigger] o[l - 2 - k], ss[j].ukis@[k]@) by {
        assert(o[l - 2 - k] == st[1 + k].cmd);
    }
}

} // verus!
