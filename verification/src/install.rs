use vstd::prelude::*;
use vstd::utf8::encode_utf8;
use crate::config::{Entry, Ownership};
use crate::created::CreatedPaths;
use crate::paths::{get_limbo, same_path, spec_limbo_name, spec_path_components, spec_same_path};
use crate::text::{opt_view, views};

verus! {

/// What a managed path is to be.
#[derive(Debug, Clone, Copy, PartialEq, Eq, Structural)]
pub enum Kind {
    /// A regular file whose content is the entry's source.
    File,
    /// A symbolic link that points at the entry's source.
    Symlink,
}

/// What stands at a managed path now.
#[derive(Debug, PartialEq, Eq)]
pub enum Observation {
    /// Nothing.
    Missing,
    /// A regular file, with its content and its owner and mode (read only
    /// when a file is wanted there).
    File { content: Vec<u8>, owner: Ownership },
    /// A symbolic link, with the path it points at (read only when a link is
    /// wanted there).
    Symlink { target: String },
    /// Something else, or a file or link where the other kind is wanted.
    Other,
}

/// The permission bits of a mode: read, write and execute for owner, group
/// and others; file-type and setuid, setgid and sticky bits are left out.
pub open spec fn permission_bits(mode: u32) -> u32 {
    mode & 0o777u32
}

/// A file already holds the entry's content, with the entry's owner, group
/// and permission bits.
pub open spec fn spec_file_current(entry: Entry, seen: Observation) -> bool {
    match seen {
        Observation::File { content, owner } => content@ == encode_utf8(entry.source@) && owner.uid
            == entry.uid && owner.gid == entry.gid && permission_bits(owner.mode)
            == permission_bits(entry.mode),
        _ => false,
    }
}

/// A file counts as up to date exactly when its bytes are the UTF-8
/// encoding of the entry's source (so they decode back to the source text),
/// and its owner, group and permission bits are the entry's. Any other byte
/// content makes the install go on.
pub proof fn lemma_current_file_holds_source(entry: Entry, seen: Observation)
    ensures
        spec_file_current(entry, seen) <==> (seen matches Observation::File { content, owner }
            && content@ == encode_utf8(entry.source@) && owner.uid == entry.uid && owner.gid
            == entry.gid && (owner.mode & 0o777u32) == (entry.mode & 0o777u32)),
        (seen matches Observation::File { content, owner } && content@ != encode_utf8(
            entry.source@,
        )) ==> !spec_file_current(entry, seen),
        spec_file_current(entry, seen) ==> (seen matches Observation::File { content, owner }
            && vstd::utf8::decode_utf8(content@) == entry.source@),
{
    if spec_file_current(entry, seen) {
        vstd::utf8::encode_utf8_decode_utf8(entry.source@);
    }
}

/// A link counts as up to date exactly when it is a link whose target has
/// the entry's source's components, position by position.
pub proof fn lemma_current_link_same_components(entry: Entry, seen: Observation)
    ensures
        spec_link_current(entry, seen) <==> (seen matches Observation::Symlink { target }
            && spec_path_components(target@).len() == spec_path_components(entry.source@).len()
            && forall|i: int|
            0 <= i < spec_path_components(target@).len() ==> #[trigger] spec_path_components(
                target@,
            )[i] == spec_path_components(entry.source@)[i]),
{
    if let Observation::Symlink { target } = seen {
        let a = spec_path_components(target@);
        let b = spec_path_components(entry.source@);
        if a.len() == b.len() && forall|i: int| 0 <= i < a.len() ==> #[trigger] a[i] == b[i] {
            assert(a =~= b);
        }
    }
}

/// A second run leaves a file alone: a file with the entry's bytes, owner
/// and group, whose mode was set from the entry's (so that it carries the
/// entry's permission and special bits, whatever its file-type bits), is up
/// to date.
pub proof fn lemma_written_file_is_current(entry: Entry, seen: Observation)
    requires
        seen matches Observation::File { content, owner } && content@ == encode_utf8(entry.source@)
            && owner.uid == entry.uid && owner.gid == entry.gid && (owner.mode & 0o7777u32) == (
        entry.mode & 0o7777u32),
    ensures
        spec_file_current(entry, seen),
{
    if let Observation::File { content, owner } = seen {
        let a = owner.mode;
        let b = entry.mode;
        assert((a & 0o7777u32) == (b & 0o7777u32) ==> (a & 0o777u32) == (b & 0o777u32))
            by (bit_vector);
    }
}

/// A link already points at the entry's source.
pub open spec fn spec_link_current(entry: Entry, seen: Observation) -> bool {
    match seen {
        Observation::Symlink { target } => spec_same_path(target@, entry.source@),
        _ => false,
    }
}

/// Nothing needs doing at the path.
pub open spec fn spec_up_to_date(kind: Kind, entry: Entry, seen: Observation) -> bool {
    match kind {
        Kind::File => spec_file_current(entry, seen),
        Kind::Symlink => spec_link_current(entry, seen),
    }
}

/// Whether the file seen already holds what the entry asks for: the same
/// bytes, owner and group, and the same permission bits.
#[verifier::loop_isolation(false)]
pub fn file_up_to_date(entry: &Entry, seen: &Observation) -> (r: bool)
    ensures
        r == spec_file_current(*entry, *seen),
        r <==> (seen matches Observation::File { content, owner } && content@ == encode_utf8(
            entry.source@,
        ) && owner.uid == entry.uid && owner.gid == entry.gid && (owner.mode & 0o777u32) == (
        entry.mode & 0o777u32)),
{
    match seen {
        Observation::File { content, owner } => {
            if owner.uid != entry.uid || owner.gid != entry.gid || (owner.mode & 0o777u32) != (
            entry.mode & 0o777u32) {
                return false;
            }
            let wanted = entry.source.as_str().as_bytes();
            if content.len() != wanted.len() {
                return false;
            }
            let n = content.len();
            for i in 0..n
                invariant
                    n == content@.len(),
                    n == wanted@.len(),
                    wanted@ == encode_utf8(entry.source@),
                    forall|j: int| 0 <= j < i ==> content@[j] == wanted@[j],
            {
                if content[i] != wanted[i] {
                    return false;
                }
            }
            assert(content@ =~= wanted@);
            true
        },
        _ => false,
    }
}

/// Whether the link seen already points at the entry's source. A link whose
/// target reads back as the source's very text is up to date, so a second
/// run leaves a link it made alone.
pub fn link_up_to_date(entry: &Entry, seen: &Observation) -> (r: bool)
    ensures
        r == spec_link_current(*entry, *seen),
        r <==> (seen matches Observation::Symlink { target } && spec_path_components(target@).len()
            == spec_path_components(entry.source@).len() && forall|i: int|
            0 <= i < spec_path_components(target@).len() ==> #[trigger] spec_path_components(
                target@,
            )[i] == spec_path_components(entry.source@)[i]),
        (seen matches Observation::Symlink { target } && target@ == entry.source@) ==> r,
{
    match seen {
        Observation::Symlink { target } => same_path(target.as_str(), entry.source.as_str()),
        _ => false,
    }
}

/// Whether nothing needs doing at the path.
pub fn is_up_to_date(kind: Kind, entry: &Entry, seen: &Observation) -> (r: bool)
    ensures
        r == spec_up_to_date(kind, *entry, *seen),
{
    match kind {
        Kind::File => file_up_to_date(entry, seen),
        Kind::Symlink => link_up_to_date(entry, seen),
    }
}

} // verus!

verus! {

/// What the program found out, handed back to the install.
pub enum InstallEvent {
    /// What stands at the path, or why that could not be found out.
    Inspected(Result<Observation, String>),
    /// The directories above the path stand, with the record of those this
    /// run made; or why they could not be made.
    Prepared(Result<CreatedPaths, String>),
    /// Whether the new content was put in place at the staging path.
    Staged(Result<(), StageFailure>),
    /// Whether the staging path was removed again.
    Discarded(Result<(), String>),
    /// The staged content now stands at the path; the backup of what stood
    /// there before, if anything did. Or why swapping it in failed.
    Installed(Result<Option<String>, String>),
    /// The report was shown.
    Reported,
    /// How the backup of a replaced file was dealt with.
    ClobberHandled(Result<(), String>),
}

/// Why putting the new content in place at the staging path failed.
#[derive(Debug, PartialEq, Eq)]
pub enum StageFailure {
    /// Writing the content to the staging file failed, for this reason.
    WriteFile(String),
    /// Giving the staging file its owner or mode failed, with this error
    /// message.
    Permissions(String),
    /// Making the link at the staging path failed, for this reason.
    CreateLink(String),
}

/// The error for a failed staging of `source` at `limbo`, to be put in place
/// at `target`.
pub open spec fn spec_stage_failure(
    target: Seq<char>,
    limbo: Seq<char>,
    source: Seq<char>,
    failure: StageFailure,
) -> Seq<char> {
    match failure {
        StageFailure::WriteFile(d) => "Failed to write to file, Path: "@ + limbo + ", Error: "@ + d@,
        StageFailure::Permissions(m) => m@,
        StageFailure::CreateLink(d) => "Failed, could not create symlink: "@ + target + " -> "@
            + source + ", Err: "@ + d@,
    }
}

/// How an install ended when it succeeded.
#[derive(Debug, Clone, Copy, PartialEq, Eq, Structural)]
pub enum InstallOutcome {
    /// The path already was as wanted; nothing was touched.
    Unchanged,
    /// New content was put in place.
    Written,
}

/// What the install asks the program to do next.
pub enum InstallAction {
    /// Find out what stands at `path`; read a file's content, owner and mode
    /// when `kind` is a file, a link's target when it is a link.
    Inspect { path: String, kind: Kind },
    /// Make the missing directories above `path` (see
    /// `PathCreation::require_parent_paths`), owned by `uid` and `gid`.
    PrepareParents { path: String, uid: u32, gid: u32 },
    /// Write `content` to a new file at `limbo`, then give it the owner,
    /// group and mode.
    StageFile { limbo: String, content: String, uid: u32, gid: u32, mode: u32 },
    /// Make a link at `limbo` that points at `source`.
    StageLink { limbo: String, source: String },
    /// Remove the staging path again.
    Discard { limbo: String },
    /// Swap what stands at `limbo` in at `target`, keeping what stood there
    /// as a backup.
    Install { target: String, limbo: String },
    /// Show this report of success.
    Report(String),
    /// Keep or remove this backup of a replaced file (see `handle_clobber`).
    HandleClobber(String),
    /// The install is over: remove `rollback` (directories this run made),
    /// in order, and end with `outcome`.
    Finish { outcome: Result<InstallOutcome, String>, rollback: Vec<String> },
}

/// Where an install stands.
#[derive(Debug, Clone, Copy, PartialEq, Eq, Structural)]
pub enum InstallStage {
    Inspecting,
    Preparing,
    Staging,
    Discarding,
    Installing,
    Reporting,
    Clobbering,
    Finished,
}

/// The report shown once a path is in place.
pub open spec fn spec_report(kind: Kind, target: Seq<char>, source: Seq<char>) -> Seq<char> {
    match kind {
        Kind::File => "Wrote to, Path: "@ + target,
        Kind::Symlink => "Created symlink: "@ + target + " -> "@ + source,
    }
}

/// The error when staging failed and removing the staging path failed too.
pub open spec fn spec_double_failure(first: Seq<char>, limbo: Seq<char>, second: Seq<char>) -> Seq<
    char,
> {
    first + ", Double whammy, file potentially stuck in limbo "@ + limbo + ": "@ + second
}

/// The decisions of putting one managed file or link in place: leave it alone
/// when it already is as wanted; otherwise make the directories above it,
/// prepare the new content at a fresh staging path next to it, and swap that
/// in, keeping what stood there as a backup. A failure before the swap
/// removes the staging file and the directories this run made; once the swap
/// is done the directories are kept.
pub struct Install {
    kind: Kind,
    target: String,
    entry: Entry,
    parents: CreatedPaths,
    limbo: String,
    failure: String,
    backup: Option<String>,
    stage: InstallStage,
}

impl Install {
    pub closed spec fn spec_kind(&self) -> Kind {
        self.kind
    }

    /// The managed path.
    pub closed spec fn spec_target(&self) -> Seq<char> {
        self.target@
    }

    /// What is wanted at the path.
    pub closed spec fn spec_entry(&self) -> Entry {
        self.entry
    }

    /// The directories this run made above the path.
    pub closed spec fn spec_parents(&self) -> CreatedPaths {
        self.parents
    }

    /// The staging path, once there is one.
    pub closed spec fn spec_limbo(&self) -> Seq<char> {
        self.limbo@
    }

    pub closed spec fn spec_failure(&self) -> Seq<char> {
        self.failure@
    }

    pub closed spec fn spec_backup(&self) -> Option<Seq<char>> {
        match self.backup {
            Some(b) => Some(b@),
            None => None,
        }
    }

    pub closed spec fn spec_stage(&self) -> InstallStage {
        self.stage
    }

    /// The install's own consistency: while content is staged, the staging
    /// path is a fresh staging name next to the target; a staged link is
    /// never discarded; and no directories are to be removed before they are
    /// made, nor from the swap on.
    pub open spec fn wf(&self) -> bool {
        &&& (self.spec_stage() == InstallStage::Staging || self.spec_stage()
            == InstallStage::Discarding || self.spec_stage() == InstallStage::Installing) ==> exists|
            id: Seq<char>,
        | id.len() == 36 && self.spec_limbo() == spec_limbo_name(self.spec_target(), id)
        &&& self.spec_stage() == InstallStage::Discarding ==> self.spec_kind() == Kind::File
        &&& (self.spec_stage() == InstallStage::Inspecting || self.spec_stage()
            == InstallStage::Preparing || self.spec_stage() == InstallStage::Reporting
            || self.spec_stage() == InstallStage::Clobbering) ==> !self.spec_parents().is_armed()
    }

    /// Whether `event` answers the action that is pending.
    pub open spec fn spec_awaits(&self, event: &InstallEvent) -> bool {
        match event {
            InstallEvent::Inspected(_) => self.spec_stage() == InstallStage::Inspecting,
            InstallEvent::Prepared(_) => self.spec_stage() == InstallStage::Preparing,
            InstallEvent::Staged(_) => self.spec_stage() == InstallStage::Staging,
            InstallEvent::Discarded(_) => self.spec_stage() == InstallStage::Discarding,
            InstallEvent::Installed(_) => self.spec_stage() == InstallStage::Installing,
            InstallEvent::Reported => self.spec_stage() == InstallStage::Reporting,
            InstallEvent::ClobberHandled(_) => self.spec_stage() == InstallStage::Clobbering,
        }
    }

    /// The install is over with `action`, which ends with an error of text
    /// `message` and removes `rollback`.
    pub open spec fn fails_with(
        &self,
        action: &InstallAction,
        message: Seq<char>,
        rollback: Seq<Seq<char>>,
    ) -> bool {
        self.spec_stage() == InstallStage::Finished && (action matches InstallAction::Finish {
            outcome: Err(m),
            rollback: r,
        } && m@ == message && views(r@) == rollback)
    }

    /// The install is over with `action`, which ends with `outcome` and
    /// removes nothing.
    pub open spec fn succeeds_with(&self, action: &InstallAction, outcome: InstallOutcome) -> bool {
        self.spec_stage() == InstallStage::Finished && (action matches InstallAction::Finish {
            outcome: Ok(o),
            rollback: r,
        } && o == outcome && r@.len() == 0)
    }

    /// Starts putting `entry` in place at `target` as a file or a link: first
    /// it asks what stands there.
    pub fn begin(kind: Kind, target: String, entry: Entry) -> (r: (Install, InstallAction))
        ensures
            r.0.wf(),
            r.0.spec_stage() == InstallStage::Inspecting,
            r.0.spec_kind() == kind,
            r.0.spec_target() == target@,
            r.0.spec_entry() == entry,
            r.1 matches InstallAction::Inspect { path, kind: k } && path@ == target@ && k == kind,
    {
        let path = target.clone();
        let install = Install {
            kind,
            target,
            entry,
            parents: CreatedPaths::default(),
            limbo: String::new(),
            failure: String::new(),
            backup: None,
            stage: InstallStage::Inspecting,
        };
        (install, InstallAction::Inspect { path, kind })
    }

    /// Whether `event` answers the action that is pending.
    pub fn awaits(&self, event: &InstallEvent) -> (r: bool)
        ensures
            r == self.spec_awaits(event),
    {
        match event {
            InstallEvent::Inspected(_) => self.stage == InstallStage::Inspecting,
            InstallEvent::Prepared(_) => self.stage == InstallStage::Preparing,
            InstallEvent::Staged(_) => self.stage == InstallStage::Staging,
            InstallEvent::Discarded(_) => self.stage == InstallStage::Discarding,
            InstallEvent::Installed(_) => self.stage == InstallStage::Installing,
            InstallEvent::Reported => self.stage == InstallStage::Reporting,
            InstallEvent::ClobberHandled(_) => self.stage == InstallStage::Clobbering,
        }
    }

    fn finish_failed(&mut self, message: String) -> (action: InstallAction)
        ensures
            final(self).spec_kind() == old(self).spec_kind(),
            final(self).spec_target() == old(self).spec_target(),
            final(self).spec_entry() == old(self).spec_entry(),
            final(self).spec_parents() == old(self).spec_parents(),
            final(self).spec_limbo() == old(self).spec_limbo(),
            final(self).spec_failure() == old(self).spec_failure(),
            final(self).spec_backup() == old(self).spec_backup(),
            final(self).wf(),
            final(self).fails_with(&action, message@, old(self).spec_parents().spec_rollback()),
    {
        self.stage = InstallStage::Finished;
        let rollback = self.parents.rollback_order();
        InstallAction::Finish { outcome: Err(message), rollback }
    }

    fn finish_ok(&mut self, outcome: InstallOutcome) -> (action: InstallAction)
        ensures
            final(self).spec_kind() == old(self).spec_kind(),
            final(self).spec_target() == old(self).spec_target(),
            final(self).spec_entry() == old(self).spec_entry(),
            final(self).spec_parents() == old(self).spec_parents(),
            final(self).spec_limbo() == old(self).spec_limbo(),
            final(self).spec_failure() == old(self).spec_failure(),
            final(self).spec_backup() == old(self).spec_backup(),
            final(self).wf(),
            final(self).succeeds_with(&action, outcome),
    {
        self.stage = InstallStage::Finished;
        InstallAction::Finish { outcome: Ok(outcome), rollback: Vec::new() }
    }

    fn stage_failure_message(&self, failure: StageFailure) -> (r: String)
        ensures
            r@ == spec_stage_failure(
                self.spec_target(),
                self.spec_limbo(),
                self.spec_entry().source@,
                failure,
            ),
    {
        match failure {
            StageFailure::WriteFile(d) => {
                let mut r = String::from_str("Failed to write to file, Path: ");
                r.append(self.limbo.as_str());
                r.append(", Error: ");
                r.append(d.as_str());
                r
            },
            StageFailure::Permissions(m) => m,
            StageFailure::CreateLink(d) => {
                let mut r = String::from_str("Failed, could not create symlink: ");
                r.append(self.target.as_str());
                r.append(" -> ");
                r.append(self.entry.source.as_str());
                r.append(", Err: ");
                r.append(d.as_str());
                r
            },
        }
    }

    /// Takes in what the program found out and says what to do next (see the
    /// type's description). Failures end the install with the error handed
    /// in, and, until the swap is done, with the directories this run made to
    /// be removed.
    pub fn advance(&mut self, event: InstallEvent) -> (action: InstallAction)
        requires
            old(self).wf(),
            old(self).spec_awaits(&event),
        ensures
            final(self).wf(),
            final(self).spec_kind() == old(self).spec_kind(),
            final(self).spec_target() == old(self).spec_target(),
            final(self).spec_entry() == old(self).spec_entry(),
            !(event matches InstallEvent::Prepared(Ok(_))) && !(event matches InstallEvent::Installed(
                Ok(_),
            )) ==> final(self).spec_parents() == old(self).spec_parents(),
            !(event matches InstallEvent::Prepared(Ok(_))) ==> final(self).spec_limbo() == old(self).spec_limbo(),
            !(event matches InstallEvent::Staged(Err(_))) ==> final(self).spec_failure() == old(self).spec_failure(),
            !(event matches InstallEvent::Installed(Ok(_))) ==> final(self).spec_backup() == old(self).spec_backup(),
            match event {
                InstallEvent::Inspected(Err(e)) => final(self).fails_with(
                    &action,
                    e@,
                    Seq::empty(),
                ),
                InstallEvent::Inspected(Ok(seen)) => ((action matches InstallAction::Finish {
                outcome: Ok(InstallOutcome::Unchanged),
                ..
            }) <==> match old(self).spec_kind() {
                Kind::File => seen matches Observation::File { content, owner } && content@
                    == encode_utf8(old(self).spec_entry().source@) && owner.uid == old(self).spec_entry().uid
                    && owner.gid == old(self).spec_entry().gid && (owner.mode & 0o777u32) == (
                old(self).spec_entry().mode & 0o777u32),
                Kind::Symlink => seen matches Observation::Symlink { target } && spec_path_components(
                    target@,
                ).len() == spec_path_components(old(self).spec_entry().source@).len() && forall|i: int|
                    0 <= i < spec_path_components(target@).len() ==> #[trigger] spec_path_components(
                        target@,
                    )[i] == spec_path_components(old(self).spec_entry().source@)[i],
            }) && if spec_up_to_date(
                    old(self).spec_kind(),
                    old(self).spec_entry(),
                    seen,
                ) {
                    final(self).succeeds_with(&action, InstallOutcome::Unchanged)
                } else {
                    final(self).spec_stage() == InstallStage::Preparing && (
                    action matches InstallAction::PrepareParents { path, uid, gid } && path@
                        == old(self).spec_target() && uid == old(self).spec_entry().uid && gid
                        == old(self).spec_entry().gid)
                },
                InstallEvent::Prepared(Err(e)) => final(self).fails_with(
                    &action,
                    e@,
                    Seq::empty(),
                ),
                InstallEvent::Prepared(Ok(made)) => final(self).spec_stage() == InstallStage::Staging
                    && final(self).spec_parents() == made && match old(self).spec_kind() {
                    Kind::File => action matches InstallAction::StageFile {
                        limbo,
                        content,
                        uid,
                        gid,
                        mode,
                    } && limbo@ == final(self).spec_limbo() && content@ == old(self).spec_entry().source@ && uid == old(self).spec_entry().uid && gid == old(self).spec_entry().gid && mode == old(self).spec_entry().mode,
                    Kind::Symlink => action matches InstallAction::StageLink { limbo, source }
                        && limbo@ == final(self).spec_limbo() && source@ == old(self).spec_entry().source@,
                },
                InstallEvent::Staged(Ok(())) => final(self).spec_stage() == InstallStage::Installing
                    && (action matches InstallAction::Install { target, limbo } && target@ == old(self).spec_target() && limbo@ == old(self).spec_limbo()),
                InstallEvent::Staged(Err(f)) => match old(self).spec_kind() {
                    Kind::File => final(self).spec_stage() == InstallStage::Discarding
                        && final(self).spec_failure() == spec_stage_failure(
                        old(self).spec_target(),
                        old(self).spec_limbo(),
                        old(self).spec_entry().source@,
                        f,
                    ) && (action matches InstallAction::Discard { limbo } && limbo@ == old(self).spec_limbo()),
                    Kind::Symlink => final(self).fails_with(
                        &action,
                        spec_stage_failure(
                            old(self).spec_target(),
                            old(self).spec_limbo(),
                            old(self).spec_entry().source@,
                            f,
                        ),
                        old(self).spec_parents().spec_rollback(),
                    ),
                },
                InstallEvent::Discarded(Ok(())) => final(self).fails_with(
                    &action,
                    old(self).spec_failure(),
                    old(self).spec_parents().spec_rollback(),
                ),
                InstallEvent::Discarded(Err(e)) => final(self).fails_with(
                    &action,
                    spec_double_failure(old(self).spec_failure(), old(self).spec_limbo(), e@),
                    old(self).spec_parents().spec_rollback(),
                ),
                InstallEvent::Installed(Err(e)) => final(self).fails_with(
                    &action,
                    e@,
                    old(self).spec_parents().spec_rollback(),
                ),
                InstallEvent::Installed(Ok(backup)) => final(self).spec_stage()
                    == InstallStage::Reporting && final(self).spec_backup() == opt_view(backup)
                    && !final(self).spec_parents().is_armed() && final(self).spec_parents().recorded() == old(self).spec_parents().recorded() && (
                action matches InstallAction::Report(text) && text@ == spec_report(
                    old(self).spec_kind(),
                    old(self).spec_target(),
                    old(self).spec_entry().source@,
                )),
                InstallEvent::Reported => match old(self).spec_backup() {
                    None => final(self).succeeds_with(&action, InstallOutcome::Written),
                    Some(b) => final(self).spec_stage() == InstallStage::Clobbering && (
                    action matches InstallAction::HandleClobber(bak) && bak@ == b),
                },
                InstallEvent::ClobberHandled(Ok(())) => final(self).succeeds_with(
                    &action,
                    InstallOutcome::Written,
                ),
                InstallEvent::ClobberHandled(Err(e)) => final(self).fails_with(
                    &action,
                    e@,
                    Seq::empty(),
                ),
            },
    {
        match event {
            InstallEvent::Inspected(Err(e)) => self.finish_failed(e),
            InstallEvent::Inspected(Ok(seen)) => {
                proof {
                    lemma_current_file_holds_source(self.entry, seen);
                    lemma_current_link_same_components(self.entry, seen);
                }
                if is_up_to_date(self.kind, &self.entry, &seen) {
                    self.finish_ok(InstallOutcome::Unchanged)
                } else {
                    self.stage = InstallStage::Preparing;
                    InstallAction::PrepareParents {
                        path: self.target.clone(),
                        uid: self.entry.uid,
                        gid: self.entry.gid,
                    }
                }
            },
            InstallEvent::Prepared(Err(e)) => self.finish_failed(e),
            InstallEvent::Prepared(Ok(made)) => {
                self.parents = made;
                self.limbo = get_limbo(self.target.as_str());
                self.stage = InstallStage::Staging;
                match self.kind {
                    Kind::File => InstallAction::StageFile {
                        limbo: self.limbo.clone(),
                        content: self.entry.source.clone(),
                        uid: self.entry.uid,
                        gid: self.entry.gid,
                        mode: self.entry.mode,
                    },
                    Kind::Symlink => InstallAction::StageLink {
                        limbo: self.limbo.clone(),
                        source: self.entry.source.clone(),
                    },
                }
            },
            InstallEvent::Staged(Ok(())) => {
                self.stage = InstallStage::Installing;
                InstallAction::Install { target: self.target.clone(), limbo: self.limbo.clone() }
            },
            InstallEvent::Staged(Err(f)) => {
                let e = self.stage_failure_message(f);
                match self.kind {
                Kind::File => {
                    self.failure = e;
                    self.stage = InstallStage::Discarding;
                    InstallAction::Discard { limbo: self.limbo.clone() }
                },
                Kind::Symlink => self.finish_failed(e),
                }
            },
            InstallEvent::Discarded(Ok(())) => {
                let message = self.failure.clone();
                self.finish_failed(message)
            },
            InstallEvent::Discarded(Err(e)) => {
                let mut message = self.failure.clone();
                message.append(", Double whammy, file potentially stuck in limbo ");
                message.append(self.limbo.as_str());
                message.append(": ");
                message.append(e.as_str());
                self.finish_failed(message)
            },
            InstallEvent::Installed(Err(e)) => self.finish_failed(e),
            InstallEvent::Installed(Ok(backup)) => {
                self.parents.disarm();
                self.backup = backup;
                self.stage = InstallStage::Reporting;
                let text = match self.kind {
                    Kind::File => {
                        let mut t = String::from_str("Wrote to, Path: ");
                        t.append(self.target.as_str());
                        t
                    },
                    Kind::Symlink => {
                        let mut t = String::from_str("Created symlink: ");
                        t.append(self.target.as_str());
                        t.append(" -> ");
                        t.append(self.entry.source.as_str());
                        t
                    },
                };
                InstallAction::Report(text)
            },
            InstallEvent::Reported => match &self.backup {
                None => self.finish_ok(InstallOutcome::Written),
                Some(b) => {
                    let bak = b.clone();
                    self.stage = InstallStage::Clobbering;
                    InstallAction::HandleClobber(bak)
                },
            },
            InstallEvent::ClobberHandled(Ok(())) => self.finish_ok(InstallOutcome::Written),
            InstallEvent::ClobberHandled(Err(e)) => self.finish_failed(e),
        }
    }
}

} // verus!

verus! {

/// What to do with the backup of a replaced file.
#[derive(Debug, PartialEq, Eq)]
pub enum ClobberStep {
    /// There is no backup.
    Nothing,
    /// Keep the backup.
    Keep,
    /// Remove the backup at this path.
    Remove(String),
    /// Ask the user `question`; the answer decides (see `settle_clobber`).
    Ask { backup: String, question: String },
}

/// The question asked before the backup at `backup` is removed.
pub open spec fn spec_keep_question(backup: Seq<char>) -> Seq<char> {
    "Would you like to keep the clobbered file: "@ + backup + "?"@
}

/// Decides what happens to the backup of a replaced file: the setting
/// `keep_clobbered` decides when it is given, and the user is asked when it
/// is not.
pub fn handle_clobber(backup: Option<String>, keep_clobbered: Option<bool>) -> (r: ClobberStep)
    ensures
        match backup {
            None => r == ClobberStep::Nothing,
            Some(b) => match keep_clobbered {
                Some(true) => r == ClobberStep::Keep,
                Some(false) => r matches ClobberStep::Remove(p) && p@ == b@,
                None => r matches ClobberStep::Ask { backup: p, question } && p@ == b@
                    && question@ == spec_keep_question(b@),
            },
        },
{
    match backup {
        None => ClobberStep::Nothing,
        Some(b) => match keep_clobbered {
            Some(keep) => settle_clobber(b, keep),
            None => {
                let mut question = String::from_str("Would you like to keep the clobbered file: ");
                question.append(b.as_str());
                question.append("?");
                ClobberStep::Ask { backup: b, question }
            },
        },
    }
}

/// The backup is kept when the answer is to keep it, and removed otherwise.
pub fn settle_clobber(backup: String, keep: bool) -> (r: ClobberStep)
    ensures
        keep ==> r == ClobberStep::Keep,
        !keep ==> (r matches ClobberStep::Remove(p) && p@ == backup@),
{
    if keep {
        ClobberStep::Keep
    } else {
        ClobberStep::Remove(backup)
    }
}

} // verus!

verus! {

/// What the program found out, handed back to the swap.
pub enum SwapEvent {
    /// Whether something stands at the target, or why that could not be
    /// found out.
    Probed(Result<bool, String>),
    /// How renaming the staging path onto the free target went.
    Renamed(Result<(), String>),
    /// How exchanging the staging path with the occupied target went.
    Exchanged(Result<(), String>),
    /// The staging path was removed, or removing it failed; either way the
    /// swap fails.
    CleanedUp,
    /// How moving the replaced content, now at the staging path, to its
    /// backup name went.
    MovedAside(Result<(), String>),
}

/// What the swap asks the program to do next.
pub enum SwapAction {
    /// Find out whether anything stands at `target`.
    Probe { target: String },
    /// Rename `limbo` to `target`.
    Rename { limbo: String, target: String },
    /// Exchange `limbo` and `target` in one step.
    Exchange { limbo: String, target: String },
    /// Remove what stands at `limbo`, whatever it is.
    CleanUp { limbo: String },
    /// Rename `limbo` to `backup`.
    MoveAside { limbo: String, backup: String },
    /// The swap is over: the backup name, if something was replaced, or the
    /// error.
    Finish(Result<Option<String>, String>),
}

/// Where the swap stands.
#[derive(Debug, Clone, Copy, PartialEq, Eq, Structural)]
pub enum SwapStage {
    Probing,
    Renaming,
    Exchanging,
    CleaningUp,
    MovingAside,
    Finished,
}

/// The decisions of swapping staged content in at a target in one step: a
/// free target is simply renamed onto; an occupied one is exchanged with the
/// staging path, and what stood there is then moved to a fresh backup name.
/// When the swap itself fails, the staging path is removed.
pub struct AtomicInstall {
    target: String,
    limbo: String,
    backup: String,
    failure: String,
    stage: SwapStage,
}

impl AtomicInstall {
    pub closed spec fn spec_target(&self) -> Seq<char> {
        self.target@
    }

    pub closed spec fn spec_limbo(&self) -> Seq<char> {
        self.limbo@
    }

    /// The backup name, once the target was exchanged.
    pub closed spec fn spec_backup(&self) -> Seq<char> {
        self.backup@
    }

    pub closed spec fn spec_failure(&self) -> Seq<char> {
        self.failure@
    }

    pub closed spec fn spec_stage(&self) -> SwapStage {
        self.stage
    }

    /// While moving aside, the backup name is a fresh backup name next to the
    /// target.
    pub open spec fn wf(&self) -> bool {
        self.spec_stage() == SwapStage::MovingAside ==> exists|id: Seq<char>|
            id.len() == 36 && self.spec_backup() == crate::paths::spec_backup_name(
                self.spec_target(),
                id,
            )
    }

    /// Whether `event` answers the action that is pending.
    pub open spec fn spec_awaits(&self, event: &SwapEvent) -> bool {
        match event {
            SwapEvent::Probed(_) => self.spec_stage() == SwapStage::Probing,
            SwapEvent::Renamed(_) => self.spec_stage() == SwapStage::Renaming,
            SwapEvent::Exchanged(_) => self.spec_stage() == SwapStage::Exchanging,
            SwapEvent::CleanedUp => self.spec_stage() == SwapStage::CleaningUp,
            SwapEvent::MovedAside(_) => self.spec_stage() == SwapStage::MovingAside,
        }
    }

    /// Whether `event` answers the action that is pending.
    pub fn awaits(&self, event: &SwapEvent) -> (r: bool)
        ensures
            r == self.spec_awaits(event),
    {
        match event {
            SwapEvent::Probed(_) => self.stage == SwapStage::Probing,
            SwapEvent::Renamed(_) => self.stage == SwapStage::Renaming,
            SwapEvent::Exchanged(_) => self.stage == SwapStage::Exchanging,
            SwapEvent::CleanedUp => self.stage == SwapStage::CleaningUp,
            SwapEvent::MovedAside(_) => self.stage == SwapStage::MovingAside,
        }
    }

    /// Takes in what the program found out and says what to do next (see the
    /// type's description). The swap only ever ends with a backup name after
    /// an exchange, and that name is a fresh one for the target.
    pub fn advance(&mut self, event: SwapEvent) -> (action: SwapAction)
        requires
            old(self).wf(),
            old(self).spec_awaits(&event),
        ensures
            final(self).wf(),
            final(self).spec_target() == old(self).spec_target(),
            final(self).spec_limbo() == old(self).spec_limbo(),
            match event {
                SwapEvent::Probed(Err(e)) => final(self).spec_stage() == SwapStage::Finished && (
                action matches SwapAction::Finish(Err(m)) && m@ == e@),
                SwapEvent::Probed(Ok(false)) => final(self).spec_stage() == SwapStage::Renaming && (
                action matches SwapAction::Rename { limbo, target } && limbo@ == old(self).spec_limbo()
                    && target@ == old(self).spec_target()),
                SwapEvent::Probed(Ok(true)) => final(self).spec_stage() == SwapStage::Exchanging
                    && (action matches SwapAction::Exchange { limbo, target } && limbo@ == old(self).spec_limbo()
                    && target@ == old(self).spec_target()),
                SwapEvent::Renamed(Ok(())) => final(self).spec_stage() == SwapStage::Finished && (
                action matches SwapAction::Finish(Ok(None::<String>))),
                SwapEvent::Renamed(Err(e)) | SwapEvent::Exchanged(Err(e)) => final(self).spec_stage()
                    == SwapStage::CleaningUp && final(self).spec_failure() == e@ && (
                action matches SwapAction::CleanUp { limbo } && limbo@ == old(self).spec_limbo()),
                SwapEvent::Exchanged(Ok(())) => final(self).spec_stage() == SwapStage::MovingAside
                    && (action matches SwapAction::MoveAside { limbo, backup } && limbo@ == old(self).spec_limbo()
                    && backup@ == final(self).spec_backup()),
                SwapEvent::CleanedUp => final(self).spec_stage() == SwapStage::Finished && (
                action matches SwapAction::Finish(Err(m)) && m@ == old(self).spec_failure()),
                SwapEvent::MovedAside(Ok(())) => final(self).spec_stage() == SwapStage::Finished
                    && (action matches SwapAction::Finish(Ok(Some(b))) && b@ == old(self).spec_backup()
                    && exists|id: Seq<char>|
                    id.len() == 36 && b@ == crate::paths::spec_backup_name(
                        old(self).spec_target(),
                        id,
                    )),
                SwapEvent::MovedAside(Err(e)) => final(self).spec_stage() == SwapStage::Finished
                    && (action matches SwapAction::Finish(Err(m)) && m@ == e@),
            },
    {
        match event {
            SwapEvent::Probed(Err(e)) => {
                self.stage = SwapStage::Finished;
                SwapAction::Finish(Err(e))
            },
            SwapEvent::Probed(Ok(occupied)) => {
                if occupied {
                    self.stage = SwapStage::Exchanging;
                    SwapAction::Exchange { limbo: self.limbo.clone(), target: self.target.clone() }
                } else {
                    self.stage = SwapStage::Renaming;
                    SwapAction::Rename { limbo: self.limbo.clone(), target: self.target.clone() }
                }
            },
            SwapEvent::Renamed(Ok(())) => {
                self.stage = SwapStage::Finished;
                SwapAction::Finish(Ok(None))
            },
            SwapEvent::Renamed(Err(e)) | SwapEvent::Exchanged(Err(e)) => {
                self.failure = e;
                self.stage = SwapStage::CleaningUp;
                SwapAction::CleanUp { limbo: self.limbo.clone() }
            },
            SwapEvent::Exchanged(Ok(())) => {
                self.backup = crate::paths::get_bak(self.target.as_str());
                self.stage = SwapStage::MovingAside;
                SwapAction::MoveAside { limbo: self.limbo.clone(), backup: self.backup.clone() }
            },
            SwapEvent::CleanedUp => {
                self.stage = SwapStage::Finished;
                SwapAction::Finish(Err(self.failure.clone()))
            },
            SwapEvent::MovedAside(Ok(())) => {
                self.stage = SwapStage::Finished;
                SwapAction::Finish(Ok(Some(self.backup.clone())))
            },
            SwapEvent::MovedAside(Err(e)) => {
                self.stage = SwapStage::Finished;
                SwapAction::Finish(Err(e))
            },
        }
    }
}

/// Starts swapping what stands at `limbo` in at `destination`: first it asks
/// whether anything stands there.
pub fn atomic_install(destination: String, limbo: String) -> (r: (AtomicInstall, SwapAction))
    ensures
        r.0.wf(),
        r.0.spec_stage() == SwapStage::Probing,
        r.0.spec_target() == destination@,
        r.0.spec_limbo() == limbo@,
        r.1 matches SwapAction::Probe { target } && target@ == destination@,
{
    let target = destination.clone();
    (
        AtomicInstall {
            target: destination,
            limbo,
            backup: String::new(),
            failure: String::new(),
            stage: SwapStage::Probing,
        },
        SwapAction::Probe { target },
    )
}


} // verus!
