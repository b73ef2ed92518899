//! Remapping the owners and groups of a subtree from one id range to another.

use crate::commands::traversal::{
    spec_run, step_view, ExecutionReport, RunSummary, TraversalEntry,
};
use crate::error::RustUtilsError;
use crate::ownership::{FileIdentity, OwnershipSnapshot, RemapOutcome};
use crate::registry::{registered, skipped, InodeRegistry};
use crate::text::{decimal_text, push_decimal};
use vstd::prelude::*;

verus! {

/// The size of the id ranges where none is given.
pub const DEFAULT_RANGE_SIZE: u32 = 65536;

/// The configuration of one run. It is made once and never changed.
#[derive(Debug)]
pub struct RemapArgs {
    /// The directory whose subtree is remapped.
    pub base_directory: String,
    /// The first id of the source range.
    pub from_base: u32,
    /// The first id of the target range.
    pub to_base: u32,
    /// How many ids each range holds.
    pub range_size: u32,
    /// Report what would change and change nothing.
    pub dry_run: bool,
    /// Report each change.
    pub verbose: bool,
    /// Patterns of the paths to leave out.
    pub exclude: Vec<String>,
    /// Remap owners only.
    pub uid_only: bool,
    /// Remap groups only.
    pub gid_only: bool,
}

impl RemapArgs {
    /// Both ranges lie within the 32-bit ids, and at most one of `uid_only`
    /// and `gid_only` is set.
    pub open spec fn valid(&self) -> bool {
        &&& self.from_base + self.range_size <= u32::MAX
        &&& self.to_base + self.range_size <= u32::MAX
        &&& !(self.uid_only && self.gid_only)
    }

    /// Why the configuration is refused, if it is: the first of the three
    /// conditions of `valid` that fails, in words.
    pub open spec fn validation_failure(&self) -> Option<Seq<char>> {
        if self.from_base + self.range_size > u32::MAX {
            Some("from_base + range_size would overflow"@)
        } else if self.to_base + self.range_size > u32::MAX {
            Some("to_base + range_size would overflow"@)
        } else if self.uid_only && self.gid_only {
            Some("Cannot specify both --uid-only and --gid-only"@)
        } else {
            None
        }
    }

    /// Why the base directory is refused, if it is: it does not exist, or it
    /// is no directory.
    pub open spec fn open_failure(&self, exists: bool, is_dir: bool) -> Option<Seq<char>> {
        if !exists {
            Some(self.base_directory@)
        } else if !is_dir {
            Some(self.base_directory@ + " is not a directory"@)
        } else {
            None
        }
    }

    /// `id` lies in the source range: `from_base <= id < from_base + range_size`.
    pub open spec fn spec_in_range(&self, id: int) -> bool {
        self.from_base <= id < self.from_base + self.range_size
    }

    /// Whether an entry owned by `uid` and `gid` is counted as remapped: with
    /// `uid_only` the owner decides, with `gid_only` the group, else either.
    pub open spec fn spec_in_scope(&self, uid: u32, gid: u32) -> bool {
        if self.uid_only {
            self.spec_in_range(uid as int)
        } else if self.gid_only {
            self.spec_in_range(gid as int)
        } else {
            self.spec_in_range(uid as int) || self.spec_in_range(gid as int)
        }
    }

    /// The id of the target range at the offset that `id` has in the source range.
    pub open spec fn spec_translate(&self, id: int) -> int {
        self.to_base + (id - self.from_base)
    }

    /// The owner that an entry owned by `uid` gets.
    pub open spec fn spec_new_uid(&self, uid: u32) -> int {
        if self.gid_only || !self.spec_in_range(uid as int) {
            uid as int
        } else {
            self.spec_translate(uid as int)
        }
    }

    /// The group that an entry of group `gid` gets.
    pub open spec fn spec_new_gid(&self, gid: u32) -> int {
        if self.uid_only || !self.spec_in_range(gid as int) {
            gid as int
        } else {
            self.spec_translate(gid as int)
        }
    }

    /// What is to be set on an entry owned by `uid` and `gid`: each of the two
    /// that gets another value than it has.
    pub open spec fn spec_decide(&self, uid: u32, gid: u32) -> RemapOutcome {
        RemapOutcome {
            new_uid: if self.spec_new_uid(uid) != uid {
                Some(self.spec_new_uid(uid) as u32)
            } else {
                None
            },
            new_gid: if self.spec_new_gid(gid) != gid {
                Some(self.spec_new_gid(gid) as u32)
            } else {
                None
            },
        }
    }

    /// The last id of a range of `size` ids that starts at `base`, within
    /// the 32-bit ids: `base + size - 1` where that is one of them.
    pub fn range_last(base: u32, size: u32) -> (last: u32)
        ensures
            last == (base + size - 1) % 0x1_0000_0000,
    {
        let end: u64 = base as u64 + size as u64;
        if end == 0 {
            u32::MAX
        } else {
            ((end - 1) % 0x1_0000_0000) as u32
        }
    }

    /// Whether `id` lies in the source range.
    pub fn in_range(&self, id: u32) -> (inside: bool)
        ensures
            inside == self.spec_in_range(id as int),
    {
        id >= self.from_base && id - self.from_base < self.range_size
    }

    /// Whether an entry owned by `uid` and `gid` falls under the remapping.
    pub fn in_scope(&self, uid: u32, gid: u32) -> (inside: bool)
        requires
            self.valid(),
        ensures
            inside == self.spec_in_scope(uid, gid),
    {
        if self.uid_only {
            self.in_range(uid)
        } else if self.gid_only {
            self.in_range(gid)
        } else {
            self.in_range(uid) || self.in_range(gid)
        }
    }

    /// Translates `id` into the target range.
    fn translate(&self, id: u32) -> (translated: u32)
        requires
            self.valid(),
            self.spec_in_range(id as int),
        ensures
            translated == self.spec_translate(id as int),
    {
        self.to_base + (id - self.from_base)
    }

    /// The new owner and group of an entry owned by `uid` and `gid`.
    ///
    /// Owner and group are translated independently of each other: each is
    /// translated where it lies in the source range and its kind is not
    /// switched off by `gid_only` or `uid_only`.
    pub fn decide(&self, uid: u32, gid: u32) -> (outcome: RemapOutcome)
        requires
            self.valid(),
        ensures
            outcome == self.spec_decide(uid, gid),
    {
        let new_uid = if self.gid_only || !self.in_range(uid) {
            uid
        } else {
            self.translate(uid)
        };
        let new_gid = if self.uid_only || !self.in_range(gid) {
            gid
        } else {
            self.translate(gid)
        };
        RemapOutcome {
            new_uid: if new_uid != uid {
                Some(new_uid)
            } else {
                None
            },
            new_gid: if new_gid != gid {
                Some(new_gid)
            } else {
                None
            },
        }
    }
}

/// With a valid configuration that remaps owners, an owner in the source
/// range is moved to the same offset in the target range.
pub proof fn lemma_uid_in_range_is_translated(args: RemapArgs, uid: u32, gid: u32)
    requires
        args.valid(),
        !args.gid_only,
        args.spec_in_range(uid as int),
    ensures
        args.spec_decide(uid, gid).resulting_uid(uid) == args.to_base + (uid - args.from_base),
{
}

/// An owner outside the source range is left as it is.
pub proof fn lemma_uid_out_of_range_is_unchanged(args: RemapArgs, uid: u32, gid: u32)
    requires
        !args.spec_in_range(uid as int),
    ensures
        args.spec_decide(uid, gid).new_uid is None,
        args.spec_decide(uid, gid).resulting_uid(uid) == uid,
{
}

/// With a valid configuration that remaps groups, a group in the source
/// range is moved to the same offset in the target range.
pub proof fn lemma_gid_in_range_is_translated(args: RemapArgs, uid: u32, gid: u32)
    requires
        args.valid(),
        !args.uid_only,
        args.spec_in_range(gid as int),
    ensures
        args.spec_decide(uid, gid).resulting_gid(gid) == args.to_base + (gid - args.from_base),
{
}

/// A group outside the source range is left as it is.
pub proof fn lemma_gid_out_of_range_is_unchanged(args: RemapArgs, uid: u32, gid: u32)
    requires
        !args.spec_in_range(gid as int),
    ensures
        args.spec_decide(uid, gid).new_gid is None,
        args.spec_decide(uid, gid).resulting_gid(gid) == gid,
{
}

/// Owner and group are decided apart: what an entry's owner becomes does not
/// depend on its group, nor what its group becomes on its owner.
pub proof fn lemma_owner_and_group_are_independent(
    args: RemapArgs,
    uid: u32,
    gid: u32,
    other_uid: u32,
    other_gid: u32,
)
    ensures
        args.spec_decide(uid, gid).new_uid == args.spec_decide(uid, other_gid).new_uid,
        args.spec_decide(uid, gid).new_gid == args.spec_decide(other_uid, gid).new_gid,
{
}

/// The source range is half open: the id below its first is outside, and so
/// is the id behind its last.
pub proof fn lemma_range_ends_are_outside(args: RemapArgs)
    ensures
        !args.spec_in_range(args.from_base - 1),
        !args.spec_in_range(args.from_base + args.range_size),
{
}

/// The last id of a source range that is not empty is inside.
pub proof fn lemma_range_last_is_inside(args: RemapArgs)
    requires
        args.range_size > 0,
    ensures
        args.spec_in_range(args.from_base + args.range_size - 1),
{
}

/// A second run is not the first undone, nor the first repeated: an owner
/// that a run has moved is moved once more by the next run if it now lies in
/// the source range again, and stays where it is if not. It never comes back
/// to where it was, unless the two ranges are one.
pub proof fn lemma_second_run_moves_again(args: RemapArgs, uid: u32, gid: u32)
    requires
        args.valid(),
        !args.gid_only,
        args.spec_in_range(uid as int),
    ensures
        ({
            let moved = args.spec_decide(uid, gid).resulting_uid(uid);
            let again = args.spec_decide(moved, gid).resulting_uid(moved);
            &&& again == if args.spec_in_range(moved as int) {
                args.to_base + (moved - args.from_base)
            } else {
                moved as int
            }
            &&& again == uid <==> args.to_base == args.from_base
        }),
{
}

/// The line that reports a change of ownership:
/// `path: uid:gid -> new_uid:new_gid`, with ` (dry run)` behind it in a dry run.
pub open spec fn change_line(
    path: Seq<char>,
    uid: u32,
    gid: u32,
    new_uid: u32,
    new_gid: u32,
    dry_run: bool,
) -> Seq<char> {
    path + ": "@ + decimal_text(uid as nat) + ":"@ + decimal_text(gid as nat) + " -> "@
        + decimal_text(new_uid as nat) + ":"@ + decimal_text(new_gid as nat) + if dry_run {
        " (dry run)"@
    } else {
        Seq::<char>::empty()
    }
}

/// Writes the line that reports a change of ownership.
pub fn format_change(
    path: &str,
    uid: u32,
    gid: u32,
    new_uid: u32,
    new_gid: u32,
    dry_run: bool,
) -> (line: String)
    ensures
        line@ == change_line(path@, uid, gid, new_uid, new_gid, dry_run),
{
    let mut line = String::from_str(path);
    line.append(": ");
    push_decimal(&mut line, uid);
    line.append(":");
    push_decimal(&mut line, gid);
    line.append(" -> ");
    push_decimal(&mut line, new_uid);
    line.append(":");
    push_decimal(&mut line, new_gid);
    if dry_run {
        line.append(" (dry run)");
    }
    line
}

/// The error for an entry at `path` whose ownership could not be changed,
/// `cause` being what the system said.
pub fn remap_failure(path: &str, cause: &str) -> (error: RustUtilsError)
    ensures
        error matches RustUtilsError::RemapFailed(m) && m@ == "Failed to chown "@ + path@ + ": "@
            + cause@,
{
    let mut message = String::from_str("Failed to chown ");
    message.append(path);
    message.append(": ");
    message.append(cause);
    RustUtilsError::RemapFailed(message)
}

/// What is to be done about one entry's ownership.
#[derive(Debug)]
pub struct RemapPlan {
    /// The owner and group to set.
    pub outcome: RemapOutcome,
    /// The line to report, if the change is to be reported.
    pub message: Option<String>,
    /// Whether the ownership is to be changed on disk.
    pub apply: bool,
}

/// A `RemapPlan` with its message as a sequence of characters.
pub struct RemapPlanView {
    pub outcome: RemapOutcome,
    pub message: Option<Seq<char>>,
    pub apply: bool,
}

impl View for RemapPlan {
    type V = RemapPlanView;

    open spec fn view(&self) -> RemapPlanView {
        RemapPlanView {
            outcome: self.outcome,
            message: match self.message {
                Some(line) => Some(line@),
                None => None,
            },
            apply: self.apply,
        }
    }
}

/// The plan for an entry at `path` owned by `uid` and `gid`.
///
/// A change is reported in a dry run and in a verbose run, and applied in
/// every run but a dry run. Where neither owner nor group changes, nothing is
/// reported and nothing applied.
pub open spec fn spec_plan(args: RemapArgs, path: Seq<char>, uid: u32, gid: u32) -> RemapPlanView {
    let outcome = args.spec_decide(uid, gid);
    RemapPlanView {
        outcome,
        message: if (args.verbose || args.dry_run) && outcome.changes_ownership() {
            Some(
                change_line(
                    path,
                    uid,
                    gid,
                    outcome.resulting_uid(uid),
                    outcome.resulting_gid(gid),
                    args.dry_run,
                ),
            )
        } else {
            None
        },
        apply: !args.dry_run && outcome.changes_ownership(),
    }
}

/// What a traversal does with one entry whose ownership it could read.
#[derive(Debug)]
pub enum FileAction {
    /// The entry is another link of an object that was handled under `first_path`.
    SkipHardLink { first_path: String },
    /// The entry is examined, with this plan.
    Remap(RemapPlan),
}

/// A `FileAction` with its texts as sequences of characters.
pub enum FileActionView {
    SkipHardLink { first_path: Seq<char> },
    Remap(RemapPlanView),
}

impl View for FileAction {
    type V = FileActionView;

    open spec fn view(&self) -> FileActionView {
        match self {
            FileAction::SkipHardLink { first_path } => FileActionView::SkipHardLink {
                first_path: first_path@,
            },
            FileAction::Remap(plan) => FileActionView::Remap(plan@),
        }
    }
}

/// The result of processing one entry.
#[derive(Debug)]
pub struct FileStep {
    /// Whether the entry's ownership falls in the source range. This is what
    /// the count of remapped entries goes by, whatever `action` is.
    pub in_scope: bool,
    /// What to do with the entry.
    pub action: FileAction,
}

/// A `FileStep` with its texts as sequences of characters.
pub struct FileStepView {
    pub in_scope: bool,
    pub action: FileActionView,
}

impl View for FileStep {
    type V = FileStepView;

    open spec fn view(&self) -> FileStepView {
        FileStepView { in_scope: self.in_scope, action: self.action@ }
    }
}

/// The step for an entry at `path` with ownership `metadata`, where `seen`
/// holds the identities registered so far.
pub open spec fn spec_step(
    args: RemapArgs,
    seen: Map<FileIdentity, Seq<char>>,
    path: Seq<char>,
    metadata: OwnershipSnapshot,
) -> FileStepView {
    FileStepView {
        in_scope: args.spec_in_scope(metadata.uid, metadata.gid),
        action: if skipped(seen, metadata.identity(), metadata.link_count) {
            FileActionView::SkipHardLink { first_path: seen[metadata.identity()] }
        } else {
            FileActionView::Remap(spec_plan(args, path, metadata.uid, metadata.gid))
        },
    }
}

/// A dry run applies nothing, and reports every change that another run
/// would apply.
pub proof fn lemma_dry_run_reports_and_applies_nothing(
    args: RemapArgs,
    path: Seq<char>,
    uid: u32,
    gid: u32,
)
    requires
        args.dry_run,
    ensures
        !spec_plan(args, path, uid, gid).apply,
        spec_plan(args, path, uid, gid).message is Some <==> args.spec_decide(
            uid,
            gid,
        ).changes_ownership(),
{
}

/// An entry out of scope is left as it is: nothing is set, reported or applied.
pub proof fn lemma_out_of_scope_is_unchanged(args: RemapArgs, path: Seq<char>, uid: u32, gid: u32)
    requires
        !args.spec_in_scope(uid, gid),
    ensures
        args.spec_decide(uid, gid) == (RemapOutcome { new_uid: None, new_gid: None }),
        spec_plan(args, path, uid, gid) == (RemapPlanView {
            outcome: RemapOutcome { new_uid: None, new_gid: None },
            message: None,
            apply: false,
        }),
{
}

/// One remapping run: its configuration and the inodes it has handled.
#[derive(Debug)]
pub struct RemapCommand {
    args: RemapArgs,
    seen_inodes: InodeRegistry,
}

impl RemapCommand {
    /// The configuration of the run.
    pub closed spec fn config(&self) -> RemapArgs {
        self.args
    }

    /// The identities registered so far, each with the first path seen for it.
    pub closed spec fn seen(&self) -> Map<FileIdentity, Seq<char>> {
        self.seen_inodes@
    }

    /// A run with the configuration `args` that has handled nothing yet.
    pub fn new(args: RemapArgs) -> (command: RemapCommand)
        ensures
            command.config() == args,
            command.seen() == Map::<FileIdentity, Seq<char>>::empty(),
    {
        RemapCommand { args, seen_inodes: InodeRegistry::new() }
    }

    /// The configuration of the run.
    pub fn args(&self) -> (args: &RemapArgs)
        ensures
            *args == self.config(),
    {
        &self.args
    }

    /// The registry of the inodes handled so far.
    pub fn seen_inodes(&self) -> (registry: &InodeRegistry)
        ensures
            registry@ == self.seen(),
    {
        &self.seen_inodes
    }

    /// Checks the configuration: `Ok` exactly if it is valid, else the error
    /// that names the first condition that fails.
    pub fn validate_args(&self) -> (result: Result<(), RustUtilsError>)
        ensures
            result is Ok <==> self.config().valid(),
            match result {
                Ok(_) => self.config().validation_failure() is None,
                Err(e) => e matches RustUtilsError::InvalidRange(m) && self.config().validation_failure()
                    == Some(m@),
            },
    {
        if self.args.from_base.checked_add(self.args.range_size).is_none() {
            return Err(
                RustUtilsError::InvalidRange(
                    String::from_str("from_base + range_size would overflow"),
                ),
            );
        }
        if self.args.to_base.checked_add(self.args.range_size).is_none() {
            return Err(
                RustUtilsError::InvalidRange(String::from_str("to_base + range_size would overflow")),
            );
        }
        if self.args.uid_only && self.args.gid_only {
            return Err(
                RustUtilsError::InvalidRange(
                    String::from_str("Cannot specify both --uid-only and --gid-only"),
                ),
            );
        }
        Ok(())
    }

    /// Decides whether the traversal can start at the base directory, given
    /// whether it exists and whether it is a directory.
    pub fn check_base_directory(&self, exists: bool, is_dir: bool) -> (result: Result<
        (),
        RustUtilsError,
    >)
        ensures
            result is Ok <==> exists && is_dir,
            match result {
                Ok(_) => self.config().open_failure(exists, is_dir) is None,
                Err(e) => e matches RustUtilsError::DirectoryNotFound(m)
                    && self.config().open_failure(exists, is_dir) == Some(m@),
            },
    {
        if !exists {
            return Err(RustUtilsError::DirectoryNotFound(self.args.base_directory.clone()));
        }
        if !is_dir {
            let mut message = self.args.base_directory.clone();
            message.append(" is not a directory");
            return Err(RustUtilsError::DirectoryNotFound(message));
        }
        Ok(())
    }

    /// Whether an entry with ownership `metadata` counts as remapped.
    pub fn should_remap_file(&self, metadata: &OwnershipSnapshot) -> (should_remap: bool)
        requires
            self.config().valid(),
        ensures
            should_remap == self.config().spec_in_scope(metadata.uid, metadata.gid),
    {
        self.args.in_scope(metadata.uid, metadata.gid)
    }

    /// Plans the change of ownership of the entry at `path`: what to set,
    /// what to report, and whether to apply it.
    pub fn remap_file(&self, path: &str, metadata: &OwnershipSnapshot) -> (plan: RemapPlan)
        requires
            self.config().valid(),
        ensures
            plan@ == spec_plan(self.config(), path@, metadata.uid, metadata.gid),
    {
        let outcome = self.args.decide(metadata.uid, metadata.gid);
        let changes = outcome.changes_ownership();
        let message = if (self.args.verbose || self.args.dry_run) && changes {
            Some(
                format_change(
                    path,
                    metadata.uid,
                    metadata.gid,
                    outcome.resulting_uid(metadata.uid),
                    outcome.resulting_gid(metadata.gid),
                    self.args.dry_run,
                ),
            )
        } else {
            None
        };
        RemapPlan { outcome, message, apply: !self.args.dry_run && changes }
    }

    /// Processes the entry at `path`, whose ownership was read as `metadata`.
    ///
    /// A path of an object with several links is skipped if another path of
    /// that object was processed before; the first such path is registered.
    /// Any other entry gets its plan.
    pub fn process_file(&mut self, path: &str, metadata: &OwnershipSnapshot) -> (step: FileStep)
        requires
            old(self).config().valid(),
        ensures
            final(self).config() == old(self).config(),
            final(self).seen() == registered(
                old(self).seen(),
                metadata.identity(),
                path@,
                metadata.link_count,
            ),
            step@ == spec_step(old(self).config(), old(self).seen(), path@, *metadata),
    {
        let identity = metadata.identity();
        let in_scope = self.should_remap_file(metadata);
        if self.seen_inodes.check_and_register(identity, path, metadata.link_count) {
            let first_path = match self.seen_inodes.first_path(identity) {
                Some(first_path) => first_path,
                None => vstd::pervasive::unreached(),
            };
            return FileStep { in_scope, action: FileAction::SkipHardLink { first_path } };
        }
        let plan = if in_scope {
            self.remap_file(path, metadata)
        } else {
            proof {
                lemma_out_of_scope_is_unchanged(self.config(), path@, metadata.uid, metadata.gid);
            }
            RemapPlan {
                outcome: RemapOutcome { new_uid: None, new_gid: None },
                message: None,
                apply: false,
            }
        };
        FileStep { in_scope, action: FileAction::Remap(plan) }
    }

    /// Runs over a traversal that was recorded beforehand: validates the
    /// configuration, checks the base directory, processes the entries in
    /// order and sums up.
    ///
    /// `exists` and `is_dir` say what was found at the base directory.
    /// `entries` is what the traversal yields below it, after pruning by the
    /// exclusion patterns. A configuration that is not valid is refused
    /// before the base directory is looked at, and a base directory that
    /// cannot be entered is refused before any entry is.
    pub fn execute(self, exists: bool, is_dir: bool, entries: &Vec<TraversalEntry>) -> (result:
        Result<ExecutionReport, RustUtilsError>)
        ensures
            result is Ok <==> self.config().valid() && exists && is_dir,
            match result {
                Ok(report) => {
                    let run = spec_run(self.config(), self.seen(), entries@);
                    &&& report.summary.processed() == run.processed
                    &&& report.summary.remapped() == run.remapped
                    &&& report.steps@.len() == entries@.len()
                    &&& forall|i: int|
                        0 <= i < entries@.len() ==> step_view(#[trigger] report.steps@[i])
                            == run.steps[i]
                },
                Err(e) => if !self.config().valid() {
                    e matches RustUtilsError::InvalidRange(m) && self.config().validation_failure()
                        == Some(m@)
                } else {
                    e matches RustUtilsError::DirectoryNotFound(m) && self.config().open_failure(
                        exists,
                        is_dir,
                    ) == Some(m@)
                },
            },
    {
        let mut command = self;
        command.validate_args()?;
        command.check_base_directory(exists, is_dir)?;
        let mut summary = RunSummary::new();
        let mut steps: Vec<Option<FileStep>> = Vec::new();
        let mut i: usize = 0;
        while i < entries.len()
            invariant
                i <= entries@.len(),
                command.config() == self.config(),
                command.config().valid(),
                command.seen() == spec_run(self.config(), self.seen(), entries@.take(i as int)).seen,
                summary.processed() == spec_run(
                    self.config(),
                    self.seen(),
                    entries@.take(i as int),
                ).processed,
                summary.remapped() == spec_run(
                    self.config(),
                    self.seen(),
                    entries@.take(i as int),
                ).remapped,
                summary.processed() <= i,
                steps@.len() == i,
                spec_run(self.config(), self.seen(), entries@.take(i as int)).steps.len() == i,
                forall|k: int|
                    0 <= k < i ==> step_view(#[trigger] steps@[k]) == spec_run(
                        self.config(),
                        self.seen(),
                        entries@.take(i as int),
                    ).steps[k],
            decreases entries@.len() - i,
        {
            proof {
                assert(entries@.take(i + 1).drop_last() =~= entries@.take(i as int));
            }
            let entry = &entries[i];
            match &entry.metadata {
                None => {
                    steps.push(None);
                },
                Some(metadata) => {
                    let step = command.process_file(entry.path.as_str(), metadata);
                    summary.record(&step);
                    steps.push(Some(step));
                },
            }
            i += 1;
        }
        proof {
            assert(entries@.take(i as int) =~= entries@);
        }
        Ok(ExecutionReport { summary, steps })
    }
}

} // verus!
