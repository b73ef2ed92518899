//! A run over the entries of a traversal: what it registers, what it counts,
//! and the step it takes for each entry.

use crate::commands::remap::{
    spec_step, FileActionView, FileStep, FileStepView, RemapArgs,
};
use crate::ownership::{FileIdentity, OwnershipSnapshot};
use crate::registry::registered;
use vstd::prelude::*;

verus! {

/// One entry of a traversal: its path, and its ownership if that could be read.
#[derive(Debug)]
pub struct TraversalEntry {
    /// The text of the entry's path.
    pub path: String,
    /// What was read of the entry's ownership; `None` if reading failed.
    pub metadata: Option<OwnershipSnapshot>,
}

/// The totals of a run.
#[derive(Debug)]
pub struct RunSummary {
    files_processed: u64,
    files_remapped: u64,
}

impl RunSummary {
    /// No entry is counted as remapped that is not counted as processed.
    #[verifier::type_invariant]
    spec fn counts_agree(&self) -> bool {
        self.files_remapped <= self.files_processed
    }

    /// How many entries were processed: those whose ownership could be read.
    pub closed spec fn processed(&self) -> nat {
        self.files_processed as nat
    }

    /// How many entries were counted as remapped: the processed entries
    /// whose ownership fell in the source range.
    pub closed spec fn remapped(&self) -> nat {
        self.files_remapped as nat
    }

    /// The totals of a run that has seen no entry.
    pub fn new() -> (summary: RunSummary)
        ensures
            summary.processed() == 0,
            summary.remapped() == 0,
    {
        RunSummary { files_processed: 0, files_remapped: 0 }
    }

    /// How many entries were processed.
    pub fn files_processed(&self) -> (count: u64)
        ensures
            count == self.processed(),
    {
        self.files_processed
    }

    /// How many entries were counted as remapped.
    pub fn files_remapped(&self) -> (count: u64)
        ensures
            count == self.remapped(),
            count <= self.processed(),
    {
        proof {
            use_type_invariant(self);
        }
        self.files_remapped
    }

    /// Whether the run has come to a multiple of a thousand processed
    /// entries, where a verbose run reports its progress.
    pub fn at_progress_mark(&self) -> (due: bool)
        ensures
            due == (self.processed() % 1000 == 0),
    {
        self.files_processed % 1000 == 0
    }

    /// Counts one processed entry, and counts it as remapped if it is in
    /// scope, whether or not its ownership is changed.
    pub fn record(&mut self, step: &FileStep)
        requires
            old(self).processed() < u64::MAX,
        ensures
            final(self).processed() == old(self).processed() + 1,
            final(self).remapped() == old(self).remapped() + if step.in_scope {
                1nat
            } else {
                0nat
            },
    {
        proof {
            use_type_invariant(&*self);
        }
        let files_processed = self.files_processed + 1;
        let files_remapped = if step.in_scope {
            self.files_remapped + 1
        } else {
            self.files_remapped
        };
        *self = RunSummary { files_processed, files_remapped };
    }
}

/// What a run over a traversal comes to.
#[derive(Debug)]
pub struct ExecutionReport {
    /// The totals.
    pub summary: RunSummary,
    /// For each entry of the traversal, in order: its step, or `None` where
    /// its ownership could not be read.
    pub steps: Vec<Option<FileStep>>,
}

/// The state of a run after some entries: the registry, the totals, and the
/// steps so far.
pub struct RunState {
    pub seen: Map<FileIdentity, Seq<char>>,
    pub processed: nat,
    pub remapped: nat,
    pub steps: Seq<Option<FileStepView>>,
}

/// The state of a run after one more entry.
///
/// An entry whose ownership could not be read counts for nothing and changes
/// nothing. Any other entry is processed: it counts as processed, it counts
/// as remapped if it is in scope, and it is registered if it is the first
/// path of an object with several links.
pub open spec fn spec_visit(args: RemapArgs, before: RunState, entry: TraversalEntry) -> RunState {
    match entry.metadata {
        None => RunState {
            seen: before.seen,
            processed: before.processed,
            remapped: before.remapped,
            steps: before.steps.push(None),
        },
        Some(metadata) => RunState {
            seen: registered(before.seen, metadata.identity(), entry.path@, metadata.link_count),
            processed: before.processed + 1,
            remapped: before.remapped + if args.spec_in_scope(metadata.uid, metadata.gid) {
                1nat
            } else {
                0nat
            },
            steps: before.steps.push(Some(spec_step(args, before.seen, entry.path@, metadata))),
        },
    }
}

/// The state of a run that started with the registry `seen` and has visited
/// `entries` in order.
pub open spec fn spec_run(
    args: RemapArgs,
    seen: Map<FileIdentity, Seq<char>>,
    entries: Seq<TraversalEntry>,
) -> RunState
    decreases entries.len(),
{
    if entries.len() == 0 {
        RunState { seen, processed: 0, remapped: 0, steps: Seq::empty() }
    } else {
        spec_visit(args, spec_run(args, seen, entries.drop_last()), entries.last())
    }
}

/// Every entry gets one step, and the totals count entries: no more are
/// counted as remapped than as processed, and no more as processed than
/// there are.
pub proof fn lemma_run_counts(
    args: RemapArgs,
    seen: Map<FileIdentity, Seq<char>>,
    entries: Seq<TraversalEntry>,
)
    ensures
        spec_run(args, seen, entries).steps.len() == entries.len(),
        spec_run(args, seen, entries).remapped <= spec_run(args, seen, entries).processed,
        spec_run(args, seen, entries).processed <= entries.len(),
    decreases entries.len(),
{
    if entries.len() > 0 {
        lemma_run_counts(args, seen, entries.drop_last());
    }
}

/// Whether the ownership of an entry could be read.
pub open spec fn readable(entry: TraversalEntry) -> bool {
    entry.metadata is Some
}

/// Whether the ownership of an entry could be read and is in scope.
pub open spec fn readable_in_scope(args: RemapArgs, entry: TraversalEntry) -> bool {
    entry.metadata matches Some(metadata) && args.spec_in_scope(metadata.uid, metadata.gid)
}

/// The totals of a run: the entries whose ownership could be read are the
/// processed ones, and those among them whose ownership is in scope are the
/// remapped ones, whether or not they were skipped as hard links or had
/// anything to change.
pub proof fn lemma_run_totals(
    args: RemapArgs,
    seen: Map<FileIdentity, Seq<char>>,
    entries: Seq<TraversalEntry>,
)
    ensures
        spec_run(args, seen, entries).processed == entries.filter(
            |entry: TraversalEntry| readable(entry),
        ).len(),
        spec_run(args, seen, entries).remapped == entries.filter(
            |entry: TraversalEntry| readable_in_scope(args, entry),
        ).len(),
    decreases entries.len(),
{
    let is_readable = |entry: TraversalEntry| readable(entry);
    let is_in_scope = |entry: TraversalEntry| readable_in_scope(args, entry);
    if entries.len() == 0 {
        assert(entries.filter(is_readable) =~= Seq::<TraversalEntry>::empty()) by {
            reveal(Seq::filter);
        }
        assert(entries.filter(is_in_scope) =~= Seq::<TraversalEntry>::empty()) by {
            reveal(Seq::filter);
        }
    } else {
        lemma_run_totals(args, seen, entries.drop_last());
        assert(entries.filter(is_readable).len() == entries.drop_last().filter(is_readable).len()
            + if readable(entries.last()) {
            1nat
        } else {
            0nat
        }) by {
            reveal(Seq::filter);
        }
        assert(entries.filter(is_in_scope).len() == entries.drop_last().filter(is_in_scope).len()
            + if readable_in_scope(args, entries.last()) {
            1nat
        } else {
            0nat
        }) by {
            reveal(Seq::filter);
        }
    }
}

/// What the first `n` entries of a traversal come to does not depend on the
/// entries behind them: their steps stay, and what they registered stays
/// registered with the same paths.
pub proof fn lemma_run_keeps_earlier_steps(
    args: RemapArgs,
    seen: Map<FileIdentity, Seq<char>>,
    entries: Seq<TraversalEntry>,
    n: int,
)
    requires
        0 <= n <= entries.len(),
    ensures
        spec_run(args, seen, entries.take(n)).seen.submap_of(spec_run(args, seen, entries).seen),
        spec_run(args, seen, entries.take(n)).steps == spec_run(args, seen, entries).steps.take(n),
    decreases entries.len(),
{
    let whole = spec_run(args, seen, entries);
    let part = spec_run(args, seen, entries.take(n));
    if n == entries.len() {
        assert(entries.take(n) =~= entries);
        lemma_run_counts(args, seen, entries);
    } else {
        let shorter = entries.drop_last();
        let before = spec_run(args, seen, shorter);
        assert(shorter.take(n) =~= entries.take(n));
        lemma_run_keeps_earlier_steps(args, seen, shorter, n);
        lemma_run_counts(args, seen, shorter);
        assert forall|identity: FileIdentity| #[trigger]
            part.seen.contains_key(identity) implies whole.seen.contains_key(identity)
            && whole.seen[identity] == part.seen[identity] by {
            assert(before.seen.contains_key(identity));
        }
    }
}

/// The registry only grows during a run, and a path that is registered
/// stays as it is.
pub proof fn lemma_run_registry_grows(
    args: RemapArgs,
    seen: Map<FileIdentity, Seq<char>>,
    entries: Seq<TraversalEntry>,
)
    ensures
        seen.submap_of(spec_run(args, seen, entries).seen),
{
    lemma_run_keeps_earlier_steps(args, seen, entries, 0);
}

/// The step of each entry is the step for its path and ownership in the
/// registry that the entries before it have left; an entry whose ownership
/// could not be read has none.
pub proof fn lemma_run_step(
    args: RemapArgs,
    seen: Map<FileIdentity, Seq<char>>,
    entries: Seq<TraversalEntry>,
    j: int,
)
    requires
        0 <= j < entries.len(),
    ensures
        spec_run(args, seen, entries).steps[j] == match entries[j].metadata {
            Some(metadata) => Some(
                spec_step(
                    args,
                    spec_run(args, seen, entries.take(j)).seen,
                    entries[j].path@,
                    metadata,
                ),
            ),
            None => None,
        },
{
    assert(entries.take(j + 1).drop_last() =~= entries.take(j));
    lemma_run_counts(args, seen, entries.take(j));
    lemma_run_keeps_earlier_steps(args, seen, entries, j + 1);
    lemma_run_counts(args, seen, entries);
    assert(spec_run(args, seen, entries).steps.take(j + 1)[j] == spec_run(
        args,
        seen,
        entries,
    ).steps[j]);
}

/// A dry run applies nothing to any entry of a traversal.
pub proof fn lemma_dry_run_applies_nothing(
    args: RemapArgs,
    seen: Map<FileIdentity, Seq<char>>,
    entries: Seq<TraversalEntry>,
    j: int,
)
    requires
        args.dry_run,
        0 <= j < entries.len(),
    ensures
        match spec_run(args, seen, entries).steps[j] {
            Some(step) => match step.action {
                FileActionView::Remap(plan) => !plan.apply,
                FileActionView::SkipHardLink { .. } => true,
            },
            None => true,
        },
{
    lemma_run_step(args, seen, entries, j);
}

/// An object with several links is handled once in a traversal: when one
/// entry of it has been processed, every later entry of it is skipped.
pub proof fn lemma_later_link_is_skipped(
    args: RemapArgs,
    seen: Map<FileIdentity, Seq<char>>,
    entries: Seq<TraversalEntry>,
    i: int,
    j: int,
)
    requires
        0 <= i < j < entries.len(),
        entries[i].metadata is Some,
        entries[j].metadata is Some,
        entries[i].metadata->0.identity() == entries[j].metadata->0.identity(),
        entries[i].metadata->0.link_count > 1,
        entries[j].metadata->0.link_count > 1,
    ensures
        spec_run(args, seen, entries).steps[j] matches Some(step) && step.action is SkipHardLink,
{
    let identity = entries[i].metadata->0.identity();
    let after_i = spec_run(args, seen, entries.take(i + 1));

    // The entry at `i` leaves the identity registered,
    assert(entries.take(i + 1).drop_last() =~= entries.take(i));
    assert(after_i.seen.contains_key(identity));

    // it is still registered when the entry at `j` is reached,
    assert(entries.take(j).take(i + 1) =~= entries.take(i + 1));
    lemma_run_keeps_earlier_steps(args, seen, entries.take(j), i + 1);

    // and so the step at `j` is a skip.
    lemma_run_step(args, seen, entries, j);
}

/// A step, or its absence, with its texts as sequences of characters.
pub open spec fn step_view(step: Option<FileStep>) -> Option<FileStepView> {
    match step {
        Some(step) => Some(step@),
        None => None,
    }
}

} // verus!
