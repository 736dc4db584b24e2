use vstd::prelude::*;

verus! {

/// What the traversal of a tree found.
#[derive(Debug, Clone, Copy, PartialEq, Eq, Structural)]
pub enum EntryKind {
    /// The root of the walk itself.
    Root,
    /// A regular file below the root.
    File,
    /// A directory below the root.
    Directory,
    /// Anything else (a dangling link, a socket): left to the final removal.
    Other,
}

/// Where the shredding of a directory tree stands.
#[derive(Debug, Clone, Copy, PartialEq, Eq, Structural)]
pub enum WalkPhase {
    /// The next entry of the traversal is to be fetched.
    Traversing,
    /// The file just found is to be shredded before the walk goes on.
    Shredding,
    /// Every file was shredded; the tree is to be removed in one operation.
    Removing,
    /// The tree is gone.
    Done,
    /// A step failed; the tree is left as it stands.
    Failed,
}

/// The outcome of the operation that a walk asked for last.
#[derive(Debug, Clone, Copy, PartialEq, Eq, Structural)]
pub enum WalkEvent {
    /// The traversal yielded an entry of this kind.
    Entry(EntryKind),
    /// The traversal could not read an entry.
    WalkError,
    /// The traversal has no entries left.
    TraversalEnded,
    /// The file was overwritten and deleted.
    FileShredded,
    /// Shredding the file failed.
    FileFailed,
    /// The tree was removed.
    TreeRemoved,
    /// Removing the tree failed.
    RemovalFailed,
}

/// The operation that a walk asks its driver to perform next.
#[derive(Debug, Clone, Copy, PartialEq, Eq, Structural)]
pub enum WalkAction {
    /// Fetch the next entry of the traversal.
    NextEntry,
    /// Shred the entry just found, with the walk's passes and threads.
    ShredFile,
    /// Remove the root and everything left below it.
    RemoveTree,
    /// Report success.
    Finish,
    /// Report the failure of the last operation.
    Abort,
}

/// The shredding of one directory tree.
#[derive(Debug, Clone, Copy, PartialEq, Eq, Structural)]
pub struct TreeWalk {
    pub phase: WalkPhase,
}

/// The phase after `ev` is reported in `phase`. Every regular file is
/// shredded before the walk goes on; the root and directories are left to the
/// final removal; the tree is removed only once the traversal ended with no
/// failure; any failure, or an outcome that answers no request, ends the walk
/// as failed; a finished or failed walk stays as it is.
pub open spec fn walk_step(phase: WalkPhase, ev: WalkEvent) -> WalkPhase {
    match phase {
        WalkPhase::Traversing => match ev {
            WalkEvent::Entry(kind) => if kind == EntryKind::File {
                WalkPhase::Shredding
            } else {
                WalkPhase::Traversing
            },
            WalkEvent::TraversalEnded => WalkPhase::Removing,
            _ => WalkPhase::Failed,
        },
        WalkPhase::Shredding => match ev {
            WalkEvent::FileShredded => WalkPhase::Traversing,
            _ => WalkPhase::Failed,
        },
        WalkPhase::Removing => match ev {
            WalkEvent::TreeRemoved => WalkPhase::Done,
            _ => WalkPhase::Failed,
        },
        WalkPhase::Done => WalkPhase::Done,
        WalkPhase::Failed => WalkPhase::Failed,
    }
}

/// The operation asked for in `phase`.
pub open spec fn walk_action_of(phase: WalkPhase) -> WalkAction {
    match phase {
        WalkPhase::Traversing => WalkAction::NextEntry,
        WalkPhase::Shredding => WalkAction::ShredFile,
        WalkPhase::Removing => WalkAction::RemoveTree,
        WalkPhase::Done => WalkAction::Finish,
        WalkPhase::Failed => WalkAction::Abort,
    }
}

/// The phase after each outcome of `evs` is reported in turn, from `phase`.
pub open spec fn walk_run(phase: WalkPhase, evs: Seq<WalkEvent>) -> WalkPhase
    decreases evs.len(),
{
    if evs.len() == 0 {
        phase
    } else {
        walk_step(walk_run(phase, evs.drop_last()), evs.last())
    }
}

/// How many regular files the traversal reported in `evs`.
pub open spec fn files_found(evs: Seq<WalkEvent>) -> nat
    decreases evs.len(),
{
    if evs.len() == 0 {
        0
    } else {
        files_found(evs.drop_last()) + if evs.last() == WalkEvent::Entry(EntryKind::File) {
            1nat
        } else {
            0nat
        }
    }
}

/// How many files `evs` reports as shredded.
pub open spec fn files_shredded(evs: Seq<WalkEvent>) -> nat
    decreases evs.len(),
{
    if evs.len() == 0 {
        0
    } else {
        files_shredded(evs.drop_last()) + if evs.last() is FileShredded {
            1nat
        } else {
            0nat
        }
    }
}

/// `e` reports a failure.
pub open spec fn is_walk_failure(e: WalkEvent) -> bool {
    e is WalkError || e is FileFailed || e is RemovalFailed
}

/// `evs` reports a failure.
pub open spec fn walk_failure_reported(evs: Seq<WalkEvent>) -> bool {
    exists|k: int| 0 <= k < evs.len() && #[trigger] is_walk_failure(evs[k])
}

/// `evs` reports that the traversal ended and that the tree was removed.
pub open spec fn tree_removal_reported(evs: Seq<WalkEvent>) -> bool {
    &&& exists|k: int| 0 <= k < evs.len() && #[trigger] evs[k] is TraversalEnded
    &&& exists|k: int| 0 <= k < evs.len() && #[trigger] evs[k] is TreeRemoved
}

proof fn lemma_walk_run_invariant(evs: Seq<WalkEvent>)
    ensures
        walk_run(WalkPhase::Traversing, evs) is Traversing ==> files_found(evs) == files_shredded(
            evs,
        ) && !walk_failure_reported(evs),
        walk_run(WalkPhase::Traversing, evs) is Shredding ==> files_found(evs) == files_shredded(
            evs,
        ) + 1 && !walk_failure_reported(evs),
        walk_run(WalkPhase::Traversing, evs) is Removing ==> files_found(evs) == files_shredded(
            evs,
        ) && !walk_failure_reported(evs) && (exists|k: int|
            0 <= k < evs.len() && #[trigger] evs[k] is TraversalEnded),
        walk_run(WalkPhase::Traversing, evs) is Done ==> tree_removal_reported(evs),
    decreases evs.len(),
{
    if evs.len() > 0 {
        let pre = evs.drop_last();
        let e = evs.last();
        lemma_walk_run_invariant(pre);
        assert forall|k: int| 0 <= k < pre.len() implies #[trigger] pre[k] == evs[k] by {}
        assert(evs[evs.len() - 1] == e);
        assert(walk_run(WalkPhase::Traversing, evs) == walk_step(
            walk_run(WalkPhase::Traversing, pre),
            e,
        ));
        if walk_failure_reported(evs) {
            let k = choose|k: int| 0 <= k < evs.len() && #[trigger] is_walk_failure(evs[k]);
            if k < pre.len() {
                assert(is_walk_failure(pre[k]));
            }
        }
        if exists|k: int| 0 <= k < pre.len() && #[trigger] pre[k] is TraversalEnded {
            let k = choose|k: int| 0 <= k < pre.len() && #[trigger] pre[k] is TraversalEnded;
            assert(evs[k] is TraversalEnded);
        }
        if exists|k: int| 0 <= k < pre.len() && #[trigger] pre[k] is TreeRemoved {
            let k = choose|k: int| 0 <= k < pre.len() && #[trigger] pre[k] is TreeRemoved;
            assert(evs[k] is TreeRemoved);
        }
    }
}

/// The tree is removed only after every regular file that the traversal found
/// has been shredded, once the traversal has ended, and only if no failure
/// was reported.
pub proof fn lemma_tree_removed_after_all_files(evs: Seq<WalkEvent>)
    ensures
        walk_run(WalkPhase::Traversing, evs) is Removing ==> files_found(evs) == files_shredded(
            evs,
        ) && !walk_failure_reported(evs),
{
    lemma_walk_run_invariant(evs);
}

/// A walk that reports success has been told that the traversal ended and
/// that the tree was removed.
pub proof fn lemma_walk_done_means_removed(evs: Seq<WalkEvent>)
    ensures
        walk_run(WalkPhase::Traversing, evs) is Done ==> tree_removal_reported(evs),
{
    lemma_walk_run_invariant(evs);
}

proof fn lemma_walk_run_append(phase: WalkPhase, a: Seq<WalkEvent>, b: Seq<WalkEvent>)
    ensures
        walk_run(phase, a + b) == walk_run(walk_run(phase, a), b),
    decreases b.len(),
{
    if b.len() == 0 {
        assert(a + b =~= a);
    } else {
        assert((a + b).drop_last() =~= a + b.drop_last());
        lemma_walk_run_append(phase, a, b.drop_last());
    }
}

proof fn lemma_failed_walk_stays_failed(evs: Seq<WalkEvent>)
    ensures
        walk_run(WalkPhase::Failed, evs) is Failed,
    decreases evs.len(),
{
    if evs.len() > 0 {
        lemma_failed_walk_stays_failed(evs.drop_last());
    }
}

/// Fail-fast: once a failure is reported before the walk has finished, the
/// walk stays failed whatever is reported afterwards; it shreds no further
/// file and never removes the tree.
pub proof fn lemma_walk_failure_is_final(k: int, evs: Seq<WalkEvent>)
    requires
        0 <= k < evs.len(),
        is_walk_failure(evs[k]),
        !(walk_run(WalkPhase::Traversing, evs.take(k)) is Done),
    ensures
        walk_run(WalkPhase::Traversing, evs) is Failed,
{
    let mid = walk_run(WalkPhase::Traversing, evs.take(k));
    assert(evs =~= evs.take(k) + evs.skip(k));
    lemma_walk_run_append(WalkPhase::Traversing, evs.take(k), evs.skip(k));
    let rest = evs.skip(k);
    assert(rest =~= seq![evs[k]] + rest.skip(1));
    lemma_walk_run_append(mid, seq![evs[k]], rest.skip(1));
    assert(seq![evs[k]].drop_last() =~= Seq::<WalkEvent>::empty());
    assert(walk_run(mid, Seq::<WalkEvent>::empty()) == mid);
    assert(walk_run(mid, seq![evs[k]]) == walk_step(mid, evs[k]));
    lemma_failed_walk_stays_failed(rest.skip(1));
}

impl TreeWalk {
    /// Starts a walk at the root of the traversal.
    pub fn new() -> (r: TreeWalk)
        ensures
            r.phase == WalkPhase::Traversing,
    {
        TreeWalk { phase: WalkPhase::Traversing }
    }

    /// The operation to perform next.
    pub fn next_action(&self) -> (a: WalkAction)
        ensures
            a == walk_action_of(self.phase),
    {
        match self.phase {
            WalkPhase::Traversing => WalkAction::NextEntry,
            WalkPhase::Shredding => WalkAction::ShredFile,
            WalkPhase::Removing => WalkAction::RemoveTree,
            WalkPhase::Done => WalkAction::Finish,
            WalkPhase::Failed => WalkAction::Abort,
        }
    }

    /// Takes in the outcome of the last operation.
    pub fn on_event(&mut self, ev: WalkEvent)
        ensures
            final(self).phase == walk_step(old(self).phase, ev),
    {
        let next = match self.phase {
            WalkPhase::Traversing => match ev {
                WalkEvent::Entry(kind) => match kind {
                    EntryKind::File => WalkPhase::Shredding,
                    _ => WalkPhase::Traversing,
                },
                WalkEvent::TraversalEnded => WalkPhase::Removing,
                _ => WalkPhase::Failed,
            },
            WalkPhase::Shredding => match ev {
                WalkEvent::FileShredded => WalkPhase::Traversing,
                _ => WalkPhase::Failed,
            },
            WalkPhase::Removing => match ev {
                WalkEvent::TreeRemoved => WalkPhase::Done,
                _ => WalkPhase::Failed,
            },
            WalkPhase::Done => WalkPhase::Done,
            WalkPhase::Failed => WalkPhase::Failed,
        };
        self.phase = next;
    }
}

} // verus!
