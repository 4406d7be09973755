use vstd::prelude::*;

use crate::checkpoint::{checkpoint_value, decimal};
use crate::events::{max_event_id, max_id, ActionHint, PendingPathEvent, PendingPathEventWithId};
use crate::paths::{
    spec_file_name, file_name, subtree_like_pattern,
};
use crate::types::FileEntry;
use crate::walker::{
    is_ignored_path, should_ignore_path, entry_describes, file_entry_from_path, file_kind, parent_or_empty, recorded_parent,
    spec_file_kind,
};

verus! {

/// Where the live indexer's loop stands.
#[derive(Debug, Clone, Copy, PartialEq, Eq, Structural)]
pub enum IndexerPhase {
    /// Blocked until the first event of the next batch arrives.
    Waiting,
    /// Gathering the rest of a batch within its time window.
    Collecting,
    /// Done: the channel is gone.
    Stopped,
}

/// What the event channel gave the loop.
#[derive(Debug, Clone, Copy, PartialEq, Eq, Structural)]
pub enum ChannelEvent {
    /// An event arrived (and was buffered).
    Received,
    /// The channel had nothing right now.
    Empty,
    /// The batch window ran out.
    WindowElapsed,
    /// The sender is gone and the channel is drained.
    Closed,
}

/// What the loop does next.
#[derive(Debug, Clone, Copy, PartialEq, Eq, Structural)]
pub enum IndexerAction {
    /// Keep polling the channel for more of the batch.
    Poll,
    /// Sleep a little before polling again.
    Sleep,
    /// Apply the buffered batch, commit it and store its checkpoint; then
    /// stop if `then_stop`, else wait for the next batch.
    ApplyBatch { then_stop: bool },
    /// Stop without a batch to apply.
    Stop,
}

/// One step of the live indexer's loop.
pub open spec fn spec_indexer_step(phase: IndexerPhase, event: ChannelEvent) -> (
    IndexerPhase,
    IndexerAction,
) {
    match phase {
        IndexerPhase::Waiting => match event {
            ChannelEvent::Closed => (IndexerPhase::Stopped, IndexerAction::Stop),
            ChannelEvent::Received => (IndexerPhase::Collecting, IndexerAction::Poll),
            _ => (IndexerPhase::Waiting, IndexerAction::Poll),
        },
        IndexerPhase::Collecting => match event {
            ChannelEvent::Received => (IndexerPhase::Collecting, IndexerAction::Poll),
            ChannelEvent::Empty => (IndexerPhase::Collecting, IndexerAction::Sleep),
            ChannelEvent::WindowElapsed => (
                IndexerPhase::Waiting,
                IndexerAction::ApplyBatch { then_stop: false },
            ),
            ChannelEvent::Closed => (
                IndexerPhase::Stopped,
                IndexerAction::ApplyBatch { then_stop: true },
            ),
        },
        IndexerPhase::Stopped => (IndexerPhase::Stopped, IndexerAction::Stop),
    }
}

/// One step of the live indexer: the first event of a batch opens a
/// time window during which more events are gathered; when the window
/// runs out the batch is applied, and when the channel goes away the
/// gathered batch is still applied before the loop stops.
pub fn indexer_step(phase: IndexerPhase, event: ChannelEvent) -> (r: (IndexerPhase, IndexerAction))
    ensures
        r == spec_indexer_step(phase, event),
{
    match phase {
        IndexerPhase::Waiting => match event {
            ChannelEvent::Closed => (IndexerPhase::Stopped, IndexerAction::Stop),
            ChannelEvent::Received => (IndexerPhase::Collecting, IndexerAction::Poll),
            _ => (IndexerPhase::Waiting, IndexerAction::Poll),
        },
        IndexerPhase::Collecting => match event {
            ChannelEvent::Received => (IndexerPhase::Collecting, IndexerAction::Poll),
            ChannelEvent::Empty => (IndexerPhase::Collecting, IndexerAction::Sleep),
            ChannelEvent::WindowElapsed => (
                IndexerPhase::Waiting,
                IndexerAction::ApplyBatch { then_stop: false },
            ),
            ChannelEvent::Closed => (
                IndexerPhase::Stopped,
                IndexerAction::ApplyBatch { then_stop: true },
            ),
        },
        IndexerPhase::Stopped => (IndexerPhase::Stopped, IndexerAction::Stop),
    }
}

/// No gathered event is dropped: once a batch has begun, the loop leaves
/// the gathering phase only by applying the batch, and it stops only
/// after the channel is gone.
pub proof fn lemma_batch_applied_before_leaving(phase: IndexerPhase, event: ChannelEvent)
    ensures
        phase == IndexerPhase::Collecting && spec_indexer_step(phase, event).0
            != IndexerPhase::Collecting ==> spec_indexer_step(phase, event).1 is ApplyBatch,
        spec_indexer_step(phase, event).0 == IndexerPhase::Stopped ==> (event
            == ChannelEvent::Closed || phase == IndexerPhase::Stopped),
{
}

/// What the watcher's loop was woken by.
#[derive(Debug)]
pub enum WatcherEvent {
    /// The shutdown signal fired; the flag now reads this value.
    Shutdown(bool),
    /// The event stream gave an event on this path.
    StreamEvent(String),
    /// The event stream ended.
    StreamEnded,
    /// Handing the last event to the indexer succeeded (`true`) or
    /// failed because the indexer is gone (`false`).
    Sent(bool),
}

/// What the watcher does next.
#[derive(Debug, Clone, Copy, PartialEq, Eq, Structural)]
pub enum WatcherAction {
    /// Keep listening.
    Continue,
    /// Drop this event and keep listening.
    Skip,
    /// Hand this event to the indexer.
    Forward,
    /// Stop watching.
    Stop,
}

/// The watcher's decision on what woke it.
pub open spec fn spec_watcher_step(event: WatcherEvent, data_dir: Seq<char>) -> WatcherAction {
    match event {
        WatcherEvent::Shutdown(requested) => if requested {
            WatcherAction::Stop
        } else {
            WatcherAction::Continue
        },
        WatcherEvent::StreamEvent(path) => if is_ignored_path(path@, data_dir) {
            WatcherAction::Skip
        } else {
            WatcherAction::Forward
        },
        WatcherEvent::StreamEnded => WatcherAction::Stop,
        WatcherEvent::Sent(ok) => if ok {
            WatcherAction::Continue
        } else {
            WatcherAction::Stop
        },
    }
}

/// One step of the watcher: it stops when shutdown is requested, when the
/// event stream ends, or when the indexer is gone; an event on an ignored
/// path (see `should_ignore_path`, with the data directory `data_dir`)
/// is dropped, and any other event is handed to the indexer.
pub fn watcher_step(event: &WatcherEvent, data_dir: &str) -> (r: WatcherAction)
    ensures
        r == spec_watcher_step(*event, data_dir@),
{
    match event {
        WatcherEvent::Shutdown(requested) => if *requested {
            WatcherAction::Stop
        } else {
            WatcherAction::Continue
        },
        WatcherEvent::StreamEvent(path) => if should_ignore_path(path.as_str(), data_dir) {
            WatcherAction::Skip
        } else {
            WatcherAction::Forward
        },
        WatcherEvent::StreamEnded => WatcherAction::Stop,
        WatcherEvent::Sent(ok) => if *ok {
            WatcherAction::Continue
        } else {
            WatcherAction::Stop
        },
    }
}

/// One step of applying a batch.
#[derive(Debug)]
pub enum BatchStep {
    /// Apply the action for one path.
    Apply(PendingPathEvent),
    /// Commit the search index's pending changes.
    Commit,
    /// Store this value under the checkpoint key.
    StoreCheckpoint(String),
}

/// `step` applies the action of `p`.
pub open spec fn applies(step: BatchStep, p: PendingPathEventWithId) -> bool {
    step matches BatchStep::Apply(e) && e.action == p.inner.action && e.raw_flags
        == p.inner.raw_flags && e.path@ == p.inner.path@
}

/// The highest event id of `pending` (0 when there is none).
pub open spec fn batch_max_id(pending: Seq<PendingPathEventWithId>) -> u64 {
    max_id(pending.map_values(|p: PendingPathEventWithId| p.event_id))
}

/// `steps` applies the batch `pending`: each action in the batch's order,
/// then one commit, then, when the batch's highest event id is above 0,
/// the store of that id in decimal as the checkpoint.
pub open spec fn is_batch_plan(steps: Seq<BatchStep>, pending: Seq<PendingPathEventWithId>) -> bool {
    let n = pending.len() as int;
    let m = batch_max_id(pending);
    &&& steps.len() == n + 1 + (if m > 0 { 1int } else { 0int })
    &&& forall|i: int| 0 <= i < n ==> applies(#[trigger] steps[i], pending[i])
    &&& steps[n] is Commit
    &&& m > 0 ==> (steps[n + 1] matches BatchStep::StoreCheckpoint(v) && v@ == decimal(m as nat))
}

/// The steps that apply a batch of pending actions: each action in order,
/// a commit of the search index, and then the batch's highest event id
/// as the new checkpoint (when it is above 0), so that a restart never
/// resumes past an event whose action was not applied and committed.
pub fn plan_batch(pending: &Vec<PendingPathEventWithId>) -> (steps: Vec<BatchStep>)
    ensures
        is_batch_plan(steps@, pending@),
{
    let mut steps: Vec<BatchStep> = Vec::new();
    let mut i: usize = 0;
    while i < pending.len()
        invariant
            i <= pending.len(),
            steps@.len() == i,
            forall|k: int| 0 <= k < i ==> applies(#[trigger] steps@[k], pending@[k]),
        decreases pending.len() - i,
    {
        let p = &pending[i];
        let step = BatchStep::Apply(
            PendingPathEvent {
                action: p.inner.action,
                raw_flags: p.inner.raw_flags,
                path: p.inner.path.clone(),
            },
        );
        steps.push(step);
        i = i + 1;
    }
    steps.push(BatchStep::Commit);
    let m = max_event_id(pending);
    match checkpoint_value(m) {
        Some(v) => steps.push(BatchStep::StoreCheckpoint(v)),
        None => {},
    }
    steps
}

/// The checkpoint is written last: in the plan of a batch, no step
/// follows the store of the checkpoint, every action comes before the
/// commit, and the checkpoint is stored exactly when the batch has an
/// event id above 0.
pub proof fn lemma_checkpoint_stored_last(
    steps: Seq<BatchStep>,
    pending: Seq<PendingPathEventWithId>,
)
    requires
        is_batch_plan(steps, pending),
    ensures
        forall|j: int|
            0 <= j < steps.len() && (#[trigger] steps[j] is StoreCheckpoint) ==> j == steps.len()
                - 1,
        forall|i: int, j: int|
            0 <= i < steps.len() && 0 <= j < steps.len() && (#[trigger] steps[i] is Commit) && (
            #[trigger] steps[j] is Apply) ==> j < i,
        (exists|j: int| 0 <= j < steps.len() && (#[trigger] steps[j] is StoreCheckpoint)) <==> batch_max_id(pending) > 0,
{
    let n = pending.len() as int;
    assert forall|j: int| 0 <= j < steps.len() && (#[trigger] steps[j] is StoreCheckpoint) implies j
        == steps.len() - 1 by {
        if j < n {
            assert(applies(steps[j], pending[j]));
        }
    }
    assert forall|i: int, j: int|
        0 <= i < steps.len() && 0 <= j < steps.len() && (#[trigger] steps[i] is Commit) && (
        #[trigger] steps[j] is Apply) implies j < i by {
        if i < n {
            assert(applies(steps[i], pending[i]));
        }
    }
    if batch_max_id(pending) > 0 {
        assert(steps[n + 1] is StoreCheckpoint);
    }
}

/// The first step for a pending action.
#[derive(Debug, Clone, Copy, PartialEq, Eq, Structural)]
pub enum EventPlan {
    /// Read the path's metadata (without following a link), then decide
    /// with `plan_sync`.
    StatThenSync,
    /// Remove the path from the index.
    Delete,
    /// Only report the event.
    Ignore,
}

/// The first step for a pending action.
pub fn plan_event(action: ActionHint) -> (r: EventPlan)
    ensures
        r == (match action {
            ActionHint::SyncPath => EventPlan::StatThenSync,
            ActionHint::Remove => EventPlan::Delete,
            ActionHint::Ignore => EventPlan::Ignore,
        }),
{
    match action {
        ActionHint::SyncPath => EventPlan::StatThenSync,
        ActionHint::Remove => EventPlan::Delete,
        ActionHint::Ignore => EventPlan::Ignore,
    }
}

/// What reading a path's metadata gave.
pub enum StatOutcome {
    /// The path exists, with this file type, length and modification time
    /// (whole seconds after the epoch, when there is one).
    Found { is_file: bool, is_dir: bool, is_symlink: bool, len: u64, modified_secs: Option<u64> },
    /// Nothing is at the path any more.
    NotFound,
    /// The metadata could not be read for another reason.
    Failed,
}

/// What to do for a path that changed, once its metadata is read.
pub enum SyncStep {
    /// Store this entry in the database and the search index.
    Upsert(FileEntry),
    /// The path is gone: remove it, as for a removal event.
    Delete,
    /// Report that the metadata could not be read.
    StatFailed,
    /// Report that the path does not end in a name.
    NoTerminalName,
}

/// Decides what to do for a path that changed: a vanished path is
/// removed, an unreadable one reported, and an existing one stored as an
/// entry marked indexed (or reported if it does not end in a name).
pub fn plan_sync(path: &str, stat: StatOutcome) -> (r: SyncStep)
    ensures
        match stat {
            StatOutcome::NotFound => r is Delete,
            StatOutcome::Failed => r is StatFailed,
            StatOutcome::Found { is_file, is_dir, is_symlink, len, modified_secs } => match r {
                SyncStep::Upsert(e) => entry_describes(
                    e,
                    path@,
                    len,
                    modified_secs,
                    spec_file_kind(is_file, is_dir, is_symlink),
                    1,
                ),
                SyncStep::NoTerminalName => spec_file_name(path@) is None,
                _ => false,
            },
        },
{
    match stat {
        StatOutcome::NotFound => SyncStep::Delete,
        StatOutcome::Failed => SyncStep::StatFailed,
        StatOutcome::Found { is_file, is_dir, is_symlink, len, modified_secs } => {
            let kind = file_kind(is_file, is_dir, is_symlink);
            match file_entry_from_path(path, len, modified_secs, kind, 1) {
                Some(e) => SyncStep::Upsert(e),
                None => SyncStep::NoTerminalName,
            }
        },
    }
}

/// Whether the kind stored for an entry is that of a directory.
pub fn is_dir_kind(kind: &str) -> (r: bool)
    ensures
        r == (kind@ == "dir"@),
{
    String::from_str(kind).eq(&String::from_str("dir"))
}

/// The directory and the name under which `path` is stored: its parent
/// (empty if none) and its last component if that is a name (empty
/// otherwise).
pub fn stored_location(path: &str) -> (r: (String, String))
    ensures
        r.0@ == recorded_parent(path@),
        r.1@ == (match spec_file_name(path@) {
            Some(n) => n,
            None => Seq::<char>::empty(),
        }),
{
    let parent = parent_or_empty(path);
    let name = match file_name(path) {
        Some(n) => n,
        None => String::new(),
    };
    (parent, name)
}

/// How to remove a path from the index.
pub enum DeletePlan {
    /// Remove the directory `root`, every entry under it (the paths that
    /// match `like_pattern`) and their search documents.
    Directory { root: String, like_pattern: String },
    /// Remove the one entry `name` in `parent`, and the search document
    /// of `path`.
    File { parent: String, name: String, path: String },
}

/// Decides how to remove `path`, given the kind stored for it (none when
/// the lookup failed or found nothing): a stored directory is removed
/// with everything under it, anything else as a single entry.
pub fn plan_delete(path: &str, stored_kind: Option<String>) -> (r: DeletePlan)
    ensures
        match r {
            DeletePlan::Directory { root, like_pattern } => {
                &&& stored_kind matches Some(k) && k@ == "dir"@
                &&& root@ == path@
                &&& like_pattern@ == path@ + seq!['/', '%']
            },
            DeletePlan::File { parent, name, path: p } => {
                &&& !(stored_kind matches Some(k) && k@ == "dir"@)
                &&& parent@ == recorded_parent(path@)
                &&& name@ == (match spec_file_name(path@) {
                    Some(n) => n,
                    None => Seq::<char>::empty(),
                })
                &&& p@ == path@
            },
        },
{
    let is_dir = match &stored_kind {
        Some(k) => is_dir_kind(k.as_str()),
        None => false,
    };
    if is_dir {
        DeletePlan::Directory { root: String::from_str(path), like_pattern: subtree_like_pattern(path) }
    } else {
        let (parent, name) = stored_location(path);
        DeletePlan::File { parent, name, path: String::from_str(path) }
    }
}

} // verus!
