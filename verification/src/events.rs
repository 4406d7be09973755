use vstd::prelude::*;

use crate::walker::{is_ignored_path, should_ignore_path};

verus! {

/// The event flag bit for an item that was removed.
pub const ITEM_REMOVED: u32 = 0x0000_0200;

/// The event flag bit for an item that was created.
pub const ITEM_CREATED: u32 = 0x0000_0100;

/// The event flag bit for an item whose content was modified.
pub const ITEM_MODIFIED: u32 = 0x0000_1000;

/// The event flag bit for an item that was renamed.
pub const ITEM_RENAMED: u32 = 0x0000_0800;

/// What the indexer does about a path after an event on it.
#[derive(Debug, Clone, Copy, PartialEq, Eq, Structural)]
pub enum ActionHint {
    /// Read the path again and store what is there.
    SyncPath,
    /// Drop the path (and, for a directory, everything under it).
    Remove,
    /// Leave the index as it is.
    Ignore,
}

/// One file-system event, as the watcher reports it.
#[derive(Debug)]
pub struct FsEvent {
    pub id: u64,
    pub raw_flags: u32,
    pub path: String,
}

/// The action for one path of a batch.
#[derive(Debug)]
pub struct PendingPathEvent {
    pub action: ActionHint,
    pub raw_flags: u32,
    pub path: String,
}

/// The action for one path of a batch, with the id of the event it came
/// from.
#[derive(Debug)]
pub struct PendingPathEventWithId {
    pub inner: PendingPathEvent,
    pub event_id: u64,
}

/// The action that an event's flags call for: a removal wins over a
/// creation, modification or rename, which call for a sync; any other
/// event is ignored.
pub open spec fn spec_classify_fsevent_flags(raw_flags: u32) -> ActionHint {
    if raw_flags & ITEM_REMOVED != 0 {
        ActionHint::Remove
    } else if raw_flags & (ITEM_CREATED | ITEM_MODIFIED | ITEM_RENAMED) != 0 {
        ActionHint::SyncPath
    } else {
        ActionHint::Ignore
    }
}

/// The action depends only on the removed (0x200), created (0x100),
/// renamed (0x800) and modified (0x1000) bits, whatever other bits (such
/// as the item-is-file bit) are set: a removal wins; otherwise any of the
/// other three calls for a sync; with none of the four the event is
/// ignored.
pub proof fn lemma_classification_by_bits(raw_flags: u32)
    ensures
        raw_flags & 0x200 != 0 ==> spec_classify_fsevent_flags(raw_flags) == ActionHint::Remove,
        raw_flags & 0x200 == 0 && (raw_flags & 0x100 != 0 || raw_flags & 0x800 != 0 || raw_flags
            & 0x1000 != 0) ==> spec_classify_fsevent_flags(raw_flags) == ActionHint::SyncPath,
        raw_flags & 0x200 == 0 && raw_flags & 0x100 == 0 && raw_flags & 0x800 == 0 && raw_flags
            & 0x1000 == 0 ==> spec_classify_fsevent_flags(raw_flags) == ActionHint::Ignore,
        spec_classify_fsevent_flags(raw_flags) == spec_classify_fsevent_flags(raw_flags & 0x1B00),
{
    let f = raw_flags;
    assert((f & (0x100u32 | 0x1000u32 | 0x800u32) != 0) == (f & 0x100 != 0 || f & 0x800 != 0 || f
        & 0x1000 != 0)) by (bit_vector);
    let g = f & 0x1B00;
    assert((g & 0x200 != 0) == (f & 0x200 != 0)) by (bit_vector)
        requires
            g == f & 0x1B00,
    ;
    assert((g & (0x100u32 | 0x1000u32 | 0x800u32) != 0) == (f & (0x100u32 | 0x1000u32 | 0x800u32)
        != 0)) by (bit_vector)
        requires
            g == f & 0x1B00,
    ;
}

/// The action that an event's flags call for.
pub fn classify_fsevent_flags(raw_flags: u32) -> (r: ActionHint)
    ensures
        r == spec_classify_fsevent_flags(raw_flags),
{
    if raw_flags & ITEM_REMOVED != 0 {
        ActionHint::Remove
    } else if raw_flags & (ITEM_CREATED | ITEM_MODIFIED | ITEM_RENAMED) != 0 {
        ActionHint::SyncPath
    } else {
        ActionHint::Ignore
    }
}

/// An event as a value: its id, its flags and its path.
pub open spec fn event_view(e: FsEvent) -> (u64, u32, Seq<char>) {
    (e.id, e.raw_flags, e.path@)
}

/// A pending action as a value: the id, flags and path it came from.
pub open spec fn pending_view(p: PendingPathEventWithId) -> (u64, u32, Seq<char>) {
    (p.event_id, p.inner.raw_flags, p.inner.path@)
}

/// The events whose paths are not ignored, in order.
pub open spec fn not_ignored(evs: Seq<(u64, u32, Seq<char>)>, data_dir: Seq<char>) -> Seq<
    (u64, u32, Seq<char>),
>
    decreases evs.len(),
{
    if evs.len() == 0 {
        evs
    } else {
        let init = not_ignored(evs.drop_last(), data_dir);
        if is_ignored_path(evs.last().2, data_dir) {
            init
        } else {
            init.push(evs.last())
        }
    }
}

/// The events whose path is not `path`, in order.
pub open spec fn without_path(evs: Seq<(u64, u32, Seq<char>)>, path: Seq<char>) -> Seq<
    (u64, u32, Seq<char>),
>
    decreases evs.len(),
{
    if evs.len() == 0 {
        evs
    } else {
        let init = without_path(evs.drop_last(), path);
        if evs.last().2 == path {
            init
        } else {
            init.push(evs.last())
        }
    }
}

/// The last event for each path, in the order of those last events.
pub open spec fn latest_per_path(evs: Seq<(u64, u32, Seq<char>)>) -> Seq<(u64, u32, Seq<char>)>
    decreases evs.len(),
{
    if evs.len() == 0 {
        evs
    } else {
        without_path(latest_per_path(evs.drop_last()), evs.last().2).push(evs.last())
    }
}

/// No two events share a path.
pub open spec fn distinct_paths(evs: Seq<(u64, u32, Seq<char>)>) -> bool
    decreases evs.len(),
{
    if evs.len() == 0 {
        true
    } else {
        &&& distinct_paths(evs.drop_last())
        &&& forall|k: int| 0 <= k < evs.len() - 1 ==> #[trigger] evs[k].2 != evs.last().2
    }
}

/// The batch a buffer of events comes down to: the events on paths that
/// are not ignored, keeping for each path only its latest event.
pub open spec fn pending_batch(buffer: Seq<FsEvent>, data_dir: Seq<char>) -> Seq<
    (u64, u32, Seq<char>),
> {
    latest_per_path(not_ignored(buffer.map_values(|e: FsEvent| event_view(e)), data_dir))
}

pub proof fn lemma_without_path_contains(
    evs: Seq<(u64, u32, Seq<char>)>,
    path: Seq<char>,
    x: (u64, u32, Seq<char>),
)
    ensures
        without_path(evs, path).contains(x) <==> (evs.contains(x) && x.2 != path),
    decreases evs.len(),
{
    if evs.len() > 0 {
        let t = evs.drop_last();
        let y = evs.last();
        let n = evs.len() - 1;
        lemma_without_path_contains(t, path, x);
        let w = without_path(t, path);
        if t.contains(x) {
            let i = choose|i: int| 0 <= i < t.len() && t[i] == x;
            assert(evs[i] == x);
        }
        if evs.contains(x) {
            let i = choose|i: int| 0 <= i < evs.len() && evs[i] == x;
            if i < n {
                assert(t[i] == x);
            } else {
                assert(x == y);
            }
        }
        if y.2 != path {
            let w2 = w.push(y);
            assert(w2[w.len() as int] == y);
            if w.contains(x) {
                let i = choose|i: int| 0 <= i < w.len() && w[i] == x;
                assert(w2[i] == x);
            }
            if w2.contains(x) {
                let i = choose|i: int| 0 <= i < w2.len() && w2[i] == x;
                if i < w.len() {
                    assert(w[i] == x);
                } else {
                    assert(evs[n] == x);
                }
            }
        }
    }
}

pub proof fn lemma_without_path_distinct(evs: Seq<(u64, u32, Seq<char>)>, path: Seq<char>)
    requires
        distinct_paths(evs),
    ensures
        distinct_paths(without_path(evs, path)),
        forall|k: int|
            0 <= k < without_path(evs, path).len() ==> #[trigger] without_path(evs, path)[k].2
                != path,
    decreases evs.len(),
{
    if evs.len() > 0 {
        let t = evs.drop_last();
        let x = evs.last();
        lemma_without_path_distinct(t, path);
        let w = without_path(t, path);
        if x.2 != path {
            let w2 = w.push(x);
            assert(w2.drop_last() =~= w);
            assert forall|k: int| 0 <= k < w2.len() - 1 implies #[trigger] w2[k].2 != w2.last().2 by {
                assert(w2[k] == w[k]);
                assert(w.contains(w[k]));
                lemma_without_path_contains(t, path, w[k]);
                let i = choose|i: int| 0 <= i < t.len() && t[i] == w[k];
                assert(evs[i] == t[i]);
            }
        }
    }
}

/// For each path, only its latest event is left, so no two events of a
/// batch share a path.
pub proof fn lemma_latest_per_path_distinct(evs: Seq<(u64, u32, Seq<char>)>)
    ensures
        distinct_paths(latest_per_path(evs)),
    decreases evs.len(),
{
    if evs.len() > 0 {
        lemma_latest_per_path_distinct(evs.drop_last());
        let l = latest_per_path(evs.drop_last());
        let p = evs.last().2;
        lemma_without_path_distinct(l, p);
        let w = without_path(l, p);
        assert(w.push(evs.last()).drop_last() =~= w);
    }
}

/// Event `i` is the last one on its path.
pub open spec fn last_on_its_path(evs: Seq<(u64, u32, Seq<char>)>, i: int) -> bool {
    forall|j: int| i < j < evs.len() ==> #[trigger] evs[j].2 != evs[i].2
}

/// An event is kept for a batch exactly when no later event is on the same
/// path: the latest action for each path wins.
pub proof fn lemma_latest_per_path_is_last(
    evs: Seq<(u64, u32, Seq<char>)>,
    x: (u64, u32, Seq<char>),
)
    ensures
        latest_per_path(evs).contains(x) <==> exists|i: int|
            0 <= i < evs.len() && #[trigger] evs[i] == x && last_on_its_path(evs, i),
    decreases evs.len(),
{
    if evs.len() > 0 {
        let t = evs.drop_last();
        let y = evs.last();
        let n = evs.len() - 1;
        let l = latest_per_path(t);
        let w = without_path(l, y.2);
        let r = w.push(y);
        lemma_latest_per_path_is_last(t, x);
        lemma_without_path_contains(l, y.2, x);
        assert(r[w.len() as int] == y);
        if r.contains(x) {
            let k = choose|k: int| 0 <= k < r.len() && r[k] == x;
            if k == w.len() {
                assert(evs[n] == x && last_on_its_path(evs, n));
            } else {
                assert(w[k] == x);
                let i = choose|i: int| 0 <= i < t.len() && #[trigger] t[i] == x && last_on_its_path(t, i);
                assert(evs[i] == x);
                assert forall|j: int| i < j < evs.len() implies #[trigger] evs[j].2 != evs[i].2 by {
                    if j < n {
                        assert(evs[j] == t[j]);
                    }
                }
            }
        }
        if exists|i: int| 0 <= i < evs.len() && #[trigger] evs[i] == x && last_on_its_path(evs, i) {
            let i = choose|i: int| 0 <= i < evs.len() && #[trigger] evs[i] == x && last_on_its_path(evs, i);
            if i == n {
                assert(r.contains(x));
            } else {
                assert(t[i] == x);
                assert(evs[n].2 != evs[i].2);
                assert forall|j: int| i < j < t.len() implies #[trigger] t[j].2 != t[i].2 by {
                    assert(evs[j] == t[j]);
                }
                assert(last_on_its_path(t, i));
                assert(w.contains(x));
                let k = choose|k: int| 0 <= k < w.len() && w[k] == x;
                assert(r[k] == x);
            }
        }
    }
}

/// The events kept before deduplication are exactly those on paths that
/// are not ignored.
pub proof fn lemma_not_ignored_contains(
    evs: Seq<(u64, u32, Seq<char>)>,
    data_dir: Seq<char>,
    x: (u64, u32, Seq<char>),
)
    ensures
        not_ignored(evs, data_dir).contains(x) <==> (evs.contains(x) && !is_ignored_path(
            x.2,
            data_dir,
        )),
    decreases evs.len(),
{
    if evs.len() > 0 {
        let t = evs.drop_last();
        let y = evs.last();
        let n = evs.len() - 1;
        lemma_not_ignored_contains(t, data_dir, x);
        let k0 = not_ignored(t, data_dir);
        if t.contains(x) {
            let i = choose|i: int| 0 <= i < t.len() && t[i] == x;
            assert(evs[i] == x);
        }
        if evs.contains(x) {
            let i = choose|i: int| 0 <= i < evs.len() && evs[i] == x;
            if i < n {
                assert(t[i] == x);
            }
        }
        if !is_ignored_path(y.2, data_dir) {
            let k1 = k0.push(y);
            assert(k1[k0.len() as int] == y);
            if k0.contains(x) {
                let i = choose|i: int| 0 <= i < k0.len() && k0[i] == x;
                assert(k1[i] == x);
            }
            if k1.contains(x) {
                let i = choose|i: int| 0 <= i < k1.len() && k1[i] == x;
                if i < k0.len() {
                    assert(k0[i] == x);
                } else {
                    assert(evs[n] == x);
                }
            }
        }
    }
}

proof fn lemma_without_absent_path(evs: Seq<(u64, u32, Seq<char>)>, path: Seq<char>)
    requires
        forall|k: int| 0 <= k < evs.len() ==> #[trigger] evs[k].2 != path,
    ensures
        without_path(evs, path) == evs,
    decreases evs.len(),
{
    if evs.len() > 0 {
        let t = evs.drop_last();
        assert forall|k: int| 0 <= k < t.len() implies #[trigger] t[k].2 != path by {
            assert(t[k] == evs[k]);
        }
        lemma_without_absent_path(t, path);
        assert(evs.last().2 != path);
        assert(t.push(evs.last()) =~= evs);
    }
}

proof fn lemma_without_present_path(evs: Seq<(u64, u32, Seq<char>)>, j: int)
    requires
        distinct_paths(evs),
        0 <= j < evs.len(),
    ensures
        without_path(evs, evs[j].2) == evs.remove(j),
    decreases evs.len(),
{
    let t = evs.drop_last();
    let p = evs[j].2;
    if j == evs.len() - 1 {
        assert forall|k: int| 0 <= k < t.len() implies #[trigger] t[k].2 != p by {
            assert(t[k] == evs[k]);
        }
        lemma_without_absent_path(t, p);
        assert(evs.remove(j) =~= t);
    } else {
        assert(t[j] == evs[j]);
        lemma_without_present_path(t, j);
        assert(evs.last().2 != p);
        assert(evs.remove(j) =~= t.remove(j).push(evs.last()));
    }
}

proof fn lemma_not_ignored_step(
    evs: Seq<(u64, u32, Seq<char>)>,
    i: int,
    data_dir: Seq<char>,
)
    requires
        0 <= i < evs.len(),
    ensures
        not_ignored(evs.take(i + 1), data_dir) == (if is_ignored_path(evs[i].2, data_dir) {
            not_ignored(evs.take(i), data_dir)
        } else {
            not_ignored(evs.take(i), data_dir).push(evs[i])
        }),
{
    assert(evs.take(i + 1).drop_last() =~= evs.take(i));
    assert(evs.take(i + 1).last() == evs[i]);
}

/// Turns a buffer of events into the batch of actions to apply: events on
/// ignored paths (see `should_ignore_path`) are dropped, and of the events
/// on one path only the latest is kept, so that the latest action for
/// each path wins. The batch keeps the order of those latest events. The
/// buffer is left empty.
pub fn collect_pending_events(buffer: &mut Vec<FsEvent>, data_dir: &str) -> (r: Vec<
    PendingPathEventWithId,
>)
    ensures
        final(buffer)@.len() == 0,
        r@.map_values(|p: PendingPathEventWithId| pending_view(p)) == pending_batch(
            old(buffer)@,
            data_dir@,
        ),
        forall|k: int|
            0 <= k < r@.len() ==> #[trigger] r@[k].inner.action == spec_classify_fsevent_flags(
                r@[k].inner.raw_flags,
            ),
{
    let ghost evs = buffer@.map_values(|e: FsEvent| event_view(e));
    let mut out: Vec<PendingPathEventWithId> = Vec::new();
    let mut i: usize = 0;
    assert(evs.take(0) =~= Seq::<(u64, u32, Seq<char>)>::empty());
    assert(out@.map_values(|p: PendingPathEventWithId| pending_view(p)) =~= latest_per_path(
        not_ignored(evs.take(0), data_dir@),
    ));
    while i < buffer.len()
        invariant
            i <= buffer.len(),
            buffer@ == old(buffer)@,
            evs == buffer@.map_values(|e: FsEvent| event_view(e)),
            out@.map_values(|p: PendingPathEventWithId| pending_view(p)) == latest_per_path(
                not_ignored(evs.take(i as int), data_dir@),
            ),
            forall|k: int|
                0 <= k < out@.len() ==> #[trigger] out@[k].inner.action
                    == spec_classify_fsevent_flags(out@[k].inner.raw_flags),
        decreases buffer.len() - i,
    {
        let ghost before = out@.map_values(|p: PendingPathEventWithId| pending_view(p));
        proof {
            lemma_not_ignored_step(evs, i as int, data_dir@);
            assert(evs[i as int] == event_view(buffer@[i as int]));
        }
        let ev = &buffer[i];
        if !should_ignore_path(ev.path.as_str(), data_dir) {
            let ghost kept = not_ignored(evs.take(i as int), data_dir@).push(evs[i as int]);
            assert(kept.drop_last() =~= not_ignored(evs.take(i as int), data_dir@));
            assert(kept.last() == evs[i as int]);
            proof {
                lemma_latest_per_path_distinct(not_ignored(evs.take(i as int), data_dir@));
            }
            let mut j: usize = 0;
            let mut found = false;
            while j < out.len() && !found
                invariant
                    j <= out.len(),
                    before == out@.map_values(|p: PendingPathEventWithId| pending_view(p)),
                    !found ==> forall|k: int| 0 <= k < j ==> #[trigger] before[k].2 != ev.path@,
                    found ==> j < out.len() && before[j as int].2 == ev.path@,
                decreases out.len() - j + (if found { 0int } else { 1int }),
            {
                assert(before[j as int] == pending_view(out@[j as int]));
                if out[j].inner.path.eq(&ev.path) {
                    found = true;
                } else {
                    j = j + 1;
                }
            }
            if found {
                proof {
                    lemma_without_present_path(before, j as int);
                }
                let ghost out_before = out@;
                out.remove(j);
                assert(out@.map_values(|p: PendingPathEventWithId| pending_view(p)) =~= before.remove(
                    j as int,
                ));
                assert forall|k: int| 0 <= k < out@.len() implies #[trigger] out@[k].inner.action
                    == spec_classify_fsevent_flags(out@[k].inner.raw_flags) by {
                    if k < j {
                        assert(out@[k] == out_before[k]);
                    } else {
                        assert(out@[k] == out_before[k + 1]);
                    }
                }
            } else {
                proof {
                    lemma_without_absent_path(before, ev.path@);
                }
            }
            let pending = PendingPathEventWithId {
                inner: PendingPathEvent {
                    action: classify_fsevent_flags(ev.raw_flags),
                    raw_flags: ev.raw_flags,
                    path: ev.path.clone(),
                },
                event_id: ev.id,
            };
            let ghost mid = out@.map_values(|p: PendingPathEventWithId| pending_view(p));
            out.push(pending);
            assert(out@.map_values(|p: PendingPathEventWithId| pending_view(p)) =~= mid.push(
                evs[i as int],
            ));
        }
        i = i + 1;
    }
    assert(evs.take(buffer.len() as int) =~= evs);
    buffer.clear();
    out
}

/// The largest id among `ids`, or 0 when there are none.
pub open spec fn max_id(ids: Seq<u64>) -> u64
    decreases ids.len(),
{
    if ids.len() == 0 {
        0
    } else {
        let m = max_id(ids.drop_last());
        if ids.last() > m {
            ids.last()
        } else {
            m
        }
    }
}

/// The highest event id of a batch (0 for an empty batch): the point the
/// watcher may resume from once the batch is applied.
pub fn max_event_id(pending: &Vec<PendingPathEventWithId>) -> (m: u64)
    ensures
        m == max_id(pending@.map_values(|p: PendingPathEventWithId| p.event_id)),
{
    let ghost ids = pending@.map_values(|p: PendingPathEventWithId| p.event_id);
    let mut m: u64 = 0;
    let mut i: usize = 0;
    assert(ids.take(0) =~= Seq::<u64>::empty());
    while i < pending.len()
        invariant
            i <= pending.len(),
            ids == pending@.map_values(|p: PendingPathEventWithId| p.event_id),
            m == max_id(ids.take(i as int)),
        decreases pending.len() - i,
    {
        assert(ids.take(i as int + 1).drop_last() =~= ids.take(i as int));
        assert(ids[i as int] == pending@[i as int].event_id);
        if pending[i].event_id > m {
            m = pending[i].event_id;
        }
        i = i + 1;
    }
    assert(ids.take(pending.len() as int) =~= ids);
    m
}

} // verus!
