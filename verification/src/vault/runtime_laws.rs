//! What holds of the embedding runtime across its operations.

use crate::path::normal_relative;
use crate::vault::backend::vector_views;
use crate::vault::batch::{
    all_inserted, all_progressed, all_requeued, batch_paths, batch_taken, changed_works, embedded,
    inference_error, is_due_batch, is_unchanged, progressed, ChangedView, InferenceOutcome,
    PreparedView, Progress,
};
use crate::vault::embedding_runtime::{
    batch_closed, begun, closes_batch, given_store, goes_on, is_queryable, persist_settled,
    starting_store, with_missing_intents, ActionView, RuntimeView,
};
use crate::vault::embeddings::{consistent, retained, IdentityView, StoreView};
use crate::vault::runtime_state::{
    as_count, distinct_pending, insertion, is_current, marked, reconciled, removal, requeued,
    retry_wait, submitted, with_intent, Commit, PendingKind, StateView, WorkView, MAX_RETRY_DELAY,
};
use vstd::prelude::*;

verus! {

/// A newer intent wins: once a path is submitted again, results of work that was
/// taken before neither change the store nor touch the new intent.
pub proof fn newer_intent_wins(
    s: StateView,
    store: StoreView,
    live: bool,
    work: WorkView,
    path: Seq<char>,
    kind: PendingKind,
    content_hash: Seq<u8>,
    vector: Seq<u32>,
    now: u64,
    done: u64,
    windows: bool,
)
    requires
        normal_relative(path, windows) == Some(work.path),
        work.path.len() > 0,
        work.intent.generation <= s.next_generation < u64::MAX,
    ensures
        ({
            let next = submitted(s, path, kind, now, windows);
            let removed = removal(next, store, live, work);
            let inserted = insertion(next, store, live, work, content_hash, vector, done);
            &&& removed.store == store && !removed.dirty
            &&& inserted.store == store && !inserted.dirty
            &&& removed.state.pending == next.pending
            &&& inserted.state.pending == next.pending
            &&& next.pending.contains_key(work.path)
            &&& next.pending[work.path].kind == kind
        }),
{
}

/// Without an owner nothing changes: commits leave state and store as they are.
pub proof fn nothing_is_committed_without_owner(
    s: StateView,
    store: StoreView,
    work: WorkView,
    content_hash: Seq<u8>,
    vector: Seq<u32>,
    total_notes: nat,
    now: u64,
)
    ensures
        removal(s, store, false, work) == (Commit { state: s, store, dirty: false }),
        insertion(s, store, false, work, content_hash, vector, now) == (Commit {
            state: s,
            store,
            dirty: false,
        }),
        reconciled(s, store, false, total_notes) == (Commit { state: s, store, dirty: false }),
{
}

/// Without an owner a whole batch of vectors leaves the store as it is.
pub proof fn late_results_are_discarded(
    s: StateView,
    store: StoreView,
    changed: Seq<ChangedView>,
    outcome: InferenceOutcome,
    dim: nat,
    now: u64,
)
    ensures
        embedded(s, store, false, changed, outcome, dim, now).store == store,
        !embedded(s, store, false, changed, outcome, dim, now).dirty,
{
    if inference_error(outcome, changed.len(), dim) is None {
        let vectors = vector_views(outcome->Vectors_0@);
        lemma_late_inserts(Commit { state: s, store, dirty: false }, changed, vectors, 0, now);
    }
}

proof fn lemma_late_inserts(
    c: Commit,
    changed: Seq<ChangedView>,
    vectors: Seq<Seq<u32>>,
    i: int,
    now: u64,
)
    ensures
        all_inserted(c, false, changed, vectors, i, now).store == c.store,
        all_inserted(c, false, changed, vectors, i, now).dirty == c.dirty,
    decreases changed.len() - i,
{
    if !(i < 0 || i >= changed.len() || i >= vectors.len()) {
        lemma_late_inserts(c, changed, vectors, i + 1, now);
    }
}

/// The last good vectors survive: a batch that failed, or that gave the wrong
/// number of vectors or an invalid one, leaves the store as it is.
pub proof fn failed_batch_keeps_the_store(
    s: StateView,
    store: StoreView,
    live: bool,
    changed: Seq<ChangedView>,
    outcome: InferenceOutcome,
    dim: nat,
    now: u64,
)
    requires
        inference_error(outcome, changed.len(), dim) is Some,
    ensures
        embedded(s, store, live, changed, outcome, dim, now).store == store,
        !embedded(s, store, live, changed, outcome, dim, now).dirty,
{
}

/// A note whose text has not changed is done without being embedded again.
pub proof fn unchanged_note_is_not_embedded(
    p: Progress,
    live: bool,
    work: WorkView,
    text: Seq<char>,
    content_hash: Seq<u8>,
    now: u64,
)
    requires
        is_unchanged(p.store, work.path, content_hash),
    ensures
        ({
            let next = progressed(
                p,
                live,
                PreparedView::Upsert { work, text, content_hash },
                now,
            );
            &&& next.store == p.store
            &&& next.changed == p.changed
            &&& next.dirty == p.dirty
            &&& !next.state.inflight.contains_key(work.path)
        }),
{
}

/// Taking a batch loses no work: the paths that are pending or in flight stay
/// the same, and with them their number.
pub proof fn taking_a_batch_keeps_all_work(s: StateView, now: u64, batch: Seq<WorkView>)
    requires
        is_due_batch(s.pending, now, batch),
    ensures
        batch_taken(s, batch).pending.dom().union(batch_taken(s, batch).inflight.dom())
            == s.pending.dom().union(s.inflight.dom()),
        distinct_pending(batch_taken(s, batch)) == distinct_pending(s),
{
    let after = batch_taken(s, batch);
    let all = s.pending.dom().union(s.inflight.dom());
    assert forall|p: Seq<char>| after.pending.dom().union(after.inflight.dom()).contains(p)
        <==> all.contains(p) by {
        if batch_paths(batch).contains(p) {
            let i = choose|i: int| 0 <= i < batch.len() && (#[trigger] batch[i]).path == p;
            assert(s.pending.contains_key(batch[i].path));
        }
    }
    assert(after.pending.dom().union(after.inflight.dom()) =~= all);
}

/// Work that was taken is current until a newer intent for its path arrives.
pub proof fn taken_work_is_current(s: StateView, now: u64, batch: Seq<WorkView>, i: int)
    requires
        is_due_batch(s.pending, now, batch),
        0 <= i < batch.len(),
    ensures
        is_current(batch_taken(s, batch), batch[i]),
{
    assert(batch_paths(batch).contains(batch[i].path));
}

/// The reported number of pending notes is exact after every operation on work.
pub proof fn pending_count_is_exact(
    s: StateView,
    work: WorkView,
    path: Seq<char>,
    kind: PendingKind,
    error: Seq<char>,
    batch: Seq<WorkView>,
    now: u64,
    windows: bool,
)
    requires
        s.status.pending_notes == as_count(distinct_pending(s)),
    ensures
        submitted(s, path, kind, now, windows).status.pending_notes == as_count(
            distinct_pending(submitted(s, path, kind, now, windows)),
        ),
        requeued(s, work, error, now).status.pending_notes == as_count(
            distinct_pending(requeued(s, work, error, now)),
        ),
        marked(s, work).status.pending_notes == as_count(distinct_pending(marked(s, work))),
        batch_taken(s, batch).status.pending_notes == as_count(
            distinct_pending(batch_taken(s, batch)),
        ),
{
}

/// Intents for one path do not pile up: only the latest is kept.
pub proof fn latest_intent_is_kept(
    s: StateView,
    path: Seq<char>,
    first: PendingKind,
    second: PendingKind,
    t1: u64,
    t2: u64,
    windows: bool,
)
    requires
        normal_relative(path, windows) is Some,
        normal_relative(path, windows)->0.len() > 0,
    ensures
        ({
            let normal = normal_relative(path, windows)->0;
            let once = submitted(s, path, first, t1, windows);
            let twice = submitted(once, path, second, t2, windows);
            &&& twice.pending[normal].kind == second
            &&& twice.pending.dom() == once.pending.dom()
            &&& twice.status.pending_notes == once.status.pending_notes
        }),
{
    let normal = normal_relative(path, windows)->0;
    let once = submitted(s, path, first, t1, windows);
    let twice = submitted(once, path, second, t2, windows);
    assert(twice.pending.dom() =~= once.pending.dom());
}

/// The wait before failed work is tried again never shrinks with more attempts
/// and is between one second and the longest wait.
pub proof fn retry_waits_are_bounded(attempt: u8, more: u8)
    requires
        attempt <= more,
    ensures
        1000 <= retry_wait(attempt) <= retry_wait(more) <= MAX_RETRY_DELAY,
{
}

/// Failed work is put off, not lost: a current item is pending again with one
/// more attempt, and a newer intent is left alone.
pub proof fn failed_work_is_put_off(s: StateView, work: WorkView, error: Seq<char>, now: u64)
    requires
        now + MAX_RETRY_DELAY <= u64::MAX,
    ensures
        is_current(s, work) ==> {
            let after = requeued(s, work, error, now);
            &&& after.pending.contains_key(work.path)
            &&& after.pending[work.path].generation == work.intent.generation
            &&& after.pending[work.path].not_before > now
            &&& after.failures[work.path] == error
        },
        !is_current(s, work) ==> {
            let after = requeued(s, work, error, now);
            &&& after.pending == s.pending
            &&& after.failures == s.failures
        },
{
}

/// A checkpoint of an unfinished first pass is not published: with notes left to
/// handle, its store cannot be queried when the runtime starts.
pub proof fn incomplete_checkpoint_is_not_published(
    r: RuntimeView,
    identity: IdentityView,
    cached: Option<StoreView>,
    paths: Seq<Seq<char>>,
    now: u64,
)
    requires
        !given_store(identity, cached).first_pass_complete,
        paths.len() > 0,
    ensures
        !is_queryable(begun(r, identity, cached, paths, now)),
{
    assert(paths.to_set().contains(paths[0]));
    lemma_missing_intents_keep_flags(
        StateView {
            model: Some(identity),
            has_store: true,
            store_queryable: false,
            initial_started: true,
            initial_remaining: paths.to_set(),
            ..r.state
        },
        paths,
        0,
        now,
    );
}

/// A store of a finished first pass that still holds vectors of the vault can be
/// queried as soon as the runtime starts.
pub proof fn complete_checkpoint_is_published(
    r: RuntimeView,
    identity: IdentityView,
    cached: StoreView,
    paths: Seq<Seq<char>>,
    now: u64,
)
    requires
        cached.first_pass_complete,
        starting_store(identity, Some(cached), paths.to_set()).entries.dom() != Set::<
            Seq<char>,
        >::empty(),
    ensures
        is_queryable(begun(r, identity, Some(cached), paths, now)),
{
    lemma_missing_intents_keep_flags(
        StateView {
            model: Some(identity),
            has_store: true,
            store_queryable: true,
            initial_started: true,
            initial_remaining: paths.to_set(),
            ..r.state
        },
        paths,
        0,
        now,
    );
}

proof fn lemma_missing_intents_keep_flags(
    s: StateView,
    paths: Seq<Seq<char>>,
    i: int,
    now: u64,
)
    ensures
        ({
            let after = with_missing_intents(s, paths, i, now);
            &&& after.store_queryable == s.store_queryable
            &&& after.model == s.model
            &&& after.initial_started == s.initial_started
            &&& after.initial_remaining == s.initial_remaining
            &&& after.reconciliation_complete == s.reconciliation_complete
        }),
    decreases paths.len() - i,
{
    if !(i < 0 || i >= paths.len()) {
        if s.pending.contains_key(paths[i]) {
            lemma_missing_intents_keep_flags(s, paths, i + 1, now);
        } else {
            lemma_missing_intents_keep_flags(
                with_intent(s, paths[i], PendingKind::Upsert, now),
                paths,
                i + 1,
                now,
            );
        }
    }
}

/// What can be queried stays so: no batch, written or unwritable cache, or wait
/// takes a queryable store away.
pub proof fn queryable_store_stays_queryable(
    r: RuntimeView,
    items: Seq<PreparedView>,
    changed: Seq<ChangedView>,
    outcome: InferenceOutcome,
    dim: nat,
    error: Option<Seq<char>>,
    paths: Seq<Seq<char>>,
    now: u64,
)
    requires
        is_queryable(r),
    ensures
        all_progressed(
            Progress { state: r.state, store: r.store->0, dirty: false, changed: Seq::empty() },
            r.live,
            items,
            0,
            now,
        ).state.store_queryable,
        embedded(r.state, r.store->0, r.live, changed, outcome, dim, now).state.store_queryable,
        is_queryable(batch_closed(r, paths)),
        is_queryable(persist_settled(r, r.store->0, error, paths, now)),
        forall|after: RuntimeView, action: ActionView| #[trigger]
            goes_on(r, now, after, action) ==> is_queryable(after),
        forall|after: RuntimeView, action: ActionView| #[trigger]
            closes_batch(r, paths, now, after, action) ==> is_queryable(after),
{
    lemma_progress_keeps_queryable(
        Progress { state: r.state, store: r.store->0, dirty: false, changed: Seq::empty() },
        r.live,
        items,
        0,
        now,
    );
    match inference_error(outcome, changed.len(), dim) {
        Some(text) => {
            lemma_requeue_keeps_queryable(
                r.state,
                changed_works(changed),
                text,
                0,
                now,
            );
        },
        None => {
            lemma_inserts_keep_queryable(
                Commit { state: r.state, store: r.store->0, dirty: false },
                r.live,
                changed,
                vector_views(outcome->Vectors_0@),
                0,
                now,
            );
        },
    }
}

proof fn lemma_progress_keeps_queryable(
    p: Progress,
    live: bool,
    items: Seq<PreparedView>,
    i: int,
    now: u64,
)
    requires
        p.state.store_queryable,
    ensures
        all_progressed(p, live, items, i, now).state.store_queryable,
    decreases items.len() - i,
{
    if !(i < 0 || i >= items.len()) {
        lemma_progress_keeps_queryable(
            progressed(p, live, items[i], now),
            live,
            items,
            i + 1,
            now,
        );
    }
}

proof fn lemma_requeue_keeps_queryable(
    s: StateView,
    works: Seq<WorkView>,
    error: Seq<char>,
    i: int,
    now: u64,
)
    requires
        s.store_queryable,
    ensures
        all_requeued(s, works, error, i, now).store_queryable,
    decreases works.len() - i,
{
    if !(i < 0 || i >= works.len()) {
        lemma_requeue_keeps_queryable(requeued(s, works[i], error, now), works, error, i + 1, now);
    }
}

proof fn lemma_inserts_keep_queryable(
    c: Commit,
    live: bool,
    changed: Seq<ChangedView>,
    vectors: Seq<Seq<u32>>,
    i: int,
    now: u64,
)
    requires
        c.state.store_queryable,
    ensures
        all_inserted(c, live, changed, vectors, i, now).state.store_queryable,
    decreases changed.len() - i,
{
    if !(i < 0 || i >= changed.len() || i >= vectors.len()) {
        let next = insertion(
            c.state,
            c.store,
            live,
            changed[i].work,
            changed[i].content_hash,
            vectors[i],
            now,
        );
        lemma_inserts_keep_queryable(
            Commit { dirty: c.dirty || next.dirty, ..next },
            live,
            changed,
            vectors,
            i + 1,
            now,
        );
    }
}

/// The first pass ends once, when every note of it has been handled. Until then
/// asking for its end changes nothing, and so does asking again.
pub proof fn first_pass_ends_once(s: StateView, store: StoreView, live: bool, total_notes: nat)
    ensures
        ({
            let c = reconciled(s, store, live, total_notes);
            &&& c.state.reconciliation_complete == (s.reconciliation_complete || (live
                && s.initial_started && s.initial_remaining == Set::<Seq<char>>::empty()))
            &&& !c.state.reconciliation_complete ==> c.store == store && c.state == s
            &&& reconciled(c.state, c.store, live, total_notes).state == c.state
            &&& reconciled(c.state, c.store, live, total_notes).store == c.store
            &&& !reconciled(c.state, c.store, live, total_notes).dirty
        }),
{
}

/// Commits keep a store consistent.
pub proof fn commits_keep_the_store_consistent(
    s: StateView,
    store: StoreView,
    live: bool,
    work: WorkView,
    content_hash: Seq<u8>,
    vector: Seq<u32>,
    total_notes: nat,
    paths: Set<Seq<char>>,
    now: u64,
)
    requires
        consistent(store),
    ensures
        consistent(removal(s, store, live, work).store),
        consistent(insertion(s, store, live, work, content_hash, vector, now).store),
        consistent(reconciled(s, store, live, total_notes).store),
        consistent(retained(store, paths)),
{
}

} // verus!
