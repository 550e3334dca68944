//! The state of the embedding runtime and the operations on it.
//!
//! Times are milliseconds of a clock that never goes back.

use crate::error::vault_error_text;
use crate::keyed::Keyed;
use crate::number::{decimal, to_decimal};
use crate::order::{before, before_is_strict_and_total, strictly_sorted};
use crate::path::{normal_relative, normalize_relative};
use crate::text::{cat7, copy_opt, opt_text};
use crate::vault::embeddings::{
    consistent, opt_identity, vector_fault, with_note, without_entry, EmbeddingSpaceIdentity,
    EmbeddingStore, IdentityView, StoreView,
};
use vstd::prelude::*;

verus! {

/// The largest number of notes that are handled together.
pub const RECONCILE_BATCH_SIZE: usize = 32;

/// The longest wait before failed work is tried again, in milliseconds.
pub const MAX_RETRY_DELAY: u64 = 30_000;

/// The last time that a wait can be added to.
pub const LAST_TIME: u64 = 0xffff_ffff_ffff_0000;

/// How far the runtime has come.
#[derive(Debug, Clone, Copy, PartialEq, Eq, Structural)]
pub enum EmbeddingPhase {
    Warming,
    Ready,
    Degraded,
}

impl Default for EmbeddingPhase {
    fn default() -> (phase: Self)
        ensures
            phase == EmbeddingPhase::Warming,
    {
        EmbeddingPhase::Warming
    }
}

/// What the runtime reports of itself.
#[derive(Debug, Clone, PartialEq, Eq)]
pub struct EmbeddingRuntimeStatus {
    pub phase: EmbeddingPhase,
    pub queryable: bool,
    pub indexed_notes: usize,
    pub total_notes: usize,
    pub pending_notes: usize,
    pub last_error: Option<String>,
}

/// A status with its text as characters.
pub struct StatusView {
    pub phase: EmbeddingPhase,
    pub queryable: bool,
    pub indexed_notes: usize,
    pub total_notes: usize,
    pub pending_notes: usize,
    pub last_error: Option<Seq<char>>,
}

impl View for EmbeddingRuntimeStatus {
    type V = StatusView;

    open spec fn view(&self) -> StatusView {
        StatusView {
            phase: self.phase,
            queryable: self.queryable,
            indexed_notes: self.indexed_notes,
            total_notes: self.total_notes,
            pending_notes: self.pending_notes,
            last_error: opt_text(self.last_error),
        }
    }
}

impl Default for EmbeddingRuntimeStatus {
    fn default() -> (status: Self)
        ensures
            status@ == (StatusView {
                phase: EmbeddingPhase::Warming,
                queryable: false,
                indexed_notes: 0,
                total_notes: 0,
                pending_notes: 0,
                last_error: None,
            }),
    {
        EmbeddingRuntimeStatus {
            phase: EmbeddingPhase::Warming,
            queryable: false,
            indexed_notes: 0,
            total_notes: 0,
            pending_notes: 0,
            last_error: None,
        }
    }
}

impl EmbeddingRuntimeStatus {
    /// A copy of the status.
    pub fn copied(&self) -> (status: Self)
        ensures
            status@ == self@,
    {
        EmbeddingRuntimeStatus {
            phase: self.phase,
            queryable: self.queryable,
            indexed_notes: self.indexed_notes,
            total_notes: self.total_notes,
            pending_notes: self.pending_notes,
            last_error: copy_opt(&self.last_error),
        }
    }
}

/// What is to be done with a note's embedding.
#[derive(Debug, Clone, Copy, PartialEq, Eq, Structural)]
pub enum PendingKind {
    Upsert,
    Remove,
}

/// One intent for a path: its generation, kind, number of failed attempts and
/// the time before which it is not tried.
#[derive(Debug, Clone, Copy, PartialEq, Eq, Structural)]
pub struct Intent {
    pub generation: u64,
    pub kind: PendingKind,
    pub attempt: u8,
    pub not_before: u64,
}

impl View for Intent {
    type V = Intent;

    open spec fn view(&self) -> Intent {
        *self
    }
}

/// Work on one path.
#[derive(Debug)]
pub struct PendingWork {
    pub path: String,
    pub intent: Intent,
}

/// Work on one path, with the path as characters.
pub struct WorkView {
    pub path: Seq<char>,
    pub intent: Intent,
}

impl View for PendingWork {
    type V = WorkView;

    open spec fn view(&self) -> WorkView {
        WorkView { path: self.path@, intent: self.intent }
    }
}

/// The work items of a list.
pub open spec fn work_views(list: Seq<PendingWork>) -> Seq<WorkView> {
    list.map_values(|w: PendingWork| w@)
}

impl PendingWork {
    /// A copy of the work.
    pub fn copied(&self) -> (work: Self)
        ensures
            work@ == self@,
    {
        PendingWork { path: self.path.clone(), intent: self.intent }
    }
}

/// The state that intents, batches and results change.
pub struct RuntimeState {
    pub next_generation: u64,
    pub pending: Keyed<Intent>,
    pub inflight: Keyed<u64>,
    pub initial_remaining: Keyed<()>,
    pub initial_started: bool,
    pub reconciliation_complete: bool,
    pub failures: Keyed<String>,
    pub persistence_error: Option<String>,
    /// The vector space of the loaded model.
    pub model: Option<EmbeddingSpaceIdentity>,
    /// Whether a store has been loaded or created.
    pub has_store: bool,
    pub store_queryable: bool,
    pub status: EmbeddingRuntimeStatus,
}

/// The state as mathematical values.
#[verifier::ext_equal]
pub struct StateView {
    pub next_generation: u64,
    pub pending: Map<Seq<char>, Intent>,
    pub inflight: Map<Seq<char>, u64>,
    pub initial_remaining: Set<Seq<char>>,
    pub initial_started: bool,
    pub reconciliation_complete: bool,
    pub failures: Map<Seq<char>, Seq<char>>,
    pub persistence_error: Option<Seq<char>>,
    pub model: Option<IdentityView>,
    pub has_store: bool,
    pub store_queryable: bool,
    pub status: StatusView,
}

impl View for RuntimeState {
    type V = StateView;

    open spec fn view(&self) -> StateView {
        StateView {
            next_generation: self.next_generation,
            pending: self.pending@,
            inflight: self.inflight@,
            initial_remaining: self.initial_remaining@.dom(),
            initial_started: self.initial_started,
            reconciliation_complete: self.reconciliation_complete,
            failures: self.failures@,
            persistence_error: opt_text(self.persistence_error),
            model: opt_identity(self.model),
            has_store: self.has_store,
            store_queryable: self.store_queryable,
            status: self.status@,
        }
    }
}

/// A count that a machine word can hold.
pub open spec fn as_count(n: nat) -> usize {
    if n > usize::MAX {
        usize::MAX
    } else {
        n as usize
    }
}

/// How many different paths are pending or in flight.
pub open spec fn distinct_pending(s: StateView) -> nat {
    s.pending.dom().union(s.inflight.dom()).len()
}

/// The generation after `g`; zero is never used.
pub open spec fn generation_after(g: u64) -> u64 {
    if g == u64::MAX {
        1
    } else {
        (g + 1) as u64
    }
}

/// The generation of the newest intent for a path: the pending one, else the one
/// in flight.
pub open spec fn current_generation(s: StateView, path: Seq<char>) -> Option<u64> {
    if s.pending.contains_key(path) {
        Some(s.pending[path].generation)
    } else if s.inflight.contains_key(path) {
        Some(s.inflight[path])
    } else {
        None
    }
}

/// Whether work is for the newest intent of its path.
pub open spec fn is_current(s: StateView, work: WorkView) -> bool {
    current_generation(s, work.path) == Some(work.intent.generation)
}

/// The state with its count of pending notes up to date. A ready runtime with
/// pending notes is warming again.
pub open spec fn recounted(s: StateView) -> StateView {
    let n = as_count(distinct_pending(s));
    StateView {
        status: StatusView {
            pending_notes: n,
            phase: if n > 0 && s.status.last_error is None && s.status.phase
                == EmbeddingPhase::Ready {
                EmbeddingPhase::Warming
            } else {
                s.status.phase
            },
            ..s.status
        },
        ..s
    }
}

/// The state with a new intent for `path`.
pub open spec fn with_intent(s: StateView, path: Seq<char>, kind: PendingKind, now: u64) -> StateView {
    let generation = generation_after(s.next_generation);
    StateView {
        next_generation: generation,
        pending: s.pending.insert(
            path,
            Intent { generation, kind, attempt: 0, not_before: now },
        ),
        ..s
    }
}

/// The state after `path` was submitted. Paths without a normal form, and the
/// vault itself, are ignored.
pub open spec fn submitted(
    s: StateView,
    path: Seq<char>,
    kind: PendingKind,
    now: u64,
    windows: bool,
) -> StateView {
    match normal_relative(path, windows) {
        Some(normal) => if normal.len() == 0 {
            s
        } else {
            recounted(with_intent(s, normal, kind, now))
        },
        None => s,
    }
}

/// The wait after so many failed attempts, in milliseconds: one second, doubled
/// with every further attempt, and never more than the longest wait.
pub open spec fn retry_wait(attempt: u8) -> u64 {
    if attempt <= 1 {
        1000
    } else if attempt == 2 {
        2000
    } else if attempt == 3 {
        4000
    } else if attempt == 4 {
        8000
    } else if attempt == 5 {
        16000
    } else {
        MAX_RETRY_DELAY
    }
}

/// The state after work succeeded.
pub open spec fn finished(s: StateView, path: Seq<char>) -> StateView {
    recounted(
        StateView {
            inflight: s.inflight.remove(path),
            initial_remaining: s.initial_remaining.remove(path),
            failures: s.failures.remove(path),
            ..s
        },
    )
}

/// The state after outdated work was dropped.
pub open spec fn dropped(s: StateView, path: Seq<char>) -> StateView {
    recounted(StateView { inflight: s.inflight.remove(path), ..s })
}

/// One more attempt.
pub open spec fn next_attempt(attempt: u8) -> u8 {
    if attempt == u8::MAX {
        u8::MAX
    } else {
        (attempt + 1) as u8
    }
}

/// The state after work failed: it is put off, unless a newer intent exists.
pub open spec fn requeued(s: StateView, work: WorkView, error: Seq<char>, now: u64) -> StateView {
    let inflight = s.inflight.remove(work.path);
    if is_current(s, work) {
        let attempt = next_attempt(work.intent.attempt);
        recounted(
            StateView {
                inflight,
                initial_remaining: s.initial_remaining.remove(work.path),
                failures: s.failures.insert(work.path, error),
                pending: s.pending.insert(
                    work.path,
                    Intent {
                        attempt,
                        not_before: (now + retry_wait(attempt)) as u64,
                        ..work.intent
                    },
                ),
                ..s
            },
        )
    } else {
        recounted(StateView { inflight, ..s })
    }
}

/// What marking work as done leaves: it succeeds if it is still current.
pub open spec fn marked(s: StateView, work: WorkView) -> StateView {
    if is_current(s, work) {
        finished(s, work.path)
    } else {
        dropped(s, work.path)
    }
}

/// State, store and whether the store changed.
pub struct Commit {
    pub state: StateView,
    pub store: StoreView,
    pub dirty: bool,
}

/// Removing a note's vector: only while the runtime is live and the work current.
pub open spec fn removal(s: StateView, store: StoreView, live: bool, work: WorkView) -> Commit {
    if !live {
        Commit { state: s, store, dirty: false }
    } else if !is_current(s, work) {
        Commit { state: dropped(s, work.path), store, dirty: false }
    } else {
        Commit {
            state: finished(s, work.path),
            store: without_entry(store, work.path),
            dirty: store.entries.contains_key(work.path),
        }
    }
}

/// Storing a note's vector: only while the runtime is live and the work current.
/// An invalid vector is a failure.
pub open spec fn insertion(
    s: StateView,
    store: StoreView,
    live: bool,
    work: WorkView,
    content_hash: Seq<u8>,
    vector: Seq<u32>,
    now: u64,
) -> Commit {
    if !live {
        Commit { state: s, store, dirty: false }
    } else if !is_current(s, work) {
        Commit { state: dropped(s, work.path), store, dirty: false }
    } else {
        match vector_fault(vector, store.dim as nat) {
            Some(error) => Commit {
                state: requeued(s, work, vault_error_text(error), now),
                store,
                dirty: false,
            },
            None => Commit {
                state: StateView {
                    store_queryable: s.store_queryable || s.reconciliation_complete,
                    ..finished(s, work.path)
                },
                store: with_note(store, work.path, work.path, vector, Some(content_hash)),
                dirty: true,
            },
        }
    }
}

/// The end of the first pass over the vault, reached once every note of the
/// first pass has been handled.
pub open spec fn reconciled(
    s: StateView,
    store: StoreView,
    live: bool,
    total_notes: nat,
) -> Commit {
    if !live || !s.initial_started || s.reconciliation_complete || s.initial_remaining
        != Set::<Seq<char>>::empty() {
        Commit { state: s, store, dirty: false }
    } else {
        Commit {
            state: StateView {
                reconciliation_complete: true,
                store_queryable: s.store_queryable || total_notes == 0 || store.entries.dom()
                    != Set::<Seq<char>>::empty(),
                ..s
            },
            store: StoreView { first_pass_complete: true, ..store },
            dirty: !store.first_pass_complete,
        }
    }
}

/// Whether `key` is the first of a set of keys.
pub open spec fn is_least(keys: Set<Seq<char>>, key: Seq<char>) -> bool {
    keys.contains(key) && forall|k: Seq<char>| #[trigger]
        keys.contains(k) ==> k == key || before(key, k)
}

/// The failure that is reported: that of the first failed path.
pub open spec fn reported_failure(failures: Map<Seq<char>, Seq<char>>) -> Option<Seq<char>> {
    if failures.dom() == Set::<Seq<char>>::empty() {
        None
    } else {
        Some(failures[choose|key: Seq<char>| is_least(failures.dom(), key)])
    }
}

/// The error that is reported: that of writing the cache, else a failed path's.
pub open spec fn reported_error(s: StateView) -> Option<Seq<char>> {
    if s.persistence_error is Some {
        s.persistence_error
    } else {
        reported_failure(s.failures)
    }
}

/// The status of a runtime whose model is loaded.
pub open spec fn loaded_status(s: StateView, total_notes: usize, indexed_notes: usize) -> StatusView {
    let pending_notes = as_count(distinct_pending(s));
    let last_error = reported_error(s);
    StatusView {
        phase: if last_error is Some {
            EmbeddingPhase::Degraded
        } else if !s.reconciliation_complete || pending_notes > 0 {
            EmbeddingPhase::Warming
        } else {
            EmbeddingPhase::Ready
        },
        queryable: s.store_queryable && s.model is Some && s.has_store,
        indexed_notes,
        total_notes,
        pending_notes,
        last_error,
    }
}

/// How many of the paths have a vector.
pub open spec fn indexed_count(store: StoreView, paths: Set<Seq<char>>) -> nat {
    paths.intersect(store.entries.dom()).len()
}

/// The status for the notes that the vault holds now.
pub open spec fn current_status(
    s: StateView,
    store: Option<StoreView>,
    paths: Set<Seq<char>>,
) -> StatusView {
    if s.model is None {
        StatusView {
            indexed_notes: 0,
            total_notes: as_count(paths.len()),
            pending_notes: as_count(distinct_pending(s)),
            ..s.status
        }
    } else {
        loaded_status(
            s,
            as_count(paths.len()),
            match store {
                Some(held) => as_count(indexed_count(held, paths)),
                None => 0,
            },
        )
    }
}

/// What is said while the embeddings cannot be queried.
pub open spec fn not_ready_text(status: StatusView) -> Seq<char> {
    "semantic embeddings are not ready ("@ + decimal(status.indexed_notes as nat) + "/"@ + decimal(
        status.total_notes as nat,
    ) + ", "@ + decimal(status.pending_notes as nat) + " pending): "@ + match status.last_error {
        Some(error) => error,
        None => "embedding runtime is warming up"@,
    }
}

proof fn lemma_union_size(a: Set<Seq<char>>, b: Set<Seq<char>>)
    requires
        a.finite(),
        b.finite(),
    ensures
        a.union(b).len() == a.len() + b.difference(a).len(),
{
    vstd::set_lib::lemma_set_disjoint_lens(a, b.difference(a));
    assert(a.union(b) =~= a + b.difference(a));
    assert(a.disjoint(b.difference(a)));
}

/// How many different paths are pending or in flight.
pub fn distinct_pending_count(state: &RuntimeState) -> (n: usize)
    ensures
        n == as_count(distinct_pending(state@)),
{
    let base: usize = state.pending.len();
    let total: usize = state.inflight.len();
    let ghost keys = state.inflight.keys();
    let ghost held = state.pending@.dom();
    let mut extra: usize = 0;
    let mut i: usize = 0;
    proof {
        assert(keys.take(0).to_set().difference(held) =~= Set::empty());
    }
    while i < total
        invariant
            extra <= i <= total == keys.len(),
            keys == state.inflight.keys(),
            keys.no_duplicates(),
            held == state.pending@.dom(),
            extra == keys.take(i as int).to_set().difference(held).len(),
        decreases total - i,
    {
        let key = state.inflight.key_at(i);
        proof {
            let step = keys.take(i as int).to_set();
            assert(keys.take(i + 1) =~= keys.take(i as int).push(keys[i as int]));
            assert(keys.take(i + 1).to_set() =~= step.insert(keys[i as int])) by {
                assert forall|k: Seq<char>| keys.take(i + 1).to_set().contains(k)
                    <==> step.insert(keys[i as int]).contains(k) by {
                    let grown = keys.take(i as int).push(keys[i as int]);
                    if step.contains(k) {
                        let j = keys.take(i as int).index_of(k);
                        assert(grown[j] == k);
                    }
                    assert(grown[i as int] == keys[i as int]);
                    if grown.contains(k) {
                        let j = grown.index_of(k);
                        if j < i {
                            assert(keys.take(i as int)[j] == k);
                        }
                    }
                }
            }
            vstd::seq_lib::seq_to_set_is_finite(keys.take(i as int));
            assert(!step.contains(keys[i as int])) by {
                if step.contains(keys[i as int]) {
                    let j = keys.take(i as int).index_of(keys[i as int]);
                    assert(keys[j] == keys[i as int]);
                }
            }
            if held.contains(keys[i as int]) {
                assert(step.insert(keys[i as int]).difference(held) =~= step.difference(held));
            } else {
                assert(step.insert(keys[i as int]).difference(held) =~= step.difference(
                    held,
                ).insert(keys[i as int]));
            }
        }
        if !state.pending.contains_key(key.as_str()) {
            extra += 1;
        }
        i += 1;
    }
    proof {
        assert(keys.take(i as int) =~= keys);
        lemma_union_size(held, state.inflight@.dom());
    }
    base.saturating_add(extra)
}

/// Brings the count of pending notes up to date.
pub fn update_pending_status(state: &mut RuntimeState)
    ensures
        final(state)@ == recounted(old(state)@),
{
    let n: usize = distinct_pending_count(state);
    state.status.pending_notes = n;
    if n > 0 && state.status.last_error.is_none() && state.status.phase == EmbeddingPhase::Ready {
        state.status.phase = EmbeddingPhase::Warming;
    }
}

/// Takes a new generation.
pub fn next_generation(state: &mut RuntimeState) -> (generation: u64)
    ensures
        generation == generation_after(old(state)@.next_generation),
        final(state)@ == (StateView { next_generation: generation, ..old(state)@ }),
{
    let g: u64 = state.next_generation;
    let generation: u64 = if g == u64::MAX {
        1
    } else {
        g + 1
    };
    state.next_generation = generation;
    generation
}

/// The generation of the newest intent for a path.
pub fn state_generation(state: &RuntimeState, path: &str) -> (generation: Option<u64>)
    ensures
        generation == current_generation(state@, path@),
{
    match state.pending.get(path) {
        Some(intent) => Some(intent.generation),
        None => match state.inflight.get(path) {
            Some(generation) => Some(*generation),
            None => None,
        },
    }
}

fn is_current_work(state: &RuntimeState, work: &PendingWork) -> (current: bool)
    ensures
        current == is_current(state@, work@),
{
    match state_generation(state, work.path.as_str()) {
        Some(generation) => generation == work.intent.generation,
        None => false,
    }
}

/// Records a new intent for a path.
pub fn add_intent(state: &mut RuntimeState, path: String, kind: PendingKind, now: u64)
    ensures
        final(state)@ == with_intent(old(state)@, path@, kind, now),
{
    let generation = next_generation(state);
    state.pending.insert(path, Intent { generation, kind, attempt: 0, not_before: now });
}

/// Records what is to be done with a path.
pub fn submit(state: &mut RuntimeState, path: &str, kind: PendingKind, now: u64, windows: bool)
    ensures
        final(state)@ == submitted(old(state)@, path@, kind, now, windows),
{
    match normalize_relative(path, windows) {
        Ok(normal) => {
            if normal.as_str().unicode_len() == 0 {
                return;
            }
            add_intent(state, normal, kind, now);
            update_pending_status(state);
        },
        Err(_) => {},
    }
}

/// The wait after so many failed attempts, in milliseconds.
pub fn retry_delay(attempt: u8) -> (delay: u64)
    ensures
        delay == retry_wait(attempt),
{
    if attempt <= 1 {
        1000
    } else if attempt == 2 {
        2000
    } else if attempt == 3 {
        4000
    } else if attempt == 4 {
        8000
    } else if attempt == 5 {
        16000
    } else {
        MAX_RETRY_DELAY
    }
}

/// Forgets a path that has been handled.
pub fn finish_success(state: &mut RuntimeState, path: &str)
    ensures
        final(state)@ == finished(old(state)@, path@),
{
    let ghost before_remaining = state.initial_remaining@;
    let _ = state.inflight.remove(path);
    let _ = state.initial_remaining.remove(path);
    let _ = state.failures.remove(path);
    assert(state.initial_remaining@.dom() =~= before_remaining.dom().remove(path@));
    update_pending_status(state);
}

fn drop_outdated(state: &mut RuntimeState, path: &str)
    ensures
        final(state)@ == dropped(old(state)@, path@),
{
    let _ = state.inflight.remove(path);
    update_pending_status(state);
}

/// Marks work as done without a change to the store.
pub fn mark_success(state: &mut RuntimeState, work: &PendingWork)
    ensures
        final(state)@ == marked(old(state)@, work@),
{
    if is_current_work(state, work) {
        finish_success(state, work.path.as_str());
    } else {
        drop_outdated(state, work.path.as_str());
    }
}

/// Puts failed work off.
pub fn requeue_failure(state: &mut RuntimeState, work: &PendingWork, error: &str, now: u64)
    requires
        now <= LAST_TIME,
    ensures
        final(state)@ == requeued(old(state)@, work@, error@, now),
{
    let current = is_current_work(state, work);
    let _ = state.inflight.remove(work.path.as_str());
    if current {
        let ghost before_remaining = state.initial_remaining@;
        let _ = state.initial_remaining.remove(work.path.as_str());
        assert(state.initial_remaining@.dom() =~= before_remaining.dom().remove(work.path@));
        state.failures.insert(work.path.clone(), error.to_owned());
        let attempt: u8 = if work.intent.attempt == u8::MAX {
            u8::MAX
        } else {
            work.intent.attempt + 1
        };
        let not_before: u64 = now + retry_delay(attempt);
        state.pending.insert(
            work.path.clone(),
            Intent {
                generation: work.intent.generation,
                kind: work.intent.kind,
                attempt,
                not_before,
            },
        );
    }
    update_pending_status(state);
}

/// Removes a note's vector on behalf of `work`.
pub fn commit_remove(
    state: &mut RuntimeState,
    store: &mut EmbeddingStore,
    live: bool,
    work: &PendingWork,
) -> (dirty: bool)
    ensures
        (Commit { state: final(state)@, store: final(store)@, dirty }) == removal(
            old(state)@,
            old(store)@,
            live,
            work@,
        ),
        consistent(old(store)@) ==> consistent(final(store)@),
{
    if !live {
        return false;
    }
    if !is_current_work(state, work) {
        drop_outdated(state, work.path.as_str());
        return false;
    }
    let removed = store.drop_key(work.path.as_str());
    finish_success(state, work.path.as_str());
    removed
}

/// Stores a note's vector on behalf of `work`.
pub fn commit_upsert(
    state: &mut RuntimeState,
    store: &mut EmbeddingStore,
    live: bool,
    work: &PendingWork,
    content_hash: [u8; 32],
    vector: Vec<u32>,
    now: u64,
) -> (dirty: bool)
    requires
        now <= LAST_TIME,
    ensures
        (Commit { state: final(state)@, store: final(store)@, dirty }) == insertion(
            old(state)@,
            old(store)@,
            live,
            work@,
            content_hash@,
            vector@,
            now,
        ),
        consistent(old(store)@) ==> consistent(final(store)@),
{
    if !live {
        return false;
    }
    if !is_current_work(state, work) {
        drop_outdated(state, work.path.as_str());
        return false;
    }
    match store.put(work.path.as_str(), content_hash, vector) {
        Ok(_) => {
            finish_success(state, work.path.as_str());
            if state.reconciliation_complete && !state.store_queryable {
                state.store_queryable = true;
            }
            true
        },
        Err(error) => {
            let message = error.message();
            requeue_failure(state, work, message.as_str(), now);
            false
        },
    }
}

/// Ends the first pass over the vault once every note of it has been handled.
/// Tells whether the store changed.
pub fn finalize_reconciliation_if_complete(
    state: &mut RuntimeState,
    store: &mut EmbeddingStore,
    live: bool,
    total_notes: usize,
) -> (dirty: bool)
    ensures
        (Commit { state: final(state)@, store: final(store)@, dirty }) == reconciled(
            old(state)@,
            old(store)@,
            live,
            total_notes as nat,
        ),
        consistent(old(store)@) ==> consistent(final(store)@),
{
    let left: usize = state.initial_remaining.len();
    proof {
        let dom = state.initial_remaining@.dom();
        if left == 0 {
            dom.lemma_len0_is_empty();
        }
    }
    if !live || !state.initial_started || state.reconciliation_complete || left != 0 {
        return false;
    }
    state.reconciliation_complete = true;
    let changed = !store.first_pass_complete();
    store.set_first_pass_complete(true);
    let has_vectors = !store.is_empty();
    if !state.store_queryable && (total_notes == 0 || has_vectors) {
        state.store_queryable = true;
    }
    changed
}

proof fn lemma_least_is_first(keys: Seq<Seq<char>>)
    requires
        strictly_sorted(keys),
        keys.len() > 0,
    ensures
        is_least(keys.to_set(), keys[0]),
        forall|k: Seq<char>| is_least(keys.to_set(), k) ==> k == keys[0],
{
    assert(keys.to_set().contains(keys[0]));
    assert forall|k: Seq<char>| #[trigger] keys.to_set().contains(k) implies k == keys[0] || before(
        keys[0],
        k,
    ) by {
        let j = keys.index_of(k);
        assert(keys[j] == k);
        if j > 0 {
            assert(before(keys[0], keys[j]));
        }
    }
    assert forall|k: Seq<char>| is_least(keys.to_set(), k) implies k == keys[0] by {
        before_is_strict_and_total(k, keys[0]);
    }
}

fn last_error(state: &RuntimeState) -> (error: Option<String>)
    ensures
        opt_text(error) == reported_error(state@),
{
    match &state.persistence_error {
        Some(text) => Some(text.clone()),
        None => {
            let n: usize = state.failures.len();
            proof {
                let dom = state.failures@.dom();
                if n == 0 {
                    dom.lemma_len0_is_empty();
                } else {
                    let keys = state.failures.keys();
                    lemma_least_is_first(keys);
                    let least = choose|key: Seq<char>| is_least(dom, key);
                    assert(least == keys[0]);
                    assert(dom.contains(keys[0]));
                }
            }
            if n == 0 {
                None
            } else {
                Some(state.failures.value_at(0).clone())
            }
        },
    }
}

/// The status of a runtime whose model is loaded.
pub fn status_for_loaded_state(
    state: &RuntimeState,
    total_notes: usize,
    indexed_notes: usize,
) -> (status: EmbeddingRuntimeStatus)
    ensures
        status@ == loaded_status(state@, total_notes, indexed_notes),
{
    let pending_notes: usize = distinct_pending_count(state);
    let error = last_error(state);
    let phase = if error.is_some() {
        EmbeddingPhase::Degraded
    } else if !state.reconciliation_complete || pending_notes > 0 {
        EmbeddingPhase::Warming
    } else {
        EmbeddingPhase::Ready
    };
    EmbeddingRuntimeStatus {
        phase,
        queryable: state.store_queryable && state.model.is_some() && state.has_store,
        indexed_notes,
        total_notes,
        pending_notes,
        last_error: error,
    }
}

/// How many of the paths have a vector.
pub fn count_indexed(store: &EmbeddingStore, paths: &Keyed<()>) -> (n: usize)
    ensures
        n == indexed_count(store@, paths@.dom()),
        n == as_count(indexed_count(store@, paths@.dom())),
{
    let total: usize = paths.len();
    let ghost keys = paths.keys();
    let ghost held = store@.entries.dom();
    let mut n: usize = 0;
    let mut i: usize = 0;
    proof {
        assert(keys.take(0).to_set().intersect(held) =~= Set::empty());
    }
    while i < total
        invariant
            n <= i <= total == keys.len(),
            keys == paths.keys(),
            keys.no_duplicates(),
            held == store@.entries.dom(),
            n == keys.take(i as int).to_set().intersect(held).len(),
        decreases total - i,
    {
        let key = paths.key_at(i);
        proof {
            let step = keys.take(i as int).to_set();
            let grown = keys.take(i as int).push(keys[i as int]);
            assert(keys.take(i + 1) =~= grown);
            assert(grown.to_set() =~= step.insert(keys[i as int])) by {
                assert forall|k: Seq<char>| grown.to_set().contains(k) <==> step.insert(
                    keys[i as int],
                ).contains(k) by {
                    if step.contains(k) {
                        let j = keys.take(i as int).index_of(k);
                        assert(grown[j] == k);
                    }
                    assert(grown[i as int] == keys[i as int]);
                    if grown.contains(k) {
                        let j = grown.index_of(k);
                        if j < i {
                            assert(keys.take(i as int)[j] == k);
                        }
                    }
                }
            }
            vstd::seq_lib::seq_to_set_is_finite(keys.take(i as int));
            assert(!step.contains(keys[i as int])) by {
                if step.contains(keys[i as int]) {
                    let j = keys.take(i as int).index_of(keys[i as int]);
                    assert(keys[j] == keys[i as int]);
                }
            }
            if held.contains(keys[i as int]) {
                assert(step.insert(keys[i as int]).intersect(held) =~= step.intersect(held).insert(
                    keys[i as int],
                ));
            } else {
                assert(step.insert(keys[i as int]).intersect(held) =~= step.intersect(held));
            }
        }
        if store.vector_at(key.as_str()).is_some() {
            n += 1;
        }
        i += 1;
    }
    assert(keys.take(i as int) =~= keys);
    n
}

/// The status for the notes that the vault holds now.
pub fn status_for_current_paths(
    state: &RuntimeState,
    store: &Option<EmbeddingStore>,
    paths: &Keyed<()>,
) -> (status: EmbeddingRuntimeStatus)
    ensures
        status@ == current_status(state@, opt_store(*store), paths@.dom()),
{
    let total: usize = paths.len();
    if state.model.is_none() {
        let mut status = state.status.copied();
        status.indexed_notes = 0;
        status.total_notes = total;
        status.pending_notes = distinct_pending_count(state);
        return status;
    }
    let indexed: usize = match store {
        Some(held) => count_indexed(held, paths),
        None => 0,
    };
    status_for_loaded_state(state, total, indexed)
}

/// An optional store.
pub open spec fn opt_store(store: Option<EmbeddingStore>) -> Option<StoreView> {
    match store {
        Some(held) => Some(held@),
        None => None,
    }
}

/// Reports the status for the notes that the vault holds now.
pub fn refresh_status(state: &mut RuntimeState, store: &EmbeddingStore, paths: &Keyed<()>)
    ensures
        final(state)@ == (StateView {
            status: loaded_status(
                old(state)@,
                as_count(paths@.dom().len()),
                as_count(indexed_count(store@, paths@.dom())),
            ),
            ..old(state)@
        }),
{
    let total: usize = paths.len();
    let indexed: usize = count_indexed(store, paths);
    let next = status_for_loaded_state(state, total, indexed);
    state.status = next;
}

/// What is said while the embeddings cannot be queried.
pub fn not_ready_message(status: &EmbeddingRuntimeStatus) -> (text: String)
    ensures
        text@ == not_ready_text(status@),
{
    let detail = match &status.last_error {
        Some(error) => error.clone(),
        None => "embedding runtime is warming up".to_owned(),
    };
    let indexed = to_decimal(status.indexed_notes as u64);
    let total = to_decimal(status.total_notes as u64);
    let pending = to_decimal(status.pending_notes as u64);
    let mut text = cat7(
        "semantic embeddings are not ready (",
        indexed.as_str(),
        "/",
        total.as_str(),
        ", ",
        pending.as_str(),
        " pending): ",
    );
    text.append(detail.as_str());
    text
}

/// A submitted note is pending, under its normal path, as a fresh intent that may be
/// worked on at once; nothing else changes. A path outside the vault, or the vault
/// itself, changes nothing.
pub proof fn submitting_makes_a_note_pending(
    s: StateView,
    path: Seq<char>,
    kind: PendingKind,
    now: u64,
    other: Seq<char>,
    windows: bool,
)
    ensures
        ({
            let after = submitted(s, path, kind, now, windows);
            let normal = normal_relative(path, windows);
            &&& normal is None || normal->0.len() == 0 ==> after == s
            &&& normal is Some && normal->0.len() > 0 ==> {
                &&& after.pending.contains_key(normal->0)
                &&& after.pending[normal->0].kind == kind
                &&& after.pending[normal->0].attempt == 0
                &&& after.pending[normal->0].not_before == now
                &&& after.pending[normal->0].generation == after.next_generation
                &&& after.next_generation != s.next_generation
                &&& s.next_generation < u64::MAX ==> after.next_generation == s.next_generation + 1
                &&& other != normal->0 ==> (after.pending.contains_key(other)
                    <==> s.pending.contains_key(other))
                &&& other != normal->0 && s.pending.contains_key(other) ==> after.pending[other]
                    == s.pending[other]
                &&& after.inflight == s.inflight
                &&& after.failures == s.failures
                &&& after.initial_remaining == s.initial_remaining
                &&& after.store_queryable == s.store_queryable
                &&& after.reconciliation_complete == s.reconciliation_complete
                &&& after.status.last_error == s.status.last_error
                &&& after.status.pending_notes == as_count(
                    after.pending.dom().union(after.inflight.dom()).len(),
                )
            }
        }),
{
}

/// Work is current exactly where its generation is that of the pending intent for its
/// note, or, where none is pending, of the one that is being worked on.
pub proof fn pending_intents_outdate_work(s: StateView, work: WorkView)
    ensures
        s.pending.contains_key(work.path) ==> (is_current(s, work)
            <==> s.pending[work.path].generation == work.intent.generation),
        !s.pending.contains_key(work.path) && s.inflight.contains_key(work.path) ==> (is_current(
            s,
            work,
        ) <==> s.inflight[work.path] == work.intent.generation),
        !s.pending.contains_key(work.path) && !s.inflight.contains_key(work.path) ==> !is_current(
            s,
            work,
        ),
{
}

/// The wait before a retry is a second at first and doubles with each attempt, up to
/// half a minute.
pub proof fn retry_waits_double(attempt: u8)
    requires
        1 <= attempt < u8::MAX,
    ensures
        retry_wait(0) == 1000,
        retry_wait(1) == 1000,
        retry_wait((attempt + 1) as u8) == if 2 * retry_wait(attempt) < 30_000 {
            2 * retry_wait(attempt)
        } else {
            30_000
        },
{
}

/// Failed work that is still current waits for its next attempt, counts as looked at
/// and leaves its error; work that is not leaves nothing but its place among the work
/// in progress.
pub proof fn failed_work_is_tried_again(s: StateView, work: WorkView, error: Seq<char>, now: u64)
    requires
        now <= LAST_TIME,
    ensures
        ({
            let after = requeued(s, work, error, now);
            &&& !after.inflight.contains_key(work.path)
            &&& after.inflight == s.inflight.remove(work.path)
            &&& after.store_queryable == s.store_queryable
            &&& is_current(s, work) ==> {
                let intent = after.pending[work.path];
                &&& after.pending == s.pending.insert(work.path, intent)
                &&& intent.generation == work.intent.generation
                &&& intent.kind == work.intent.kind
                &&& intent.attempt == if work.intent.attempt < 255 {
                    work.intent.attempt + 1
                } else {
                    255
                }
                &&& intent.not_before == now + retry_wait(intent.attempt)
                &&& after.failures == s.failures.insert(work.path, error)
                &&& after.initial_remaining == s.initial_remaining.remove(work.path)
            }
            &&& !is_current(s, work) ==> after.pending == s.pending && after.failures == s.failures
                && after.initial_remaining == s.initial_remaining
        }),
{
}

/// Work that succeeds is done with exactly where it is current: then its failure is
/// forgotten and it counts as looked at. Either way it is no longer in progress, and
/// what is pending stays.
pub proof fn successful_work_is_done(s: StateView, work: WorkView)
    ensures
        ({
            let after = marked(s, work);
            &&& after.inflight == s.inflight.remove(work.path)
            &&& after.pending == s.pending
            &&& after.next_generation == s.next_generation
            &&& after.failures == if is_current(s, work) {
                s.failures.remove(work.path)
            } else {
                s.failures
            }
            &&& after.initial_remaining == if is_current(s, work) {
                s.initial_remaining.remove(work.path)
            } else {
                s.initial_remaining
            }
        }),
{
}

/// A current removal takes the note, and only the note, out of the store, which then
/// has to be written only where it held the note.
pub proof fn removals_take_one_note(s: StateView, store: StoreView, work: WorkView, other: Seq<char>)
    requires
        is_current(s, work),
    ensures
        ({
            let commit = removal(s, store, true, work);
            &&& !commit.store.entries.contains_key(work.path)
            &&& other != work.path ==> (commit.store.entries.contains_key(other)
                <==> store.entries.contains_key(other))
            &&& other != work.path && store.entries.contains_key(other) ==> commit.store.entries[other]
                == store.entries[other]
            &&& commit.dirty <==> store.entries.contains_key(work.path)
            &&& commit.state == marked(s, work)
        }),
{
}

/// A current vector that fits the store replaces that of its note, and only that, and
/// the store has to be written; one that does not fit leaves the store and is tried
/// again. Work that is not current changes no store.
pub proof fn insertions_put_one_note(
    s: StateView,
    store: StoreView,
    work: WorkView,
    content_hash: Seq<u8>,
    vector: Seq<u32>,
    now: u64,
    other: Seq<char>,
)
    ensures
        ({
            let commit = insertion(s, store, true, work, content_hash, vector, now);
            &&& is_current(s, work) && vector_fault(vector, store.dim as nat) is None ==> {
                &&& commit.dirty
                &&& commit.store.entries.contains_key(work.path)
                &&& commit.store.entries[work.path].vector == vector
                &&& commit.store.entries[work.path].content_hash == Some(content_hash)
                &&& other != work.path ==> (commit.store.entries.contains_key(other)
                    <==> store.entries.contains_key(other))
                &&& other != work.path && store.entries.contains_key(other)
                    ==> commit.store.entries[other] == store.entries[other]
                &&& commit.state.pending == s.pending
                &&& commit.state.inflight == s.inflight.remove(work.path)
                &&& commit.state.failures == s.failures.remove(work.path)
                &&& commit.state.store_queryable <==> s.store_queryable || s.reconciliation_complete
            }
            &&& is_current(s, work) && vector_fault(vector, store.dim as nat) is Some ==> {
                &&& !commit.dirty
                &&& commit.store == store
                &&& commit.state.pending.contains_key(work.path)
                &&& commit.state.failures.contains_key(work.path)
            }
            &&& !is_current(s, work) ==> !commit.dirty && commit.store == store
                && commit.state.pending == s.pending && commit.state.failures == s.failures
        }),
{
}

/// The first pass ends exactly where it was started, nothing of it remains and it has
/// not ended before; the store is then complete, and it can be queried where it could
/// before, where it holds anything, or where there is nothing to hold.
pub proof fn the_first_pass_ends_with_its_last_note(
    s: StateView,
    store: StoreView,
    total_notes: nat,
)
    ensures
        ({
            let commit = reconciled(s, store, true, total_notes);
            let ends = s.initial_started && !s.reconciliation_complete && s.initial_remaining == Set::<
                Seq<char>,
            >::empty();
            &&& !ends ==> commit == (Commit { state: s, store, dirty: false })
            &&& ends ==> {
                &&& commit.state.reconciliation_complete
                &&& commit.store.first_pass_complete
                &&& commit.store.entries == store.entries
                &&& commit.dirty <==> !store.first_pass_complete
                &&& commit.state.store_queryable <==> s.store_queryable || total_notes == 0
                    || store.entries.dom() != Set::<Seq<char>>::empty()
                &&& commit.state.pending == s.pending
                &&& commit.state.inflight == s.inflight
                &&& commit.state.failures == s.failures
            }
        }),
{
}

/// A loaded runtime is degraded exactly where it has an error to report, and ready
/// exactly where it has none, has been through all notes once and has nothing left to
/// do. It can be queried exactly where it has a model and a store that is released.
pub proof fn the_phase_tells_what_is_left(s: StateView, total_notes: usize, indexed_notes: usize)
    ensures
        ({
            let status = loaded_status(s, total_notes, indexed_notes);
            let left = s.pending.dom().union(s.inflight.dom()).len();
            &&& status.phase == EmbeddingPhase::Degraded <==> s.persistence_error is Some
                || s.failures.dom() != Set::<Seq<char>>::empty()
            &&& status.phase == EmbeddingPhase::Ready <==> s.persistence_error is None
                && s.failures.dom() == Set::<Seq<char>>::empty() && s.reconciliation_complete && left
                == 0
            &&& status.queryable <==> s.store_queryable && s.model is Some && s.has_store
            &&& status.total_notes == total_notes
            &&& status.indexed_notes == indexed_notes
            &&& left <= usize::MAX ==> status.pending_notes == left
            &&& status.last_error is Some <==> status.phase == EmbeddingPhase::Degraded
            &&& s.persistence_error is Some ==> status.last_error == s.persistence_error
        }),
{
}

/// Of several failures that of the first note, in the order of the paths, is reported.
pub proof fn the_first_failure_is_reported(failures: Map<Seq<char>, Seq<char>>, key: Seq<char>)
    requires
        failures.contains_key(key),
        forall|k: Seq<char>| #[trigger]
            failures.contains_key(k) ==> k == key || before(key, k),
    ensures
        reported_failure(failures) == Some(failures[key]),
{
    assert(failures.dom().contains(key));
    assert forall|k: Seq<char>| #[trigger] failures.dom().contains(k) implies k == key || before(
        key,
        k,
    ) by {
        assert(failures.contains_key(k));
    }
    assert(is_least(failures.dom(), key));
    let chosen = choose|k: Seq<char>| is_least(failures.dom(), k);
    assert(failures.contains_key(chosen));
    if chosen != key {
        assert(before(key, chosen));
        assert(before(chosen, key));
        before_is_strict_and_total(key, chosen);
    }
}

/// Before a model is there, the status says how many notes there are and none of them
/// counts as indexed; with one, the notes that the store holds count.
pub proof fn only_stored_notes_count_as_indexed(
    s: StateView,
    store: StoreView,
    paths: Set<Seq<char>>,
)
    ensures
        s.model is None ==> current_status(s, Some(store), paths).indexed_notes == 0,
        s.model is Some ==> current_status(s, None, paths).indexed_notes == 0,
        s.model is Some && paths.intersect(store.entries.dom()).len() <= usize::MAX
            ==> current_status(s, Some(store), paths).indexed_notes == paths.intersect(
            store.entries.dom(),
        ).len(),
        paths.len() <= usize::MAX ==> current_status(s, Some(store), paths).total_notes == paths.len()
            && current_status(s, None, paths).total_notes == paths.len(),
        distinct_pending(s) <= usize::MAX ==> current_status(s, Some(store), paths).pending_notes
            == distinct_pending(s),
{
}

/// A runtime with work to do is not ready: counting the work takes a runtime without an
/// error back to warming up, and changes nothing else but the count.
pub proof fn pending_work_ends_readiness(s: StateView)
    ensures
        ({
            let after = recounted(s);
            let left = s.pending.dom().union(s.inflight.dom()).len();
            &&& left > 0 && s.status.last_error is None ==> after.status.phase
                != EmbeddingPhase::Ready
            &&& left == 0 || s.status.last_error is Some || s.status.phase != EmbeddingPhase::Ready
                ==> after.status.phase == s.status.phase
            &&& left <= usize::MAX ==> after.status.pending_notes == left
            &&& after.status.queryable == s.status.queryable
            &&& after.status.last_error == s.status.last_error
            &&& after.status.indexed_notes == s.status.indexed_notes
            &&& after.status.total_notes == s.status.total_notes
            &&& after.pending == s.pending && after.inflight == s.inflight && after.failures
                == s.failures
        }),
{
}

/// A removal that is not current, or that nobody waits for, changes no store.
pub proof fn outdated_removals_change_nothing(s: StateView, store: StoreView, live: bool, work: WorkView)
    requires
        !live || !is_current(s, work),
    ensures
        removal(s, store, live, work).store == store,
        !removal(s, store, live, work).dirty,
        removal(s, store, live, work).state.pending == s.pending,
        removal(s, store, live, work).state.failures == s.failures,
{
}

} // verus!
