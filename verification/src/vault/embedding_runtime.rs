//! The embedding runtime: a background coordinator as a state machine.
//!
//! The coordinator loads a model and a cache, then embeds changed notes in
//! batches and writes the cache from time to time. Each event of that work goes to
//! one method here, which updates the runtime and says what to do next.

use crate::error::{VaultError, VaultErrorView};
use crate::keyed::Keyed;
use crate::path::{normal_relative, normalize_relative};
use crate::text::{copy_texts, opt_str, opt_text, texts};
use crate::vault::batch::{
    all_progressed, all_requeued, batch_paths, batch_taken, changed_views, embedded, is_due,
    is_due_batch, is_next_time, prepared_views, process_embedded, process_prepared, requeue_batch, take_due_batch, ChangedView,
    ChangedWork, InferenceOutcome, PreparedWork, Progress,
};
use crate::vault::embeddings::{
    empty_store, retained, EmbeddingSpaceIdentity, EmbeddingStore, EntryView, IdentityView, StoreView,
};
use crate::vault::runtime_state::{
    add_intent, as_count, current_status, distinct_pending, distinct_pending_count,
    finalize_reconciliation_if_complete, indexed_count, loaded_status, next_attempt,
    not_ready_message, not_ready_text, opt_store, reconciled, recounted, refresh_status,
    retry_delay, retry_wait, status_for_current_paths, submit, submitted, update_pending_status,
    with_intent, work_views, EmbeddingPhase, EmbeddingRuntimeStatus, PendingKind, PendingWork,
    RuntimeState, StateView, StatusView, WorkView, LAST_TIME,
};
use vstd::prelude::*;

verus! {

/// The longest time that a changed store is not written while work goes on, in
/// milliseconds.
pub const MAX_DIRTY_INTERVAL: u64 = 2_000;

/// The embedding runtime of one vault.
pub struct EmbeddingRuntime {
    /// Whether the runtime still has an owner.
    pub live: bool,
    /// Why the model could not be loaded.
    pub first_load_error: Option<String>,
    /// Where older versions kept the cache, the preferred place first.
    pub cache_sources: Vec<String>,
    pub state: RuntimeState,
    pub store: Option<EmbeddingStore>,
    /// Whether the store differs from the written cache.
    pub dirty: bool,
    pub last_persist: u64,
    pub persist_retry_at: u64,
    pub persist_attempt: u8,
}

/// The runtime as mathematical values.
#[verifier::ext_equal]
pub struct RuntimeView {
    pub live: bool,
    pub first_load_error: Option<Seq<char>>,
    pub cache_sources: Seq<Seq<char>>,
    pub state: StateView,
    pub store: Option<StoreView>,
    pub dirty: bool,
    pub last_persist: u64,
    pub persist_retry_at: u64,
    pub persist_attempt: u8,
}

impl View for EmbeddingRuntime {
    type V = RuntimeView;

    open spec fn view(&self) -> RuntimeView {
        RuntimeView {
            live: self.live,
            first_load_error: opt_text(self.first_load_error),
            cache_sources: texts(self.cache_sources@),
            state: self.state@,
            store: opt_store(self.store),
            dirty: self.dirty,
            last_persist: self.last_persist,
            persist_retry_at: self.persist_retry_at,
            persist_attempt: self.persist_attempt,
        }
    }
}

/// What the coordinator does next.
pub enum CoordinatorAction {
    /// End the coordinator.
    Stop,
    /// Bring the cache from the first of these places that holds one, unless there
    /// is one already.
    RelocateCache(Vec<String>),
    /// Load the cache for the model's vector space.
    LoadCache,
    /// Read the notes of a batch.
    Prepare(Vec<PendingWork>),
    /// Embed the texts of changed notes.
    Embed(Vec<ChangedWork>),
    /// Write the cache.
    Persist,
    /// Wait for a new intent, or until the given time.
    Wait(Option<u64>),
}

/// What the coordinator does next, as mathematical values.
pub enum ActionView {
    Stop,
    RelocateCache(Seq<Seq<char>>),
    LoadCache,
    Prepare(Seq<WorkView>),
    Embed(Seq<ChangedView>),
    Persist,
    Wait(Option<u64>),
}

impl View for CoordinatorAction {
    type V = ActionView;

    open spec fn view(&self) -> ActionView {
        match self {
            CoordinatorAction::Stop => ActionView::Stop,
            CoordinatorAction::RelocateCache(sources) => ActionView::RelocateCache(texts(sources@)),
            CoordinatorAction::LoadCache => ActionView::LoadCache,
            CoordinatorAction::Prepare(batch) => ActionView::Prepare(work_views(batch@)),
            CoordinatorAction::Embed(changed) => ActionView::Embed(changed_views(changed@)),
            CoordinatorAction::Persist => ActionView::Persist,
            CoordinatorAction::Wait(until) => ActionView::Wait(*until),
        }
    }
}

/// What came of writing the cache.
pub enum PersistOutcome {
    Written,
    /// The runtime lost its owner before the file was replaced.
    Abandoned,
    Failed(String),
}

/// A state without any work.
pub open spec fn idle_state(total_notes: usize) -> StateView {
    StateView {
        next_generation: 0,
        pending: Map::empty(),
        inflight: Map::empty(),
        initial_remaining: Set::empty(),
        initial_started: false,
        reconciliation_complete: false,
        failures: Map::empty(),
        persistence_error: None,
        model: None,
        has_store: false,
        store_queryable: false,
        status: StatusView {
            phase: EmbeddingPhase::Warming,
            queryable: false,
            indexed_notes: 0,
            total_notes,
            pending_notes: 0,
            last_error: None,
        },
    }
}

/// The state with an intent for each of the paths from position `i` on that has
/// none.
pub open spec fn with_missing_intents(
    s: StateView,
    paths: Seq<Seq<char>>,
    i: int,
    now: u64,
) -> StateView
    decreases paths.len() - i,
{
    if i < 0 || i >= paths.len() {
        s
    } else if s.pending.contains_key(paths[i]) {
        with_missing_intents(s, paths, i + 1, now)
    } else {
        with_missing_intents(
            with_intent(s, paths[i], PendingKind::Upsert, now),
            paths,
            i + 1,
            now,
        )
    }
}

/// A runtime that waits for its model. Every note is to be embedded.
pub open spec fn created(
    paths: Seq<Seq<char>>,
    cache_sources: Seq<Seq<char>>,
    now: u64,
) -> RuntimeView {
    RuntimeView {
        live: true,
        first_load_error: None,
        cache_sources,
        state: recounted(
            with_missing_intents(idle_state(as_count(paths.len())), paths, 0, now),
        ),
        store: None,
        dirty: false,
        last_persist: now,
        persist_retry_at: now,
        persist_attempt: 0,
    }
}

/// Whether the embeddings can be queried.
pub open spec fn is_queryable(r: RuntimeView) -> bool {
    r.state.model is Some && r.store is Some && r.state.store_queryable
}

/// The runtime after its model could not be loaded.
pub open spec fn load_failed(r: RuntimeView, message: Seq<char>, total_notes: usize) -> RuntimeView {
    RuntimeView {
        first_load_error: if r.first_load_error is Some {
            r.first_load_error
        } else {
            Some(message)
        },
        state: StateView {
            status: StatusView {
                phase: EmbeddingPhase::Degraded,
                queryable: false,
                indexed_notes: 0,
                total_notes,
                pending_notes: as_count(distinct_pending(r.state)),
                last_error: Some(message),
            },
            ..r.state
        },
        ..r
    }
}

/// What the coordinator does once the model is loaded.
pub open spec fn after_model(r: RuntimeView) -> ActionView {
    if !r.live {
        ActionView::Stop
    } else if r.cache_sources.len() > 0 {
        ActionView::RelocateCache(r.cache_sources)
    } else {
        ActionView::LoadCache
    }
}

/// What the coordinator does once an older cache was looked for.
pub open spec fn after_relocation(r: RuntimeView) -> ActionView {
    if r.live {
        ActionView::LoadCache
    } else {
        ActionView::Stop
    }
}

/// The state with its status up to date.
pub open spec fn restated(s: StateView, store: StoreView, paths: Set<Seq<char>>) -> StateView {
    StateView {
        status: loaded_status(
            s,
            as_count(paths.len()),
            as_count(indexed_count(store, paths)),
        ),
        ..s
    }
}

/// The store that the runtime starts with: the cached one, else an empty one,
/// without the notes that the vault no longer holds.
pub open spec fn starting_store(
    identity: IdentityView,
    cached: Option<StoreView>,
    paths: Set<Seq<char>>,
) -> StoreView {
    retained(given_store(identity, cached), paths)
}

/// The cached store, else an empty one.
pub open spec fn given_store(identity: IdentityView, cached: Option<StoreView>) -> StoreView {
    match cached {
        Some(store) => store,
        None => empty_store(identity.dimension, Some(identity)),
    }
}

/// The runtime once model and cache are there: every note of the vault belongs
/// to the first pass, and the store can be queried at once if an earlier run
/// finished a first pass.
pub open spec fn begun(
    r: RuntimeView,
    identity: IdentityView,
    cached: Option<StoreView>,
    paths: Seq<Seq<char>>,
    now: u64,
) -> RuntimeView {
    let all = paths.to_set();
    let given = given_store(identity, cached);
    let store = starting_store(identity, cached, all);
    let s = recounted(
        with_missing_intents(
            StateView {
                model: Some(identity),
                has_store: true,
                store_queryable: given.first_pass_complete && (paths.len() == 0
                    || store.entries.dom() != Set::<Seq<char>>::empty()),
                initial_started: true,
                initial_remaining: all,
                ..r.state
            },
            paths,
            0,
            now,
        ),
    );
    let c = reconciled(s, store, true, paths.len());
    RuntimeView {
        state: restated(c.state, c.store, all),
        store: Some(c.store),
        dirty: !given.entries.dom().subset_of(all) || c.dirty,
        last_persist: now,
        persist_retry_at: now,
        persist_attempt: 0,
        ..r
    }
}

/// The time that has passed since the cache was last written.
pub open spec fn since_persist(r: RuntimeView, now: u64) -> int {
    if now < r.last_persist {
        0
    } else {
        now - r.last_persist
    }
}

/// Whether the cache is to be written while there is more work.
pub open spec fn persist_overdue(r: RuntimeView, now: u64) -> bool {
    r.dirty && now >= r.persist_retry_at && since_persist(r, now) >= MAX_DIRTY_INTERVAL
}

/// Whether the cache is to be written now that no work is due.
pub open spec fn persist_due(r: RuntimeView, pending_empty: bool, now: u64) -> bool {
    r.dirty && now >= r.persist_retry_at && (pending_empty || since_persist(r, now)
        >= MAX_DIRTY_INTERVAL)
}

/// A time after `t`, or the last one.
pub open spec fn later(t: u64, delay: u64) -> u64 {
    if t + delay > u64::MAX {
        u64::MAX
    } else {
        (t + delay) as u64
    }
}

/// When the cache is to be written.
pub open spec fn persist_time(r: RuntimeView, pending_empty: bool) -> u64 {
    let earliest = later(r.last_persist, MAX_DIRTY_INTERVAL);
    if pending_empty || r.persist_retry_at >= earliest {
        r.persist_retry_at
    } else {
        earliest
    }
}

/// How long the coordinator waits: until work is due or the cache is to be written.
pub open spec fn wake_time(
    r: RuntimeView,
    next_pending: Option<u64>,
    pending_empty: bool,
) -> Option<u64> {
    if !r.dirty {
        next_pending
    } else {
        let persist = persist_time(r, pending_empty);
        match next_pending {
            Some(next) => if next < persist {
                Some(next)
            } else {
                Some(persist)
            },
            None => Some(persist),
        }
    }
}

/// Whether nothing is pending or in flight.
pub open spec fn is_idle(s: StateView) -> bool {
    s.pending.dom() == Set::<Seq<char>>::empty() && s.inflight.dom() == Set::<Seq<char>>::empty()
}

/// The runtime with a batch taken from its pending work.
pub open spec fn with_batch_taken(r: RuntimeView, batch: Seq<WorkView>) -> RuntimeView {
    RuntimeView { state: batch_taken(r.state, batch), ..r }
}

/// Whether `after` and `action` are how the coordinator goes on from `r` at time
/// `now`: it stops without an owner; due work comes first; then the cache is
/// written if it is time; else the coordinator waits.
pub open spec fn goes_on(r: RuntimeView, now: u64, after: RuntimeView, action: ActionView) -> bool {
    if !r.live {
        after == r && action == ActionView::Stop
    } else {
        exists|batch: Seq<WorkView>|
            #![trigger is_due_batch(r.state.pending, now, batch)]
            {
                &&& is_due_batch(r.state.pending, now, batch)
                &&& after == with_batch_taken(r, batch)
                &&& if batch.len() > 0 {
                    action == ActionView::Prepare(batch)
                } else if persist_due(r, is_idle(after.state), now) {
                    action == ActionView::Persist
                } else {
                    exists|next: Option<u64>|
                        #![trigger is_next_time(after.state.pending, next)]
                        is_next_time(after.state.pending, next) && action == ActionView::Wait(
                            wake_time(r, next, is_idle(after.state)),
                        )
                }
            }
    }
}

/// The runtime after a batch was handled: the first pass may be over, and the
/// status is up to date.
pub open spec fn batch_closed(r: RuntimeView, paths: Seq<Seq<char>>) -> RuntimeView {
    match r.store {
        None => r,
        Some(store) => {
            let c = reconciled(r.state, store, r.live, paths.len());
            RuntimeView {
                state: restated(c.state, c.store, paths.to_set()),
                store: Some(c.store),
                dirty: r.dirty || c.dirty,
                ..r
            }
        },
    }
}

/// Whether `after` and `action` follow on a handled batch: an overdue cache is
/// written first.
pub open spec fn closes_batch(
    r: RuntimeView,
    paths: Seq<Seq<char>>,
    now: u64,
    after: RuntimeView,
    action: ActionView,
) -> bool {
    let closed = batch_closed(r, paths);
    if persist_overdue(closed, now) {
        after == closed && action == ActionView::Persist
    } else {
        goes_on(closed, now, after, action)
    }
}

/// The runtime after the cache was written or could not be.
pub open spec fn persist_settled(
    r: RuntimeView,
    store: StoreView,
    error: Option<Seq<char>>,
    paths: Seq<Seq<char>>,
    now: u64,
) -> RuntimeView {
    let attempt = next_attempt(r.persist_attempt);
    let settled = match error {
        None => RuntimeView {
            dirty: false,
            persist_attempt: 0,
            persist_retry_at: now,
            last_persist: now,
            ..r
        },
        Some(_) => RuntimeView {
            persist_attempt: attempt,
            persist_retry_at: (now + retry_wait(attempt)) as u64,
            ..r
        },
    };
    RuntimeView {
        state: restated(
            StateView { persistence_error: error, ..r.state },
            store,
            paths.to_set(),
        ),
        ..settled
    }
}

/// The dimension of the loaded model.
pub open spec fn model_dimension(s: StateView) -> nat {
    match s.model {
        Some(identity) => identity.dimension as nat,
        None => 0,
    }
}

fn add_missing_intents(state: &mut RuntimeState, paths: &Keyed<()>, now: u64)
    ensures
        final(state)@ == with_missing_intents(old(state)@, paths.keys(), 0, now),
{
    let total: usize = paths.len();
    let ghost keys = paths.keys();
    let mut i: usize = 0;
    while i < total
        invariant
            i <= total == keys.len(),
            keys == paths.keys(),
            with_missing_intents(old(state)@, keys, 0, now) == with_missing_intents(
                state@,
                keys,
                i as int,
                now,
            ),
        decreases total - i,
    {
        let path = paths.key_at(i).clone();
        if !state.pending.contains_key(path.as_str()) {
            add_intent(state, path, PendingKind::Upsert, now);
        }
        i += 1;
    }
}

impl EmbeddingRuntime {
    /// A runtime for a vault that holds the given notes. It waits for its model.
    pub fn new(paths: &Keyed<()>, now: u64) -> (runtime: Self)
        ensures
            runtime@ == created(paths.keys(), Seq::empty(), now),
    {
        let sources: Vec<String> = Vec::new();
        assert(texts(sources@) =~= Seq::empty());
        Self::with_cache_sources(paths, sources, now)
    }

    /// As `new`, with places where older versions kept the cache, the preferred one
    /// first.
    pub fn with_cache_sources(paths: &Keyed<()>, cache_sources: Vec<String>, now: u64) -> (runtime:
        Self)
        ensures
            runtime@ == created(paths.keys(), texts(cache_sources@), now),
    {
        let total: usize = paths.len();
        let mut status = EmbeddingRuntimeStatus::default();
        status.total_notes = total;
        let mut state = RuntimeState {
            next_generation: 0,
            pending: Keyed::new(),
            inflight: Keyed::new(),
            initial_remaining: Keyed::new(),
            initial_started: false,
            reconciliation_complete: false,
            failures: Keyed::new(),
            persistence_error: None,
            model: None,
            has_store: false,
            store_queryable: false,
            status,
        };
        assert(state@ =~= idle_state(total));
        add_missing_intents(&mut state, paths, now);
        update_pending_status(&mut state);
        EmbeddingRuntime {
            live: true,
            first_load_error: None,
            cache_sources,
            state,
            store: None,
            dirty: false,
            last_persist: now,
            persist_retry_at: now,
            persist_attempt: 0,
        }
    }

    /// Asks for a note to be embedded.
    pub fn submit_upsert(&mut self, path: &str, now: u64, windows: bool)
        ensures
            final(self)@ == (RuntimeView {
                state: submitted(old(self)@.state, path@, PendingKind::Upsert, now, windows),
                ..old(self)@
            }),
    {
        submit(&mut self.state, path, PendingKind::Upsert, now, windows);
    }

    /// Asks for a note's embedding to be removed.
    pub fn submit_remove(&mut self, path: &str, now: u64, windows: bool)
        ensures
            final(self)@ == (RuntimeView {
                state: submitted(old(self)@.state, path@, PendingKind::Remove, now, windows),
                ..old(self)@
            }),
    {
        submit(&mut self.state, path, PendingKind::Remove, now, windows);
    }

    /// What is pending for a path.
    pub fn pending_kind(&self, path: &str, windows: bool) -> (kind: Option<PendingKind>)
        ensures
            match kind {
                Some(k) => normal_relative(path@, windows) matches Some(normal)
                    && self@.state.pending.contains_key(normal)
                    && self@.state.pending[normal].kind == k,
                None => normal_relative(path@, windows) matches Some(normal)
                    ==> !self@.state.pending.contains_key(normal),
            },
    {
        match normalize_relative(path, windows) {
            Ok(normal) => match self.state.pending.get(normal.as_str()) {
                Some(intent) => Some(intent.kind),
                None => None,
            },
            Err(_) => None,
        }
    }

    /// The status for the notes that the vault holds now.
    pub fn status(&self, paths: &Keyed<()>) -> (status: EmbeddingRuntimeStatus)
        ensures
            status@ == current_status(self@.state, self@.store, paths@.dom()),
    {
        status_for_current_paths(&self.state, &self.store, paths)
    }

    /// The store, if it can be queried.
    pub fn query_snapshot(&self, paths: &Keyed<()>) -> (result: Result<
        &EmbeddingStore,
        VaultError,
    >)
        ensures
            match result {
                Ok(store) => is_queryable(self@) && self@.store == Some(store@),
                Err(error) => !is_queryable(self@) && error@ == VaultErrorView::Embedding(
                    not_ready_text(current_status(self@.state, self@.store, paths@.dom())),
                ),
            },
    {
        match &self.store {
            Some(store) => {
                if self.state.model.is_some() && self.state.store_queryable {
                    return Ok(store);
                }
            },
            None => {},
        }
        let status = self.status(paths);
        Err(VaultError::Embedding(not_ready_message(&status)))
    }

    /// Why the model could not be loaded.
    pub fn first_load_error(&self) -> (error: Option<&str>)
        ensures
            opt_str(error) == self@.first_load_error,
    {
        match &self.first_load_error {
            Some(text) => Some(text.as_str()),
            None => None,
        }
    }

    /// Ends the runtime: nothing is stored or written any more.
    pub fn stop(&mut self)
        ensures
            final(self)@ == (RuntimeView { live: false, ..old(self)@ }),
    {
        self.live = false;
    }

    /// Takes in that the model could not be loaded.
    pub fn model_failed(&mut self, message: String, paths: &Keyed<()>) -> (action: CoordinatorAction)
        ensures
            final(self)@ == load_failed(old(self)@, message@, as_count(paths@.dom().len())),
            action@ == ActionView::Stop,
    {
        if self.first_load_error.is_none() {
            self.first_load_error = Some(message.clone());
        }
        let total: usize = paths.len();
        let pending_notes: usize = distinct_pending_count(&self.state);
        self.state.status = EmbeddingRuntimeStatus {
            phase: EmbeddingPhase::Degraded,
            queryable: false,
            indexed_notes: 0,
            total_notes: total,
            pending_notes,
            last_error: Some(message),
        };
        CoordinatorAction::Stop
    }

    /// Takes in that the model was loaded: an older cache is brought first, where
    /// there are places to look for one.
    pub fn model_loaded(&self) -> (action: CoordinatorAction)
        ensures
            action@ == after_model(self@),
    {
        if !self.live {
            CoordinatorAction::Stop
        } else if self.cache_sources.len() > 0 {
            CoordinatorAction::RelocateCache(copy_texts(&self.cache_sources))
        } else {
            CoordinatorAction::LoadCache
        }
    }

    /// Takes in that an older cache was looked for. Whatever came of it, the cache
    /// is loaded next; without one it is built anew.
    pub fn cache_relocated(&self) -> (action: CoordinatorAction)
        ensures
            action@ == after_relocation(self@),
    {
        if self.live {
            CoordinatorAction::LoadCache
        } else {
            CoordinatorAction::Stop
        }
    }

    /// Takes in the cached store for the model's vector space, if there is one,
    /// and starts the first pass.
    pub fn cache_loaded(
        &mut self,
        identity: &EmbeddingSpaceIdentity,
        cached: Option<EmbeddingStore>,
        paths: &Keyed<()>,
        now: u64,
    ) -> (action: CoordinatorAction)
        ensures
            if !old(self)@.live {
                final(self)@ == old(self)@ && action@ == ActionView::Stop
            } else {
                goes_on(
                    begun(old(self)@, identity@, opt_store(cached), paths.keys(), now),
                    now,
                    final(self)@,
                    action@,
                )
            },
    {
        if !self.live {
            return CoordinatorAction::Stop;
        }
        let total: usize = paths.len();
        let mut store = match cached {
            Some(store) => store,
            None => EmbeddingStore::new_with_identity(identity.copied()),
        };
        let published = store.first_pass_complete();
        let removed = store.retain_paths(paths);
        let has_vectors = !store.is_empty();
        self.state.model = Some(identity.copied());
        self.state.has_store = true;
        self.state.store_queryable = published && (total == 0 || has_vectors);
        self.state.initial_started = true;
        self.state.initial_remaining = copy_paths(paths);
        add_missing_intents(&mut self.state, paths, now);
        update_pending_status(&mut self.state);
        let completed = finalize_reconciliation_if_complete(
            &mut self.state,
            &mut store,
            true,
            total,
        );
        refresh_status(&mut self.state, &store, paths);
        self.store = Some(store);
        self.dirty = removed || completed;
        self.last_persist = now;
        self.persist_retry_at = now;
        self.persist_attempt = 0;
        assert(self@ =~= begun(old(self)@, identity@, opt_store(cached), paths.keys(), now));
        self.go_on(now)
    }

    /// Decides how to go on.
    pub fn go_on(&mut self, now: u64) -> (action: CoordinatorAction)
        ensures
            goes_on(old(self)@, now, final(self)@, action@),
    {
        if !self.live {
            return CoordinatorAction::Stop;
        }
        let due = take_due_batch(&mut self.state, now);
        let ghost batch = work_views(due.batch@);
        assert(self@ =~= with_batch_taken(old(self)@, batch));
        assert(is_due_batch(old(self)@.state.pending, now, batch));
        if due.batch.len() > 0 {
            return CoordinatorAction::Prepare(due.batch);
        }
        let passed: u64 = now.saturating_sub(self.last_persist);
        if self.dirty && now >= self.persist_retry_at && (due.pending_empty || passed
            >= MAX_DIRTY_INTERVAL) {
            return CoordinatorAction::Persist;
        }
        assert(is_next_time(self@.state.pending, due.next_pending));
        if !self.dirty {
            return CoordinatorAction::Wait(due.next_pending);
        }
        let earliest: u64 = self.last_persist.saturating_add(MAX_DIRTY_INTERVAL);
        let persist: u64 = if due.pending_empty || self.persist_retry_at >= earliest {
            self.persist_retry_at
        } else {
            earliest
        };
        let wake: u64 = match due.next_pending {
            Some(next) => if next < persist {
                next
            } else {
                persist
            },
            None => persist,
        };
        CoordinatorAction::Wait(Some(wake))
    }

    fn close_batch(&mut self, paths: &Keyed<()>, now: u64) -> (action: CoordinatorAction)
        ensures
            closes_batch(old(self)@, paths.keys(), now, final(self)@, action@),
    {
        let total: usize = paths.len();
        match self.store.take() {
            None => {},
            Some(mut store) => {
                let completed = finalize_reconciliation_if_complete(
                    &mut self.state,
                    &mut store,
                    self.live,
                    total,
                );
                refresh_status(&mut self.state, &store, paths);
                self.store = Some(store);
                self.dirty = self.dirty || completed;
            },
        }
        assert(self@ =~= batch_closed(old(self)@, paths.keys()));
        let passed: u64 = now.saturating_sub(self.last_persist);
        if self.dirty && now >= self.persist_retry_at && passed >= MAX_DIRTY_INTERVAL {
            return CoordinatorAction::Persist;
        }
        self.go_on(now)
    }

    /// Takes in that a batch could not be prepared.
    pub fn preparation_failed(
        &mut self,
        batch: &Vec<PendingWork>,
        error: &str,
        paths: &Keyed<()>,
        now: u64,
    ) -> (action: CoordinatorAction)
        requires
            now <= LAST_TIME,
        ensures
            closes_batch(
                RuntimeView {
                    state: all_requeued(
                        old(self)@.state,
                        work_views(batch@),
                        "embedding preparation task failed: "@ + error@,
                        0,
                        now,
                    ),
                    ..old(self)@
                },
                paths.keys(),
                now,
                final(self)@,
                action@,
            ),
    {
        requeue_batch(&mut self.state, batch, error, now);
        self.close_batch(paths, now)
    }

    /// Takes in a prepared batch: what has to be embedded is embedded next.
    pub fn batch_prepared(&mut self, items: &Vec<PreparedWork>, paths: &Keyed<()>, now: u64) -> (action:
        CoordinatorAction)
        requires
            now <= LAST_TIME,
        ensures
            match old(self)@.store {
                None => final(self)@ == old(self)@ && action@ == ActionView::Stop,
                Some(store) => {
                    let p = all_progressed(
                        Progress {
                            state: old(self)@.state,
                            store,
                            dirty: false,
                            changed: Seq::empty(),
                        },
                        old(self)@.live,
                        prepared_views(items@),
                        0,
                        now,
                    );
                    let r = RuntimeView {
                        state: p.state,
                        store: Some(p.store),
                        dirty: old(self)@.dirty || p.dirty,
                        ..old(self)@
                    };
                    if p.changed.len() > 0 {
                        final(self)@ == r && action@ == ActionView::Embed(p.changed)
                    } else {
                        closes_batch(r, paths.keys(), now, final(self)@, action@)
                    }
                },
            },
    {
        match self.store.take() {
            None => CoordinatorAction::Stop,
            Some(mut store) => {
                let done = process_prepared(&mut self.state, &mut store, self.live, items, now);
                self.store = Some(store);
                self.dirty = self.dirty || done.dirty;
                assert(changed_views(done.changed@).len() == done.changed@.len());
                if done.changed.len() > 0 {
                    CoordinatorAction::Embed(done.changed)
                } else {
                    self.close_batch(paths, now)
                }
            },
        }
    }

    /// Takes in what came of embedding the changed notes.
    pub fn batch_embedded(
        &mut self,
        changed: &Vec<ChangedWork>,
        outcome: InferenceOutcome,
        paths: &Keyed<()>,
        now: u64,
    ) -> (action: CoordinatorAction)
        requires
            now <= LAST_TIME,
        ensures
            match old(self)@.store {
                None => final(self)@ == old(self)@ && action@ == ActionView::Stop,
                Some(store) => {
                    let c = embedded(
                        old(self)@.state,
                        store,
                        old(self)@.live,
                        changed_views(changed@),
                        outcome,
                        model_dimension(old(self)@.state),
                        now,
                    );
                    closes_batch(
                        RuntimeView {
                            state: c.state,
                            store: Some(c.store),
                            dirty: old(self)@.dirty || c.dirty,
                            ..old(self)@
                        },
                        paths.keys(),
                        now,
                        final(self)@,
                        action@,
                    )
                },
            },
    {
        let dim: usize = match &self.state.model {
            Some(identity) => identity.dimension,
            None => 0,
        };
        match self.store.take() {
            None => CoordinatorAction::Stop,
            Some(mut store) => {
                let stored = process_embedded(
                    &mut self.state,
                    &mut store,
                    self.live,
                    changed,
                    outcome,
                    dim,
                    now,
                );
                self.store = Some(store);
                self.dirty = self.dirty || stored;
                self.close_batch(paths, now)
            },
        }
    }

    /// Takes in what came of writing the cache.
    pub fn persisted(&mut self, outcome: PersistOutcome, paths: &Keyed<()>, now: u64) -> (action:
        CoordinatorAction)
        requires
            now <= LAST_TIME,
        ensures
            match (old(self)@.store, outcome) {
                (Some(store), PersistOutcome::Written) => goes_on(
                    persist_settled(old(self)@, store, None, paths.keys(), now),
                    now,
                    final(self)@,
                    action@,
                ),
                (Some(store), PersistOutcome::Failed(error)) => goes_on(
                    persist_settled(old(self)@, store, Some(error@), paths.keys(), now),
                    now,
                    final(self)@,
                    action@,
                ),
                _ => final(self)@ == old(self)@ && action@ == ActionView::Stop,
            },
    {
        let total: usize = paths.len();
        match self.store.take() {
            None => CoordinatorAction::Stop,
            Some(store) => {
                match outcome {
                    PersistOutcome::Abandoned => {
                        self.store = Some(store);
                        return CoordinatorAction::Stop;
                    },
                    PersistOutcome::Written => {
                        self.dirty = false;
                        self.persist_attempt = 0;
                        self.persist_retry_at = now;
                        self.last_persist = now;
                        self.state.persistence_error = None;
                    },
                    PersistOutcome::Failed(error) => {
                        let attempt: u8 = if self.persist_attempt == u8::MAX {
                            u8::MAX
                        } else {
                            self.persist_attempt + 1
                        };
                        self.persist_attempt = attempt;
                        self.persist_retry_at = now + retry_delay(attempt);
                        self.state.persistence_error = Some(error);
                    },
                }
                refresh_status(&mut self.state, &store, paths);
                self.store = Some(store);
                self.go_on(now)
            },
        }
    }
}

fn copy_paths(paths: &Keyed<()>) -> (copy: Keyed<()>)
    ensures
        copy@.dom() == paths@.dom(),
{
    let total: usize = paths.len();
    let ghost keys = paths.keys();
    let mut copy: Keyed<()> = Keyed::new();
    let mut i: usize = 0;
    while i < total
        invariant
            i <= total == keys.len(),
            keys == paths.keys(),
            forall|p: Seq<char>| #[trigger]
                copy@.contains_key(p) <==> keys.take(i as int).contains(p),
        decreases total - i,
    {
        let ghost before_copy = copy@;
        copy.insert(paths.key_at(i).clone(), ());
        proof {
            let grown = keys.take(i as int).push(keys[i as int]);
            assert(keys.take(i + 1) =~= grown);
            assert forall|p: Seq<char>| #[trigger] copy@.contains_key(p) <==> grown.contains(p) by {
                assert(before_copy.contains_key(p) <==> keys.take(i as int).contains(p));
                if keys.take(i as int).contains(p) {
                    let j = keys.take(i as int).index_of(p);
                    assert(grown[j] == p);
                }
                assert(grown[i as int] == keys[i as int]);
                if grown.contains(p) {
                    let j = grown.index_of(p);
                    if j < i {
                        assert(keys.take(i as int)[j] == p);
                    }
                }
            }
        }
        i += 1;
    }
    proof {
        assert(keys.take(i as int) =~= keys);
        assert forall|p: Seq<char>| copy@.dom().contains(p) <==> paths@.dom().contains(p) by {
            assert(copy@.contains_key(p) <==> keys.contains(p));
            assert(keys.to_set().contains(p) <==> keys.contains(p));
        }
        assert(copy@.dom() =~= paths@.dom());
    }
    copy
}

proof fn lemma_missing_intents(s: StateView, paths: Seq<Seq<char>>, i: int, now: u64, path: Seq<char>)
    requires
        0 <= i <= paths.len(),
    ensures
        ({
            let after = with_missing_intents(s, paths, i, now);
            &&& after.pending.contains_key(path) <==> s.pending.contains_key(path) || exists|k: int|
                i <= k < paths.len() && #[trigger] paths[k] == path
            &&& s.pending.contains_key(path) ==> after.pending[path] == s.pending[path]
            &&& after.pending.contains_key(path) && !s.pending.contains_key(path)
                ==> after.pending[path].kind == PendingKind::Upsert && after.pending[path].attempt == 0
                && after.pending[path].not_before == now
            &&& after.inflight == s.inflight
            &&& after.failures == s.failures
            &&& after.model == s.model
            &&& after.has_store == s.has_store
            &&& after.store_queryable == s.store_queryable
            &&& after.reconciliation_complete == s.reconciliation_complete
            &&& after.persistence_error == s.persistence_error
        }),
    decreases paths.len() - i,
{
    if i < paths.len() {
        if s.pending.contains_key(paths[i]) {
            lemma_missing_intents(s, paths, i + 1, now, path);
        } else {
            lemma_missing_intents(
                with_intent(s, paths[i], PendingKind::Upsert, now),
                paths,
                i + 1,
                now,
                path,
            );
        }
    }
}

/// A new runtime is to embed every note at once, has failed at nothing and cannot be
/// queried.
pub proof fn new_runtimes_embed_every_note(
    paths: Seq<Seq<char>>,
    cache_sources: Seq<Seq<char>>,
    now: u64,
    path: Seq<char>,
)
    ensures
        ({
            let r = created(paths, cache_sources, now);
            &&& r.live
            &&& !is_queryable(r)
            &&& !r.dirty
            &&& r.first_load_error is None
            &&& r.state.model is None
            &&& !r.state.has_store
            &&& r.state.persistence_error is None
            &&& !r.state.reconciliation_complete
            &&& !r.state.store_queryable
            &&& r.state.failures == Map::<Seq<char>, Seq<char>>::empty()
            &&& r.state.pending.contains_key(path) <==> paths.contains(path)
            &&& paths.contains(path) ==> r.state.pending[path].kind == PendingKind::Upsert
                && r.state.pending[path].not_before == now
            &&& after_model(r) == if cache_sources.len() > 0 {
                ActionView::RelocateCache(cache_sources)
            } else {
                ActionView::LoadCache
            }
        }),
{
    lemma_missing_intents(idle_state(as_count(paths.len())), paths, 0, now, path);
}

/// A loaded runtime looks at every note once: each is pending, as it was or as one to
/// embed. It starts from the cached notes that are still there, or from nothing.
pub proof fn loaded_runtimes_look_at_every_note(
    r: RuntimeView,
    identity: IdentityView,
    cached: Option<StoreView>,
    paths: Seq<Seq<char>>,
    now: u64,
    path: Seq<char>,
)
    ensures
        ({
            let after = begun(r, identity, cached, paths, now);
            &&& after.state.model == Some(identity)
            &&& after.state.pending.contains_key(path) <==> r.state.pending.contains_key(path)
                || paths.contains(path)
            &&& r.state.pending.contains_key(path) ==> after.state.pending[path]
                == r.state.pending[path]
            &&& !r.state.pending.contains_key(path) && paths.contains(path)
                ==> after.state.pending[path].kind == PendingKind::Upsert
            &&& after.store matches Some(store)
            &&& cached is None ==> store.entries == Map::<Seq<char>, EntryView>::empty() && store.dim
                == identity.dimension && store.identity == Some(identity)
            &&& cached matches Some(given) ==> {
                &&& store.entries.contains_key(path) <==> given.entries.contains_key(path)
                    && paths.contains(path)
                &&& store.entries.contains_key(path) ==> store.entries[path] == given.entries[path]
            }
            &&& after.live == r.live
            &&& after.last_persist == now
        }),
{
    let s = StateView {
        model: Some(identity),
        has_store: true,
        store_queryable: given_store(identity, cached).first_pass_complete && (paths.len() == 0
            || starting_store(identity, cached, paths.to_set()).entries.dom() != Set::<
            Seq<char>,
        >::empty()),
        initial_started: true,
        initial_remaining: paths.to_set(),
        ..r.state
    };
    lemma_missing_intents(s, paths, 0, now, path);
    let store = begun(r, identity, cached, paths, now).store->0;
    if cached is None {
        assert(store.entries =~= Map::empty());
    }
}

/// A runtime that is not live stops and changes nothing. A live one prepares due work
/// wherever there is any, writes its store only where there is none and the store has
/// changed, and otherwise waits.
pub proof fn due_work_comes_before_writing_and_waiting(
    r: RuntimeView,
    now: u64,
    after: RuntimeView,
    action: ActionView,
    path: Seq<char>,
)
    requires
        goes_on(r, now, after, action),
    ensures
        !r.live ==> action == ActionView::Stop && after == r,
        r.live && r.state.pending.contains_key(path) && r.state.pending[path].not_before <= now
            ==> (action matches ActionView::Prepare(batch) && batch.len() > 0),
        action is Persist ==> r.dirty && r.persist_retry_at <= now,
        r.live ==> action is Prepare || action is Persist || action is Wait,
        after.dirty == r.dirty,
        after.store == r.store,
{
    if r.live {
        let batch = choose|batch: Seq<WorkView>|
            #![trigger is_due_batch(r.state.pending, now, batch)]
            {
                &&& is_due_batch(r.state.pending, now, batch)
                &&& after == with_batch_taken(r, batch)
                &&& if batch.len() > 0 {
                    action == ActionView::Prepare(batch)
                } else if persist_due(r, is_idle(after.state), now) {
                    action == ActionView::Persist
                } else {
                    exists|next: Option<u64>|
                        #![trigger is_next_time(after.state.pending, next)]
                        is_next_time(after.state.pending, next) && action == ActionView::Wait(
                            wake_time(r, next, is_idle(after.state)),
                        )
                }
            };
        if r.state.pending.contains_key(path) && r.state.pending[path].not_before <= now
            && batch.len() == 0 {
            assert(is_due(r.state.pending, path, now));
            assert(batch_paths(batch).contains(path));
        }
    }
}

/// A changed store is written once nothing is left to do, or two seconds after it was
/// last written, but not before a retry is allowed; an unchanged one never is.
pub proof fn changed_stores_are_written_in_time(r: RuntimeView, pending_empty: bool, now: u64)
    requires
        r.last_persist <= now,
    ensures
        persist_due(r, pending_empty, now) <==> r.dirty && r.persist_retry_at <= now && (pending_empty
            || r.last_persist + 2000 <= now),
        persist_overdue(r, now) <==> r.dirty && r.persist_retry_at <= now && r.last_persist + 2000
            <= now,
{
}

/// A wait ends no later than the next pending work is due and, where the store has
/// changed, no later than it can be written; it ends at one of the two.
pub proof fn waits_end_in_time(r: RuntimeView, next_pending: Option<u64>, pending_empty: bool)
    requires
        r.last_persist + 2000 <= u64::MAX,
    ensures
        ({
            let wake = wake_time(r, next_pending, pending_empty);
            let write = if pending_empty || r.persist_retry_at >= r.last_persist + 2000 {
                r.persist_retry_at as int
            } else {
                r.last_persist + 2000
            };
            &&& wake is None <==> next_pending is None && !r.dirty
            &&& next_pending is Some ==> wake->0 <= next_pending->0
            &&& r.dirty ==> wake->0 <= write
            &&& wake is Some ==> wake == next_pending || (r.dirty && wake->0 == write)
        }),
{
}

/// A written store is clean and its last failure forgotten; one that could not be
/// written stays changed and is tried again after a wait that grows with each attempt.
pub proof fn failed_writes_are_tried_again(
    r: RuntimeView,
    store: StoreView,
    error: Seq<char>,
    paths: Seq<Seq<char>>,
    now: u64,
)
    requires
        now <= LAST_TIME,
    ensures
        ({
            let written = persist_settled(r, store, None, paths, now);
            &&& !written.dirty
            &&& written.persist_attempt == 0
            &&& written.persist_retry_at == now
            &&& written.last_persist == now
            &&& written.state.persistence_error is None
            &&& written.state.pending == r.state.pending
            &&& written.state.failures == r.state.failures
        }),
        ({
            let failed = persist_settled(r, store, Some(error), paths, now);
            &&& failed.dirty == r.dirty
            &&& failed.last_persist == r.last_persist
            &&& failed.persist_attempt == if r.persist_attempt < 255 {
                r.persist_attempt + 1
            } else {
                255
            }
            &&& failed.persist_retry_at == now + retry_wait(failed.persist_attempt)
            &&& failed.state.persistence_error == Some(error)
            &&& failed.state.status.last_error == Some(error)
            &&& failed.state.status.phase == EmbeddingPhase::Degraded
            &&& failed.state.pending == r.state.pending
        }),
{
}

/// A model that cannot be loaded degrades the runtime; the first such error is kept and
/// the latest is reported, and what is pending stays.
pub proof fn load_failures_are_reported(r: RuntimeView, message: Seq<char>, total_notes: usize)
    ensures
        ({
            let after = load_failed(r, message, total_notes);
            &&& after.first_load_error == if r.first_load_error is Some {
                r.first_load_error
            } else {
                Some(message)
            }
            &&& after.state.status.last_error == Some(message)
            &&& after.state.status.phase == EmbeddingPhase::Degraded
            &&& !after.state.status.queryable
            &&& after.state.status.total_notes == total_notes
            &&& after.state.pending == r.state.pending
            &&& after.store == r.store
            &&& after.live == r.live
        }),
        !r.live ==> after_model(r) == ActionView::Stop && after_relocation(r) == ActionView::Stop,
        r.live ==> after_relocation(r) == ActionView::LoadCache,
{
}

/// Closing a batch ends the first pass where it can be ended and leaves all work as it
/// is.
pub proof fn closing_a_batch_keeps_all_work(r: RuntimeView, paths: Seq<Seq<char>>)
    ensures
        ({
            let after = batch_closed(r, paths);
            &&& after.state.pending == r.state.pending
            &&& after.state.inflight == r.state.inflight
            &&& after.state.failures == r.state.failures
            &&& r.dirty ==> after.dirty
            &&& r.store is Some ==> after.store is Some && after.store->0.entries
                == r.store->0.entries
            &&& r.store is Some && r.live && r.state.initial_started && r.state.initial_remaining
                == Set::<Seq<char>>::empty() ==> after.state.reconciliation_complete
            &&& r.state.initial_remaining != Set::<Seq<char>>::empty()
                ==> after.state.reconciliation_complete == r.state.reconciliation_complete
        }),
{
}

/// A runtime can be queried exactly where it has a model and a store, and the store is
/// released.
pub proof fn queries_need_a_model_and_a_released_store(r: RuntimeView, total_notes: usize)
    ensures
        is_queryable(r) <==> r.state.model is Some && r.store is Some && r.state.store_queryable,
        ({
            let s = idle_state(total_notes);
            &&& !s.initial_started
            &&& !s.reconciliation_complete
            &&& !s.store_queryable
            &&& !s.status.queryable
            &&& s.status.phase == EmbeddingPhase::Warming
            &&& s.status.total_notes == total_notes
            &&& s.status.indexed_notes == 0 && s.status.pending_notes == 0
            &&& s.status.last_error is None
        }),
{
}

} // verus!
