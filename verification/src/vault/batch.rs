//! Batches of the embedding runtime: which work is due, how it is prepared, and
//! what its results change.

use crate::error::{vault_error_text, VaultError};
use crate::keyed::Keyed;
use crate::path::{
    is_path_before, path_before, path_order_is_strict_and_total, path_order_is_transitive,
};
use crate::text::{cat2, texts};
use crate::vault::backend::{copy_vector, vector_views};
use crate::vault::digest::{same_digest, sha256};
use crate::vault::embeddings::{
    batch_fault, consistent, embed_text, prepare_embed_text, prepared_text_hash,
    validate_embedding_batch, EmbeddingStore, StoreView,
};
use crate::vault::runtime_state::{
    commit_remove, commit_upsert, insertion, mark_success, marked, recounted, removal,
    requeue_failure, requeued, update_pending_status, work_views, Commit, Intent, PendingKind,
    PendingWork, RuntimeState, StateView, WorkView, LAST_TIME, RECONCILE_BATCH_SIZE,
};
use vstd::prelude::*;
use vstd::utf8::encode_utf8;

verus! {

/// Whether pending work on `path` may be done at time `now`.
pub open spec fn is_due(pending: Map<Seq<char>, Intent>, path: Seq<char>, now: u64) -> bool {
    pending.contains_key(path) && pending[path].not_before <= now
}

/// The order in which due work is done: removals first, then in path order.
pub open spec fn due_before(
    left_kind: PendingKind,
    left: Seq<char>,
    right_kind: PendingKind,
    right: Seq<char>,
) -> bool {
    if left_kind == right_kind {
        path_before(left, right, false)
    } else {
        left_kind == PendingKind::Remove
    }
}

/// The paths of a batch.
pub open spec fn batch_paths(batch: Seq<WorkView>) -> Set<Seq<char>> {
    Set::new(|path: Seq<char>| exists|i: int| 0 <= i < batch.len() && (#[trigger] batch[i]).path == path)
}

/// Whether `batch` is what is taken from `pending` at time `now`: work that is
/// due, each path once, with no due work left behind that comes before, and as
/// much as there is up to the size of a batch.
pub open spec fn is_due_batch(
    pending: Map<Seq<char>, Intent>,
    now: u64,
    batch: Seq<WorkView>,
) -> bool {
    &&& batch.len() <= RECONCILE_BATCH_SIZE
    &&& forall|i: int|
        0 <= i < batch.len() ==> is_due(pending, (#[trigger] batch[i]).path, now) && batch[i].intent
            == pending[batch[i].path]
    &&& forall|i: int, j: int|
        0 <= i < j < batch.len() ==> (#[trigger] batch[i]).path != (#[trigger] batch[j]).path
            && !due_before(batch[j].intent.kind, batch[j].path, batch[i].intent.kind, batch[i].path)
    &&& forall|path: Seq<char>, i: int|
        #![trigger is_due(pending, path, now), batch[i]]
        0 <= i < batch.len() && is_due(pending, path, now) && !batch_paths(batch).contains(path)
            ==> !due_before(pending[path].kind, path, batch[i].intent.kind, batch[i].path)
    &&& batch.len() < RECONCILE_BATCH_SIZE ==> forall|path: Seq<char>| #[trigger]
        is_due(pending, path, now) ==> batch_paths(batch).contains(path)
}

/// The state after a batch was taken: its work is in flight.
pub open spec fn batch_taken(s: StateView, batch: Seq<WorkView>) -> StateView {
    recounted(
        StateView {
            pending: s.pending.remove_keys(batch_paths(batch)),
            inflight: s.inflight.union_prefer_right(
                Map::new(
                    |path: Seq<char>| batch_paths(batch).contains(path),
                    |path: Seq<char>| s.pending[path].generation,
                ),
            ),
            ..s
        },
    )
}

/// Whether `at` is the earliest time at which pending work may be done.
pub open spec fn is_next_time(pending: Map<Seq<char>, Intent>, at: Option<u64>) -> bool {
    match at {
        None => pending.dom() == Set::<Seq<char>>::empty(),
        Some(time) => {
            &&& exists|path: Seq<char>| #[trigger]
                pending.contains_key(path) && pending[path].not_before == time
            &&& forall|path: Seq<char>| #[trigger]
                pending.contains_key(path) ==> time <= pending[path].not_before
        },
    }
}

/// A batch, when the next work becomes due, and whether nothing is left to do.
pub struct DueBatch {
    pub batch: Vec<PendingWork>,
    pub next_pending: Option<u64>,
    pub pending_empty: bool,
}

fn comes_before(left: &Intent, left_path: &str, right: &Intent, right_path: &str) -> (less: bool)
    ensures
        less == due_before(left.kind, left_path@, right.kind, right_path@),
{
    if left.kind == right.kind {
        is_path_before(left_path, right_path, false)
    } else {
        left.kind == PendingKind::Remove
    }
}

proof fn lemma_due_transitive(
    ak: PendingKind,
    a: Seq<char>,
    bk: PendingKind,
    b: Seq<char>,
    ck: PendingKind,
    c: Seq<char>,
)
    requires
        due_before(ak, a, bk, b),
        !due_before(ck, c, bk, b),
    ensures
        !due_before(ck, c, ak, a),
{
    if due_before(ck, c, ak, a) {
        if ck == ak && ak == bk {
            path_order_is_transitive(c, a, b, false);
        }
    }
}

/// The position of the first due work in the pending map, if any is due.
fn first_due(pending: &Keyed<Intent>, now: u64) -> (at: Option<usize>)
    ensures
        match at {
            None => forall|path: Seq<char>| !is_due(pending@, path, now),
            Some(i) => i < pending.keys().len() && is_due(pending@, pending.keys()[i as int], now)
                && forall|path: Seq<char>| #[trigger]
                is_due(pending@, path, now) ==> !due_before(
                    pending@[path].kind,
                    path,
                    pending@[pending.keys()[i as int]].kind,
                    pending.keys()[i as int],
                ),
        },
{
    let total: usize = pending.len();
    let ghost keys = pending.keys();
    let mut best: Option<usize> = None;
    let mut i: usize = 0;
    while i < total
        invariant
            i <= total == keys.len(),
            keys == pending.keys(),
            match best {
                None => forall|k: int| 0 <= k < i ==> !is_due(pending@, #[trigger] keys[k], now),
                Some(b) => b < i && is_due(pending@, keys[b as int], now) && forall|k: int|
                    0 <= k < i && is_due(pending@, #[trigger] keys[k], now) ==> !due_before(
                        pending@[keys[k]].kind,
                        keys[k],
                        pending@[keys[b as int]].kind,
                        keys[b as int],
                    ),
            },
        decreases total - i,
    {
        let intent = *pending.value_at(i);
        if intent.not_before <= now {
            match best {
                None => {
                    proof {
                        path_order_is_strict_and_total(keys[i as int], keys[i as int], false);
                    }
                    best = Some(i);
                },
                Some(b) => {
                    let held = *pending.value_at(b);
                    if comes_before(
                        &intent,
                        pending.key_at(i).as_str(),
                        &held,
                        pending.key_at(b).as_str(),
                    ) {
                        proof {
                            path_order_is_strict_and_total(keys[i as int], keys[i as int], false);
                            assert forall|k: int| 0 <= k < i + 1 && is_due(
                                pending@,
                                #[trigger] keys[k],
                                now,
                            ) implies !due_before(
                                pending@[keys[k]].kind,
                                keys[k],
                                intent.kind,
                                keys[i as int],
                            ) by {
                                if k < i {
                                    lemma_due_transitive(
                                        intent.kind,
                                        keys[i as int],
                                        held.kind,
                                        keys[b as int],
                                        pending@[keys[k]].kind,
                                        keys[k],
                                    );
                                }
                            }
                        }
                        best = Some(i);
                    }
                },
            }
        }
        i += 1;
    }
    proof {
        assert(keys.to_set() == pending@.dom());
        assert forall|path: Seq<char>| is_due(pending@, path, now) implies exists|k: int|
            0 <= k < total && keys[k] == path by {
            assert(keys.to_set().contains(path));
            let k = keys.index_of(path);
            assert(keys[k] == path);
        }
    }
    best
}

fn next_time(pending: &Keyed<Intent>) -> (at: Option<u64>)
    ensures
        is_next_time(pending@, at),
{
    let total: usize = pending.len();
    let ghost keys = pending.keys();
    if total == 0 {
        proof {
            pending@.dom().lemma_len0_is_empty();
        }
        return None;
    }
    let mut best: u64 = pending.value_at(0).not_before;
    let mut i: usize = 1;
    assert(pending@.contains_key(keys[0]));
    while i < total
        invariant
            1 <= i <= total == keys.len(),
            keys == pending.keys(),
            exists|path: Seq<char>| #[trigger]
                pending@.contains_key(path) && pending@[path].not_before == best,
            forall|k: int| 0 <= k < i ==> best <= pending@[#[trigger] keys[k]].not_before,
        decreases total - i,
    {
        let time: u64 = pending.value_at(i).not_before;
        if time < best {
            assert(pending@.contains_key(keys[i as int]));
            best = time;
        }
        i += 1;
    }
    proof {
        assert forall|path: Seq<char>| #[trigger] pending@.contains_key(path) implies best
            <= pending@[path].not_before by {
            assert(keys.to_set().contains(path));
            let k = keys.index_of(path);
            assert(keys[k] == path);
        }
    }
    Some(best)
}

/// Takes the work that is due, up to the size of a batch.
pub fn take_due_batch(state: &mut RuntimeState, now: u64) -> (due: DueBatch)
    ensures
        is_due_batch(old(state)@.pending, now, work_views(due.batch@)),
        final(state)@ == batch_taken(old(state)@, work_views(due.batch@)),
        is_next_time(final(state)@.pending, due.next_pending),
        due.pending_empty == (final(state)@.pending.dom() == Set::<Seq<char>>::empty()
            && final(state)@.inflight.dom() == Set::<Seq<char>>::empty()),
{
    let ghost s = state@;
    let ghost pending = s.pending;
    let mut batch: Vec<PendingWork> = Vec::new();
    let ghost mut taken: Seq<WorkView> = Seq::empty();
    let mut exhausted = false;
    proof {
        assert(batch_paths(taken) =~= Set::empty());
        assert(pending.remove_keys(batch_paths(taken)) =~= pending);
        assert(s.inflight.union_prefer_right(
            Map::new(
                |path: Seq<char>| batch_paths(taken).contains(path),
                |path: Seq<char>| s.pending[path].generation,
            ),
        ) =~= s.inflight);
        assert(work_views(batch@) =~= taken);
    }
    while batch.len() < RECONCILE_BATCH_SIZE && !exhausted
        invariant
            s == old(state)@,
            pending == s.pending,
            taken == work_views(batch@),
            batch@.len() <= RECONCILE_BATCH_SIZE,
            state@ == (StateView {
                pending: pending.remove_keys(batch_paths(taken)),
                inflight: s.inflight.union_prefer_right(
                    Map::new(
                        |path: Seq<char>| batch_paths(taken).contains(path),
                        |path: Seq<char>| s.pending[path].generation,
                    ),
                ),
                ..s
            }),
            forall|i: int|
                0 <= i < taken.len() ==> is_due(pending, (#[trigger] taken[i]).path, now)
                    && taken[i].intent == pending[taken[i].path],
            forall|i: int, j: int|
                0 <= i < j < taken.len() ==> (#[trigger] taken[i]).path != (
                #[trigger] taken[j]).path && !due_before(
                    taken[j].intent.kind,
                    taken[j].path,
                    taken[i].intent.kind,
                    taken[i].path,
                ),
            forall|path: Seq<char>, i: int|
                #![trigger is_due(pending, path, now), taken[i]]
                0 <= i < taken.len() && is_due(pending, path, now) && !batch_paths(
                    taken,
                ).contains(path) ==> !due_before(
                    pending[path].kind,
                    path,
                    taken[i].intent.kind,
                    taken[i].path,
                ),
            exhausted ==> forall|path: Seq<char>| #[trigger]
                is_due(pending, path, now) ==> batch_paths(taken).contains(path),
        decreases
            RECONCILE_BATCH_SIZE - batch@.len(),
            if exhausted {
                0int
            } else {
                1int
            },
    {
        let ghost left = state@.pending;
        match first_due(&state.pending, now) {
            None => {
                proof {
                    assert forall|path: Seq<char>| #[trigger]
                        is_due(pending, path, now) implies batch_paths(taken).contains(path) by {
                        if !batch_paths(taken).contains(path) {
                            assert(is_due(left, path, now));
                        }
                    }
                }
                exhausted = true;
            },
            Some(at) => {
                let path = state.pending.key_at(at).clone();
                let intent = *state.pending.value_at(at);
                let ghost key = path@;
                let ghost before_taken = taken;
                let ghost item = WorkView { path: key, intent };
                proof {
                    assert(is_due(left, key, now));
                    assert(left.contains_key(key) && !batch_paths(before_taken).contains(key));
                    assert(is_due(pending, key, now));
                }
                let _ = state.pending.remove(path.as_str());
                state.inflight.insert(path.clone(), intent.generation);
                batch.push(PendingWork { path, intent });
                proof {
                    taken = before_taken.push(item);
                    assert(work_views(batch@) =~= taken);
                    assert(batch_paths(taken) =~= batch_paths(before_taken).insert(key)) by {
                        assert forall|p: Seq<char>| batch_paths(taken).contains(p)
                            <==> batch_paths(before_taken).insert(key).contains(p) by {
                            if batch_paths(before_taken).contains(p) {
                                let i = choose|i: int|
                                    0 <= i < before_taken.len() && (
                                    #[trigger] before_taken[i]).path == p;
                                assert(taken[i].path == p);
                            }
                            assert(taken[before_taken.len() as int].path == key);
                            if batch_paths(taken).contains(p) {
                                let i = choose|i: int|
                                    0 <= i < taken.len() && (#[trigger] taken[i]).path == p;
                                if i < before_taken.len() {
                                    assert(before_taken[i].path == p);
                                }
                            }
                        }
                    }
                    assert(state@.pending =~= pending.remove_keys(batch_paths(taken)));
                    assert(state@.inflight =~= s.inflight.union_prefer_right(
                        Map::new(
                            |p: Seq<char>| batch_paths(taken).contains(p),
                            |p: Seq<char>| s.pending[p].generation,
                        ),
                    ));
                    assert forall|i: int, j: int| 0 <= i < j < taken.len() implies (
                    #[trigger] taken[i]).path != (#[trigger] taken[j]).path && !due_before(
                        taken[j].intent.kind,
                        taken[j].path,
                        taken[i].intent.kind,
                        taken[i].path,
                    ) by {
                        assert(taken[i] == before_taken[i]);
                        if j < before_taken.len() {
                            assert(taken[j] == before_taken[j]);
                        } else {
                            assert(is_due(pending, key, now));
                            assert(batch_paths(before_taken).contains(before_taken[i].path));
                        }
                    }
                    assert forall|p: Seq<char>, i: int|
                        #![trigger is_due(pending, p, now), taken[i]]
                        0 <= i < taken.len() && is_due(pending, p, now) && !batch_paths(
                            taken,
                        ).contains(p) implies !due_before(
                        pending[p].kind,
                        p,
                        taken[i].intent.kind,
                        taken[i].path,
                    ) by {
                        assert(!batch_paths(before_taken).contains(p));
                        if i < before_taken.len() {
                            assert(taken[i] == before_taken[i]);
                        } else {
                            assert(is_due(left, p, now));
                        }
                    }
                }
            },
        }
    }
    let next_pending = next_time(&state.pending);
    let pending_left: usize = state.pending.len();
    let inflight_left: usize = state.inflight.len();
    proof {
        if pending_left == 0 {
            state@.pending.dom().lemma_len0_is_empty();
        }
        if inflight_left == 0 {
            state@.inflight.dom().lemma_len0_is_empty();
        }
    }
    update_pending_status(state);
    DueBatch { batch, next_pending, pending_empty: pending_left == 0 && inflight_left == 0 }
}

/// What is known of a note when its work is prepared.
pub enum NoteSource {
    /// The index does not hold the note.
    Missing,
    /// The file could not be read.
    Unreadable(String),
    /// The note's title, headings and body without frontmatter.
    Note { title: String, headings: Vec<String>, body: String },
}

/// What is known of a note, as mathematical values.
pub enum SourceView {
    Missing,
    Unreadable(Seq<char>),
    Note { title: Seq<char>, headings: Seq<Seq<char>>, body: Seq<char> },
}

impl View for NoteSource {
    type V = SourceView;

    open spec fn view(&self) -> SourceView {
        match self {
            NoteSource::Missing => SourceView::Missing,
            NoteSource::Unreadable(error) => SourceView::Unreadable(error@),
            NoteSource::Note { title, headings, body } => SourceView::Note {
                title: title@,
                headings: texts(headings@),
                body: body@,
            },
        }
    }
}

/// Work with what it needs.
pub enum PreparedWork {
    Remove(PendingWork),
    Failed(PendingWork, String),
    Upsert { work: PendingWork, text: String, content_hash: [u8; 32] },
}

/// Work with what it needs, as mathematical values.
pub enum PreparedView {
    Remove(WorkView),
    Failed(WorkView, Seq<char>),
    Upsert { work: WorkView, text: Seq<char>, content_hash: Seq<u8> },
}

impl View for PreparedWork {
    type V = PreparedView;

    open spec fn view(&self) -> PreparedView {
        match self {
            PreparedWork::Remove(work) => PreparedView::Remove(work@),
            PreparedWork::Failed(work, error) => PreparedView::Failed(work@, error@),
            PreparedWork::Upsert { work, text, content_hash } => PreparedView::Upsert {
                work: work@,
                text: text@,
                content_hash: content_hash@,
            },
        }
    }
}

/// The prepared items of a list.
pub open spec fn prepared_views(list: Seq<PreparedWork>) -> Seq<PreparedView> {
    list.map_values(|p: PreparedWork| p@)
}

/// How one work item is prepared: a note that is gone is removed, one that
/// cannot be read has failed, any other is embedded anew.
pub open spec fn prepared(work: WorkView, source: SourceView) -> PreparedView {
    if work.intent.kind == PendingKind::Remove {
        PreparedView::Remove(work)
    } else {
        match source {
            SourceView::Missing => PreparedView::Remove(work),
            SourceView::Unreadable(error) => PreparedView::Failed(work, error),
            SourceView::Note { title, headings, body } => {
                let text = embed_text(title, headings, body);
                PreparedView::Upsert { work, text, content_hash: sha256(encode_utf8(text)) }
            },
        }
    }
}

/// Prepares a batch. `sources` holds what is known of each item's note.
pub fn prepare_batch(batch: &Vec<PendingWork>, sources: &Vec<NoteSource>) -> (list: Vec<
    PreparedWork,
>)
    requires
        sources@.len() == batch@.len(),
    ensures
        list@.len() == batch@.len(),
        forall|i: int|
            0 <= i < list@.len() ==> (#[trigger] list@[i])@ == prepared(batch@[i]@, sources@[i]@),
{
    let mut list: Vec<PreparedWork> = Vec::new();
    let mut i: usize = 0;
    while i < batch.len()
        invariant
            i <= batch@.len() == sources@.len(),
            list@.len() == i,
            forall|k: int|
                0 <= k < i ==> (#[trigger] list@[k])@ == prepared(batch@[k]@, sources@[k]@),
        decreases batch@.len() - i,
    {
        let work = batch[i].copied();
        let item = if work.intent.kind == PendingKind::Remove {
            PreparedWork::Remove(work)
        } else {
            match &sources[i] {
                NoteSource::Missing => PreparedWork::Remove(work),
                NoteSource::Unreadable(error) => PreparedWork::Failed(work, error.clone()),
                NoteSource::Note { title, headings, body } => {
                    let text = prepare_embed_text(
                        title.as_str(),
                        headings.as_slice(),
                        body.as_str(),
                    );
                    let content_hash = prepared_text_hash(text.as_str());
                    PreparedWork::Upsert { work, text, content_hash }
                },
            }
        };
        list.push(item);
        i += 1;
    }
    list
}

/// A note whose text has changed and is to be embedded.
pub struct ChangedWork {
    pub work: PendingWork,
    pub text: String,
    pub content_hash: [u8; 32],
}

/// A note whose text has changed, as mathematical values.
pub struct ChangedView {
    pub work: WorkView,
    pub text: Seq<char>,
    pub content_hash: Seq<u8>,
}

impl View for ChangedWork {
    type V = ChangedView;

    open spec fn view(&self) -> ChangedView {
        ChangedView { work: self.work@, text: self.text@, content_hash: self.content_hash@ }
    }
}

/// The changed notes of a list.
pub open spec fn changed_views(list: Seq<ChangedWork>) -> Seq<ChangedView> {
    list.map_values(|c: ChangedWork| c@)
}

/// State and store while prepared work is gone through, whether the store
/// changed, and the notes that are to be embedded.
pub struct Progress {
    pub state: StateView,
    pub store: StoreView,
    pub dirty: bool,
    pub changed: Seq<ChangedView>,
}

/// Whether a note's vector was made from a text with this digest.
pub open spec fn is_unchanged(store: StoreView, path: Seq<char>, content_hash: Seq<u8>) -> bool {
    store.entries.contains_key(path) && store.entries[path].content_hash == Some(content_hash)
}

/// One prepared item gone through: removals are committed, failures put off, and
/// notes whose text has not changed are done without being embedded.
pub open spec fn progressed(p: Progress, live: bool, item: PreparedView, now: u64) -> Progress {
    match item {
        PreparedView::Remove(work) => {
            let c = removal(p.state, p.store, live, work);
            Progress { state: c.state, store: c.store, dirty: p.dirty || c.dirty, ..p }
        },
        PreparedView::Failed(work, error) => Progress {
            state: requeued(p.state, work, error, now),
            ..p
        },
        PreparedView::Upsert { work, text, content_hash } => if is_unchanged(
            p.store,
            work.path,
            content_hash,
        ) {
            Progress { state: marked(p.state, work), ..p }
        } else {
            Progress { changed: p.changed.push(ChangedView { work, text, content_hash }), ..p }
        },
    }
}

/// The prepared items from position `i` on gone through.
pub open spec fn all_progressed(
    p: Progress,
    live: bool,
    items: Seq<PreparedView>,
    i: int,
    now: u64,
) -> Progress
    decreases items.len() - i,
{
    if i < 0 || i >= items.len() {
        p
    } else {
        all_progressed(progressed(p, live, items[i], now), live, items, i + 1, now)
    }
}

/// The work items from position `i` on put off with one error.
pub open spec fn all_requeued(
    s: StateView,
    works: Seq<WorkView>,
    error: Seq<char>,
    i: int,
    now: u64,
) -> StateView
    decreases works.len() - i,
{
    if i < 0 || i >= works.len() {
        s
    } else {
        all_requeued(requeued(s, works[i], error, now), works, error, i + 1, now)
    }
}

/// The works of changed notes.
pub open spec fn changed_works(changed: Seq<ChangedView>) -> Seq<WorkView> {
    changed.map_values(|c: ChangedView| c.work)
}

/// The vectors of the changed notes from position `i` on stored.
pub open spec fn all_inserted(
    c: Commit,
    live: bool,
    changed: Seq<ChangedView>,
    vectors: Seq<Seq<u32>>,
    i: int,
    now: u64,
) -> Commit
    decreases changed.len() - i,
{
    if i < 0 || i >= changed.len() || i >= vectors.len() {
        c
    } else {
        let next = insertion(
            c.state,
            c.store,
            live,
            changed[i].work,
            changed[i].content_hash,
            vectors[i],
            now,
        );
        all_inserted(
            Commit { dirty: c.dirty || next.dirty, ..next },
            live,
            changed,
            vectors,
            i + 1,
            now,
        )
    }
}

/// What came of embedding the changed notes.
pub enum InferenceOutcome {
    /// The backend gave vectors.
    Vectors(Vec<Vec<u32>>),
    /// The backend failed.
    Failed(VaultError),
    /// The task did not finish.
    Crashed(String),
}

/// The error of an embedding, if it failed or gave invalid vectors.
pub open spec fn inference_error(outcome: InferenceOutcome, count: nat, dim: nat) -> Option<
    Seq<char>,
> {
    match outcome {
        InferenceOutcome::Crashed(error) => Some("embedding inference task failed: "@ + error@),
        InferenceOutcome::Failed(error) => Some(vault_error_text(error@)),
        InferenceOutcome::Vectors(vectors) => match batch_fault(vectors@, count, dim) {
            Some(error) => Some(vault_error_text(error)),
            None => None,
        },
    }
}

/// What the embedding of the changed notes changes. A failed or invalid batch
/// leaves the store as it is and puts every note of it off.
pub open spec fn embedded(
    s: StateView,
    store: StoreView,
    live: bool,
    changed: Seq<ChangedView>,
    outcome: InferenceOutcome,
    dim: nat,
    now: u64,
) -> Commit {
    match inference_error(outcome, changed.len(), dim) {
        Some(error) => Commit {
            state: all_requeued(s, changed_works(changed), error, 0, now),
            store,
            dirty: false,
        },
        None => all_inserted(
            Commit { state: s, store, dirty: false },
            live,
            changed,
            vector_views(outcome->Vectors_0@),
            0,
            now,
        ),
    }
}

/// Puts a whole batch off whose preparation did not finish.
pub fn requeue_batch(state: &mut RuntimeState, batch: &Vec<PendingWork>, error: &str, now: u64)
    requires
        now <= LAST_TIME,
    ensures
        final(state)@ == all_requeued(
            old(state)@,
            work_views(batch@),
            "embedding preparation task failed: "@ + error@,
            0,
            now,
        ),
{
    let message = cat2("embedding preparation task failed: ", error);
    let ghost works = work_views(batch@);
    let mut i: usize = 0;
    while i < batch.len()
        invariant
            i <= batch@.len(),
            works == work_views(batch@),
            now <= LAST_TIME,
            all_requeued(old(state)@, works, message@, 0, now) == all_requeued(
                state@,
                works,
                message@,
                i as int,
                now,
            ),
        decreases batch@.len() - i,
    {
        assert(works[i as int] == batch@[i as int]@);
        requeue_failure(state, &batch[i], message.as_str(), now);
        i += 1;
    }
}

/// What going through prepared work gives: whether the store changed, and the
/// notes that are to be embedded.
pub struct Processed {
    pub dirty: bool,
    pub changed: Vec<ChangedWork>,
}

/// Goes through prepared work.
pub fn process_prepared(
    state: &mut RuntimeState,
    store: &mut EmbeddingStore,
    live: bool,
    items: &Vec<PreparedWork>,
    now: u64,
) -> (done: Processed)
    requires
        now <= LAST_TIME,
    ensures
        (Progress {
            state: final(state)@,
            store: final(store)@,
            dirty: done.dirty,
            changed: changed_views(done.changed@),
        }) == all_progressed(
            Progress {
                state: old(state)@,
                store: old(store)@,
                dirty: false,
                changed: Seq::empty(),
            },
            live,
            prepared_views(items@),
            0,
            now,
        ),
        consistent(old(store)@) ==> consistent(final(store)@),
{
    let mut dirty = false;
    let mut changed: Vec<ChangedWork> = Vec::new();
    let ghost start = Progress {
        state: state@,
        store: store@,
        dirty: false,
        changed: Seq::empty(),
    };
    let ghost views = prepared_views(items@);
    let mut i: usize = 0;
    assert(changed_views(changed@) =~= Seq::empty());
    while i < items.len()
        invariant
            i <= items@.len(),
            views == prepared_views(items@),
            now <= LAST_TIME,
            all_progressed(start, live, views, 0, now) == all_progressed(
                Progress {
                    state: state@,
                    store: store@,
                    dirty,
                    changed: changed_views(changed@),
                },
                live,
                views,
                i as int,
                now,
            ),
            consistent(old(store)@) ==> consistent(store@),
        decreases items@.len() - i,
    {
        assert(views[i as int] == items@[i as int]@);
        match &items[i] {
            PreparedWork::Remove(work) => {
                let removed = commit_remove(state, store, live, work);
                dirty = dirty || removed;
            },
            PreparedWork::Failed(work, error) => {
                requeue_failure(state, work, error.as_str(), now);
            },
            PreparedWork::Upsert { work, text, content_hash } => {
                let unchanged = match store.hash_at(work.path.as_str()) {
                    Some(cached) => same_digest(cached, content_hash),
                    None => false,
                };
                if unchanged {
                    mark_success(state, work);
                } else {
                    let ghost before_changed = changed@;
                    let item = ChangedWork {
                        work: work.copied(),
                        text: text.clone(),
                        content_hash: *content_hash,
                    };
                    let ghost viewed = item@;
                    changed.push(item);
                    assert(changed_views(changed@) =~= changed_views(before_changed).push(viewed));
                }
            },
        }
        i += 1;
    }
    Processed { dirty, changed }
}

/// Takes in what came of embedding the changed notes. Tells whether the store changed.
pub fn process_embedded(
    state: &mut RuntimeState,
    store: &mut EmbeddingStore,
    live: bool,
    changed: &Vec<ChangedWork>,
    outcome: InferenceOutcome,
    dim: usize,
    now: u64,
) -> (dirty: bool)
    requires
        now <= LAST_TIME,
    ensures
        (Commit { state: final(state)@, store: final(store)@, dirty }) == embedded(
            old(state)@,
            old(store)@,
            live,
            changed_views(changed@),
            outcome,
            dim as nat,
            now,
        ),
        consistent(old(store)@) ==> consistent(final(store)@),
{
    let ghost views = changed_views(changed@);
    let ghost works = changed_works(views);
    let ghost outcome_given = outcome;
    let failure: String = match outcome {
        InferenceOutcome::Crashed(error) => cat2(
            "embedding inference task failed: ",
            error.as_str(),
        ),
        InferenceOutcome::Failed(error) => error.message().clone(),
        InferenceOutcome::Vectors(vectors) => {
            match validate_embedding_batch(vectors, changed.len(), dim) {
                Err(error) => error.message().clone(),
                Ok(checked) => {
                    let ghost all = vector_views(checked@);
                    let ghost start = Commit { state: state@, store: store@, dirty: false };
                    let mut dirty = false;
                    let mut i: usize = 0;
                    while i < changed.len()
                        invariant
                            i <= changed@.len() == checked@.len(),
                            views == changed_views(changed@),
                            all == vector_views(checked@),
                            now <= LAST_TIME,
                            all_inserted(start, live, views, all, 0, now) == all_inserted(
                                Commit { state: state@, store: store@, dirty },
                                live,
                                views,
                                all,
                                i as int,
                                now,
                            ),
                            consistent(old(store)@) ==> consistent(store@),
                        decreases changed@.len() - i,
                    {
                        assert(views[i as int] == changed@[i as int]@);
                        assert(all[i as int] == checked@[i as int]@);
                        let vector = copy_vector(&checked[i]);
                        let stored = commit_upsert(
                            state,
                            store,
                            live,
                            &changed[i].work,
                            changed[i].content_hash,
                            vector,
                            now,
                        );
                        dirty = dirty || stored;
                        i += 1;
                    }
                    return dirty;
                },
            }
        },
    };
    let mut i: usize = 0;
    while i < changed.len()
        invariant
            i <= changed@.len(),
            views == changed_views(changed@),
            works == changed_works(views),
            now <= LAST_TIME,
            all_requeued(old(state)@, works, failure@, 0, now) == all_requeued(
                state@,
                works,
                failure@,
                i as int,
                now,
            ),
            store@ == old(store)@,
        decreases changed@.len() - i,
    {
        assert(views[i as int] == changed@[i as int]@);
        assert(works[i as int] == changed@[i as int].work@);
        requeue_failure(state, &changed[i].work, failure.as_str(), now);
        i += 1;
    }
    false
}

/// A batch holds at most 32 works, each of which is due, and none twice; removals come
/// before the rest. Where something due is left out, the batch is full.
pub proof fn batches_hold_due_work(
    pending: Map<Seq<char>, Intent>,
    now: u64,
    batch: Seq<WorkView>,
    i: int,
    j: int,
    path: Seq<char>,
)
    requires
        is_due_batch(pending, now, batch),
    ensures
        batch.len() <= 32,
        0 <= i < batch.len() ==> pending.contains_key(batch[i].path) && pending[batch[i].path]
            == batch[i].intent && batch[i].intent.not_before <= now,
        0 <= i < j < batch.len() ==> batch[i].path != batch[j].path && !(batch[i].intent.kind
            == PendingKind::Upsert && batch[j].intent.kind == PendingKind::Remove),
        pending.contains_key(path) && pending[path].not_before <= now && batch.len() < 32
            ==> exists|k: int| 0 <= k < batch.len() && (#[trigger] batch[k]).path == path,
        pending.contains_key(path) && pending[path].not_before <= now && pending[path].kind
            == PendingKind::Remove && (forall|k: int|
            0 <= k < batch.len() ==> (#[trigger] batch[k]).path != path) ==> forall|k: int|
            0 <= k < batch.len() ==> (#[trigger] batch[k]).intent.kind == PendingKind::Remove,
{
    if pending.contains_key(path) && pending[path].not_before <= now {
        assert(is_due(pending, path, now));
        if batch.len() < 32 {
            assert(batch_paths(batch).contains(path));
        }
    }
}

/// What is taken into a batch is in progress with its generation and no longer pending;
/// all other work stays where it was.
pub proof fn taken_work_is_in_progress(s: StateView, batch: Seq<WorkView>, path: Seq<char>)
    requires
        forall|i: int| 0 <= i < batch.len() ==> s.pending.contains_key((#[trigger] batch[i]).path),
    ensures
        ({
            let after = batch_taken(s, batch);
            let taken = exists|i: int| 0 <= i < batch.len() && (#[trigger] batch[i]).path == path;
            &&& taken ==> !after.pending.contains_key(path) && after.inflight.contains_key(path)
                && after.inflight[path] == s.pending[path].generation
            &&& !taken ==> (after.pending.contains_key(path) <==> s.pending.contains_key(path)) && (
            after.inflight.contains_key(path) <==> s.inflight.contains_key(path))
            &&& !taken && s.pending.contains_key(path) ==> after.pending[path] == s.pending[path]
            &&& !taken && s.inflight.contains_key(path) ==> after.inflight[path] == s.inflight[path]
            &&& after.failures == s.failures
            &&& after.next_generation == s.next_generation
            &&& after.initial_remaining == s.initial_remaining
        }),
{
}

/// A note that is to go, or is not there any more, is removed; one that cannot be read
/// fails with its error; any other is embedded by its text, under the hash of the text.
pub proof fn notes_are_prepared_by_what_is_found(work: WorkView, source: SourceView)
    ensures
        prepared(work, source) == PreparedView::Remove(work) <==> work.intent.kind
            == PendingKind::Remove || source is Missing,
        work.intent.kind == PendingKind::Upsert ==> (source matches SourceView::Unreadable(error)
            ==> prepared(work, source) == PreparedView::Failed(work, error)),
        work.intent.kind == PendingKind::Upsert ==> (source matches SourceView::Note {
            title,
            headings,
            body,
        } ==> (prepared(work, source) matches PreparedView::Upsert { work: kept, text, content_hash }
            && kept == work && text == embed_text(title, headings, body) && content_hash == sha256(
            encode_utf8(text),
        ))),
{
}

/// A note whose text is not the stored one is embedded, one that failed is tried again,
/// and neither changes the store.
pub proof fn changed_notes_are_embedded(
    p: Progress,
    live: bool,
    work: WorkView,
    text: Seq<char>,
    content_hash: Seq<u8>,
    error: Seq<char>,
    now: u64,
)
    ensures
        !(p.store.entries.contains_key(work.path) && p.store.entries[work.path].content_hash == Some(
            content_hash,
        )) ==> progressed(p, live, PreparedView::Upsert { work, text, content_hash }, now) == (
        Progress { changed: p.changed.push(ChangedView { work, text, content_hash }), ..p }),
        p.store.entries.contains_key(work.path) && p.store.entries[work.path].content_hash == Some(
            content_hash,
        ) ==> progressed(p, live, PreparedView::Upsert { work, text, content_hash }, now) == (
        Progress { state: marked(p.state, work), ..p }),
        progressed(p, live, PreparedView::Failed(work, error), now) == (Progress {
            state: requeued(p.state, work, error, now),
            ..p
        }),
        progressed(p, live, PreparedView::Remove(work), now).store == removal(
            p.state,
            p.store,
            live,
            work,
        ).store,
        progressed(p, live, PreparedView::Remove(work), now).changed == p.changed,
        progressed(p, live, PreparedView::Remove(work), now).dirty <==> p.dirty || removal(
            p.state,
            p.store,
            live,
            work,
        ).dirty,
{
}

/// The works of a batch are handled one after the other, each once: a last one is
/// handled after all before it.
pub proof fn works_are_handled_in_order(
    p: Progress,
    live: bool,
    items: Seq<PreparedView>,
    item: PreparedView,
    s: StateView,
    works: Seq<WorkView>,
    work: WorkView,
    error: Seq<char>,
    now: u64,
)
    ensures
        all_progressed(p, live, Seq::<PreparedView>::empty(), 0, now) == p,
        all_progressed(p, live, items.push(item), 0, now) == progressed(
            all_progressed(p, live, items, 0, now),
            live,
            item,
            now,
        ),
        all_requeued(s, Seq::<WorkView>::empty(), error, 0, now) == s,
        all_requeued(s, works.push(work), error, 0, now) == requeued(
            all_requeued(s, works, error, 0, now),
            work,
            error,
            now,
        ),
{
    lemma_progressed_last(p, live, items, item, 0, now);
    lemma_requeued_last(s, works, work, error, 0, now);
}

proof fn lemma_progressed_last(
    p: Progress,
    live: bool,
    items: Seq<PreparedView>,
    item: PreparedView,
    i: int,
    now: u64,
)
    requires
        0 <= i <= items.len(),
    ensures
        all_progressed(p, live, items.push(item), i, now) == progressed(
            all_progressed(p, live, items, i, now),
            live,
            item,
            now,
        ),
    decreases items.len() - i,
{
    reveal_with_fuel(all_progressed, 2);
    if i < items.len() {
        assert(items.push(item)[i] == items[i]);
        lemma_progressed_last(progressed(p, live, items[i], now), live, items, item, i + 1, now);
    } else {
        assert(items.push(item)[i] == item);
    }
}

proof fn lemma_requeued_last(
    s: StateView,
    works: Seq<WorkView>,
    work: WorkView,
    error: Seq<char>,
    i: int,
    now: u64,
)
    requires
        0 <= i <= works.len(),
    ensures
        all_requeued(s, works.push(work), error, i, now) == requeued(
            all_requeued(s, works, error, i, now),
            work,
            error,
            now,
        ),
    decreases works.len() - i,
{
    reveal_with_fuel(all_requeued, 2);
    if i < works.len() {
        assert(works.push(work)[i] == works[i]);
        lemma_requeued_last(requeued(s, works[i], error, now), works, work, error, i + 1, now);
    } else {
        assert(works.push(work)[i] == work);
    }
}

/// The vectors of a batch are stored one after the other, each with the work it was
/// made for, and the store has to be written where any of them changed it.
pub proof fn vectors_are_stored_in_order(
    c: Commit,
    live: bool,
    changed: Seq<ChangedView>,
    vectors: Seq<Seq<u32>>,
    item: ChangedView,
    vector: Seq<u32>,
    now: u64,
)
    requires
        changed.len() == vectors.len(),
    ensures
        all_inserted(c, live, Seq::<ChangedView>::empty(), Seq::<Seq<u32>>::empty(), 0, now) == c,
        ({
            let earlier = all_inserted(c, live, changed, vectors, 0, now);
            let last = insertion(
                earlier.state,
                earlier.store,
                live,
                item.work,
                item.content_hash,
                vector,
                now,
            );
            all_inserted(c, live, changed.push(item), vectors.push(vector), 0, now) == (Commit {
                state: last.state,
                store: last.store,
                dirty: earlier.dirty || last.dirty,
            })
        }),
{
    lemma_inserted_last(c, live, changed, vectors, item, vector, 0, now);
}

proof fn lemma_inserted_last(
    c: Commit,
    live: bool,
    changed: Seq<ChangedView>,
    vectors: Seq<Seq<u32>>,
    item: ChangedView,
    vector: Seq<u32>,
    i: int,
    now: u64,
)
    requires
        0 <= i <= changed.len() == vectors.len(),
    ensures
        ({
            let earlier = all_inserted(c, live, changed, vectors, i, now);
            let last = insertion(
                earlier.state,
                earlier.store,
                live,
                item.work,
                item.content_hash,
                vector,
                now,
            );
            all_inserted(c, live, changed.push(item), vectors.push(vector), i, now) == (Commit {
                state: last.state,
                store: last.store,
                dirty: earlier.dirty || last.dirty,
            })
        }),
    decreases changed.len() - i,
{
    reveal_with_fuel(all_inserted, 2);
    if i < changed.len() {
        assert(changed.push(item)[i] == changed[i]);
        assert(vectors.push(vector)[i] == vectors[i]);
        let next = insertion(
            c.state,
            c.store,
            live,
            changed[i].work,
            changed[i].content_hash,
            vectors[i],
            now,
        );
        lemma_inserted_last(
            Commit { dirty: c.dirty || next.dirty, ..next },
            live,
            changed,
            vectors,
            item,
            vector,
            i + 1,
            now,
        );
    } else {
        assert(changed.push(item)[i] == item);
        assert(vectors.push(vector)[i] == vector);
    }
}

/// An inference counts exactly where it gave one acceptable vector for each text; then
/// its vectors are stored, and otherwise every work of it is tried again.
pub proof fn inferences_count_as_a_whole(
    s: StateView,
    store: StoreView,
    live: bool,
    changed: Seq<ChangedView>,
    outcome: InferenceOutcome,
    dim: nat,
    now: u64,
)
    ensures
        inference_error(outcome, changed.len(), dim) is None <==> (outcome matches
            InferenceOutcome::Vectors(vectors) && batch_fault(vectors@, changed.len(), dim) is None),
        inference_error(outcome, changed.len(), dim) matches Some(error) ==> embedded(
            s,
            store,
            live,
            changed,
            outcome,
            dim,
            now,
        ).state == all_requeued(s, changed_works(changed), error, 0, now),
        inference_error(outcome, changed.len(), dim) is None ==> embedded(
            s,
            store,
            live,
            changed,
            outcome,
            dim,
            now,
        ) == all_inserted(
            Commit { state: s, store, dirty: false },
            live,
            changed,
            vector_views(outcome->Vectors_0@),
            0,
            now,
        ),
        forall|i: int|
            0 <= i < changed.len() ==> #[trigger] changed_works(changed)[i] == changed[i].work,
        changed_works(changed).len() == changed.len(),
{
}

/// The next time is that of the pending work that is due first; there is none exactly
/// where nothing is pending.
pub proof fn the_next_time_is_the_earliest(
    pending: Map<Seq<char>, Intent>,
    at: Option<u64>,
    path: Seq<char>,
)
    requires
        is_next_time(pending, at),
    ensures
        pending.contains_key(path) ==> at is Some && at->0 <= pending[path].not_before,
        at matches Some(time) ==> exists|first: Seq<char>| #[trigger]
            pending.contains_key(first) && pending[first].not_before == time,
{
    if pending.contains_key(path) && at is None {
        assert(pending.dom().contains(path));
    }
}

} // verus!
