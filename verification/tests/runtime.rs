//! The embedding runtime, driven step by step.

use obsidian_mcp::error::VaultError;
use obsidian_mcp::keyed::Keyed;
use obsidian_mcp::vault::backend::plan_relocation;
use obsidian_mcp::vault::batch::{prepare_batch, InferenceOutcome, NoteSource};
use obsidian_mcp::vault::embedding_runtime::{CoordinatorAction, EmbeddingRuntime, PersistOutcome};
use obsidian_mcp::vault::embeddings::{
    prepare_embed_text, prepared_text_hash, EmbeddingBackendKind, EmbeddingSpaceIdentity,
    EmbeddingStore, EMBEDDING_INPUT_VERSION,
};
use obsidian_mcp::vault::runtime_state::{retry_delay, EmbeddingPhase, PendingKind, MAX_RETRY_DELAY};
use obsidian_mcp::vault::watcher::submit_event;

fn identity() -> EmbeddingSpaceIdentity {
    EmbeddingSpaceIdentity {
        backend: EmbeddingBackendKind::Local,
        model: "fake".into(),
        endpoint_fingerprint: None,
        dimension: 3,
        input_version: EMBEDDING_INPUT_VERSION,
    }
}

fn unit() -> Vec<u32> {
    vec![1.0f32.to_bits(), 0.0f32.to_bits(), 0.0f32.to_bits()]
}

/// A vault in memory with a backend that can be told to fail.
struct World {
    notes: Vec<(String, String)>,
    fail_inference: bool,
    bad_vectors: bool,
    fail_persist: bool,
    embedded: Vec<String>,
    cache: Option<Vec<u8>>,
    /// Other files, with their bytes.
    files: Vec<(String, Vec<u8>)>,
    writes: usize,
}

impl World {
    fn new(notes: &[(&str, &str)]) -> World {
        World {
            notes: notes.iter().map(|(path, body)| (path.to_string(), body.to_string())).collect(),
            fail_inference: false,
            bad_vectors: false,
            fail_persist: false,
            embedded: Vec::new(),
            cache: None,
            files: Vec::new(),
            writes: 0,
        }
    }

    fn paths(&self) -> Keyed<()> {
        let mut paths = Keyed::new();
        for (path, _) in &self.notes {
            paths.insert(path.clone(), ());
        }
        paths
    }

    fn file(&self, path: &str) -> Option<&Vec<u8>> {
        self.files.iter().find(|(name, _)| name == path).map(|(_, bytes)| bytes)
    }

    fn source(&self, path: &str) -> NoteSource {
        match self.notes.iter().find(|(name, _)| name == path) {
            Some((name, body)) => NoteSource::Note {
                title: name.trim_end_matches(".md").to_string(),
                headings: Vec::new(),
                body: body.clone(),
            },
            None => NoteSource::Missing,
        }
    }

    fn text(&self, path: &str) -> String {
        match self.source(path) {
            NoteSource::Note { title, headings, body } => prepare_embed_text(&title, &headings, &body),
            _ => panic!("no note {path}"),
        }
    }

    /// Runs the coordinator until it waits or stops.
    fn run(&mut self, runtime: &mut EmbeddingRuntime, mut action: CoordinatorAction, now: u64) -> Option<u64> {
        loop {
            let paths = self.paths();
            action = match action {
                CoordinatorAction::Wait(until) => return until,
                CoordinatorAction::Stop => return None,
                CoordinatorAction::RelocateCache(sources) => {
                    let present = sources.iter().map(|path| self.file(path).is_some()).collect();
                    let target = self.cache.is_some();
                    let plan = plan_relocation(&sources, &present, "active.bin".into(), target);
                    if let Some(source) = plan.copy_from {
                        self.cache = self.file(&source).cloned();
                    }
                    runtime.cache_relocated()
                }
                CoordinatorAction::LoadCache => {
                    let cached = self
                        .cache
                        .as_ref()
                        .map(|bytes| EmbeddingStore::load(bytes, false).expect("the cache loads"));
                    runtime.cache_loaded(&identity(), cached, &paths, now)
                }
                CoordinatorAction::Prepare(batch) => {
                    let sources = batch.iter().map(|work| self.source(&work.path)).collect();
                    let items = prepare_batch(&batch, &sources);
                    runtime.batch_prepared(&items, &paths, now)
                }
                CoordinatorAction::Embed(changed) => {
                    let outcome = if self.fail_inference {
                        InferenceOutcome::Failed(VaultError::Embedding("backend down".into()))
                    } else if self.bad_vectors {
                        InferenceOutcome::Vectors(vec![unit()])
                    } else {
                        InferenceOutcome::Vectors(changed.iter().map(|_| unit()).collect())
                    };
                    self.embedded.extend(changed.iter().map(|work| work.work.path.clone()));
                    runtime.batch_embedded(&changed, outcome, &paths, now)
                }
                CoordinatorAction::Persist => {
                    let outcome = if self.fail_persist {
                        PersistOutcome::Failed("disk full".into())
                    } else {
                        let store = runtime.store.as_ref().expect("a store");
                        self.cache = Some(store.encode_cache().expect("the store encodes"));
                        self.writes += 1;
                        PersistOutcome::Written
                    };
                    runtime.persisted(outcome, &paths, now)
                }
            };
        }
    }

    fn start(&mut self, now: u64) -> EmbeddingRuntime {
        let mut runtime = EmbeddingRuntime::new(&self.paths(), now);
        let action = runtime.model_loaded();
        self.run(&mut runtime, action, now);
        runtime
    }

    fn resume(&mut self, runtime: &mut EmbeddingRuntime, now: u64) -> Option<u64> {
        let action = runtime.go_on(now);
        self.run(runtime, action, now)
    }
}

#[test]
fn spawn_returns_while_loader_is_blocked() {
    let mut world = World::new(&[("one.md", "body")]);
    let mut runtime = EmbeddingRuntime::new(&world.paths(), 0);
    let status = runtime.status(&world.paths());
    assert_eq!(status.phase, EmbeddingPhase::Warming);
    assert!(!status.queryable);
    assert_eq!(status.total_notes, 1);
    assert_eq!(status.pending_notes, 1);

    world.notes.push(("two.md".into(), "body".into()));
    runtime.submit_upsert("two.md", 0, false);
    let status = runtime.status(&world.paths());
    assert_eq!(status.total_notes, 2);
    assert_eq!(status.pending_notes, 2);
    let error = runtime.query_snapshot(&world.paths()).err().expect("no snapshot yet");
    assert!(error.message().contains("0/2, 2 pending"));

    let action = runtime.model_loaded();
    world.run(&mut runtime, action, 0);
    let status = runtime.status(&world.paths());
    assert_eq!(status.phase, EmbeddingPhase::Ready);
    assert!(status.queryable);
    assert_eq!(status.total_notes, 2);
    assert_eq!(status.pending_notes, 0);
}

#[test]
fn failed_model_degrades_the_runtime() {
    let world = World::new(&[("one.md", "body")]);
    let mut runtime = EmbeddingRuntime::new(&world.paths(), 0);
    runtime.model_failed("no model".into(), &world.paths());
    assert_eq!(runtime.first_load_error(), Some("no model"));
    assert_eq!(runtime.status(&world.paths()).phase, EmbeddingPhase::Degraded);
    assert!(runtime.query_snapshot(&world.paths()).is_err());
}

#[test]
fn reconciliation_indexes_notes_and_persists_complete_cache() {
    let mut world = World::new(&[("one.md", "semantic body")]);
    let runtime = world.start(0);
    let status = runtime.status(&world.paths());
    assert_eq!(status.phase, EmbeddingPhase::Ready);
    assert_eq!(status.indexed_notes, 1);
    assert_eq!(status.total_notes, 1);
    let ranked = runtime.query_snapshot(&world.paths()).unwrap().query(&vec![5], 1);
    assert_eq!(ranked, vec![("one.md".to_string(), 5)]);
    let cache = EmbeddingStore::load(world.cache.as_ref().unwrap(), false).unwrap();
    assert!(cache.first_pass_complete());
    assert_eq!(cache.len(), 1);
}

#[test]
fn newer_remove_wins_over_queued_upsert() {
    let mut world = World::new(&[("one.md", "body")]);
    let mut runtime = world.start(0);
    world.notes.clear();
    runtime.submit_upsert("one.md", 1, false);
    runtime.submit_remove("one.md", 1, false);
    assert_eq!(runtime.pending_kind("one.md", false), Some(PendingKind::Remove));
    world.resume(&mut runtime, 1);
    let status = runtime.status(&world.paths());
    assert_eq!(status.pending_notes, 0);
    assert_eq!(status.total_notes, 0);
    assert!(runtime.query_snapshot(&world.paths()).unwrap().is_empty());
}

#[test]
fn compatible_unchanged_cache_skips_inference() {
    let mut world = World::new(&[("one.md", "semantic body")]);
    let mut cache = EmbeddingStore::new_with_identity(identity());
    cache
        .insert_hashed("one.md", prepared_text_hash(&world.text("one.md")), unit(), false)
        .unwrap();
    cache.set_first_pass_complete(true);
    world.cache = Some(cache.encode_cache().unwrap());
    let runtime = world.start(0);
    assert_eq!(runtime.status(&world.paths()).phase, EmbeddingPhase::Ready);
    assert!(world.embedded.is_empty());
}

#[test]
fn reconciliation_embeds_only_changed_and_new_notes() {
    let mut world = World::new(&[("changed.md", "new"), ("new.md", "n"), ("same.md", "s")]);
    let mut cache = EmbeddingStore::new_with_identity(identity());
    for (path, hash) in [
        ("changed.md", prepared_text_hash("old text")),
        ("same.md", prepared_text_hash(&world.text("same.md"))),
        ("deleted.md", prepared_text_hash("gone")),
    ] {
        cache.insert_hashed(path, hash, unit(), false).unwrap();
    }
    cache.set_first_pass_complete(true);
    world.cache = Some(cache.encode_cache().unwrap());
    let runtime = world.start(0);
    assert_eq!(world.embedded, vec!["changed.md", "new.md"]);
    let store = runtime.query_snapshot(&world.paths()).unwrap();
    assert_eq!(store.len(), 3);
    assert!(store.get("deleted.md", false).is_none());
}

#[test]
fn invalid_batch_preserves_every_last_known_good_entry() {
    let mut world = World::new(&[("a.md", "a"), ("b.md", "b")]);
    let mut runtime = world.start(0);
    let before = runtime.store.as_ref().unwrap().content_hash("a.md", false).copied();
    world.notes[0].1 = "a2".into();
    world.notes[1].1 = "b2".into();
    world.bad_vectors = true;
    runtime.submit_upsert("a.md", 10, false);
    runtime.submit_upsert("b.md", 10, false);
    world.resume(&mut runtime, 10);
    let status = runtime.status(&world.paths());
    assert_eq!(status.phase, EmbeddingPhase::Degraded);
    assert!(status.queryable);
    assert_eq!(runtime.store.as_ref().unwrap().content_hash("a.md", false).copied(), before);
}

#[test]
fn failed_refresh_keeps_last_known_good_then_recovers() {
    let mut world = World::new(&[("one.md", "body")]);
    let mut runtime = world.start(0);
    world.notes[0].1 = "changed".into();
    world.fail_inference = true;
    runtime.submit_upsert("one.md", 100, false);
    let wake = world.resume(&mut runtime, 100).expect("the work is put off");
    assert!(wake > 100);
    let status = runtime.status(&world.paths());
    assert_eq!(status.phase, EmbeddingPhase::Degraded);
    assert!(status.queryable);
    assert!(status.last_error.unwrap().contains("backend down"));
    world.fail_inference = false;
    world.resume(&mut runtime, wake);
    assert_eq!(runtime.status(&world.paths()).phase, EmbeddingPhase::Ready);
    assert_eq!(
        runtime.store.as_ref().unwrap().content_hash("one.md", false),
        Some(&prepared_text_hash(&world.text("one.md")))
    );
}

#[test]
fn persistence_failure_degrades_then_recovers_without_losing_store() {
    let mut world = World::new(&[("one.md", "body")]);
    world.fail_persist = true;
    let mut runtime = world.start(0);
    let status = runtime.status(&world.paths());
    assert_eq!(status.phase, EmbeddingPhase::Degraded);
    assert!(status.queryable);
    assert_eq!(world.writes, 0);
    world.fail_persist = false;
    let later = runtime.persist_retry_at;
    world.resume(&mut runtime, later);
    assert_eq!(runtime.status(&world.paths()).phase, EmbeddingPhase::Ready);
    assert_eq!(world.writes, 1);
    assert_eq!(runtime.store.as_ref().unwrap().len(), 1);
}

#[test]
fn drop_during_inference_prevents_late_commit_and_persistence() {
    let mut world = World::new(&[("one.md", "body")]);
    let mut runtime = EmbeddingRuntime::new(&world.paths(), 0);
    let mut action = runtime.cache_loaded(&identity(), None, &world.paths(), 0);
    if let CoordinatorAction::Prepare(batch) = action {
        let sources = batch.iter().map(|work| world.source(&work.path)).collect();
        action = runtime.batch_prepared(&prepare_batch(&batch, &sources), &world.paths(), 0);
    } else {
        panic!("the first pass starts");
    }
    let changed = match action {
        CoordinatorAction::Embed(changed) => changed,
        _ => panic!("the note is embedded"),
    };
    runtime.stop();
    let outcome = InferenceOutcome::Vectors(vec![unit()]);
    let action = runtime.batch_embedded(&changed, outcome, &world.paths(), 0);
    assert!(matches!(action, CoordinatorAction::Stop));
    assert!(runtime.store.as_ref().unwrap().is_empty());
    world.run(&mut runtime, action, 0);
    assert_eq!(world.writes, 0);
}

#[test]
fn incomplete_checkpoint_is_reused_but_not_published_early() {
    let mut world = World::new(&[("a.md", "a"), ("b.md", "b")]);
    let mut cache = EmbeddingStore::new_with_identity(identity());
    cache
        .insert_hashed("a.md", prepared_text_hash(&world.text("a.md")), unit(), false)
        .unwrap();
    let mut runtime = EmbeddingRuntime::new(&world.paths(), 0);
    let action = runtime.cache_loaded(&identity(), Some(cache), &world.paths(), 0);
    assert!(runtime.query_snapshot(&world.paths()).is_err());
    world.run(&mut runtime, action, 0);
    assert_eq!(world.embedded, vec!["b.md"]);
    assert!(runtime.query_snapshot(&world.paths()).is_ok());
}

#[test]
fn busy_reconciliation_writes_an_incomplete_checkpoint() {
    let notes: Vec<(String, String)> =
        (0..40).map(|index| (format!("{index:02}.md"), "body".to_string())).collect();
    let mut world = World::new(&[]);
    world.notes = notes;
    let mut runtime = EmbeddingRuntime::new(&world.paths(), 0);
    let paths = world.paths();
    let action = runtime.cache_loaded(&identity(), None, &paths, 0);
    let batch = match action {
        CoordinatorAction::Prepare(batch) => batch,
        _ => panic!("the first batch"),
    };
    assert_eq!(batch.len(), 32);
    let sources = batch.iter().map(|work| world.source(&work.path)).collect();
    let action = runtime.batch_prepared(&prepare_batch(&batch, &sources), &paths, 0);
    let changed = match action {
        CoordinatorAction::Embed(changed) => changed,
        _ => panic!("the batch is embedded"),
    };
    let vectors = changed.iter().map(|_| unit()).collect();
    let action = runtime.batch_embedded(&changed, InferenceOutcome::Vectors(vectors), &paths, 5_000);
    assert!(matches!(action, CoordinatorAction::Persist));
    let bytes = runtime.store.as_ref().unwrap().encode_cache().unwrap();
    let checkpoint = EmbeddingStore::load(&bytes, false).unwrap();
    assert!(!checkpoint.first_pass_complete());
    assert_eq!(checkpoint.len(), 32);
}

#[test]
fn embedding_events_coalesce_to_latest_path_intents_without_inference() {
    let world = World::new(&[]);
    let mut runtime = EmbeddingRuntime::new(&world.paths(), 0);
    let both: Vec<String> = vec!["kept.md".into(), "gone.md".into()];
    submit_event(&mut runtime, &both, &vec![true, true], 1, false);
    submit_event(&mut runtime, &both, &vec![true, false], 2, false);
    assert_eq!(runtime.pending_kind("kept.md", false), Some(PendingKind::Upsert));
    assert_eq!(runtime.pending_kind("gone.md", false), Some(PendingKind::Remove));
    assert_eq!(runtime.status(&world.paths()).pending_notes, 2);
}

#[test]
fn retry_waits_grow_up_to_a_limit() {
    assert!(retry_delay(1) < retry_delay(2));
    assert_eq!(retry_delay(u8::MAX), MAX_RETRY_DELAY);
}

#[test]
fn batch_that_cannot_be_prepared_is_tried_again() {
    let mut world = World::new(&[("one.md", "body")]);
    let mut runtime = EmbeddingRuntime::new(&world.paths(), 0);
    let paths = world.paths();
    let action = runtime.cache_loaded(&identity(), None, &paths, 0);
    let batch = match action {
        CoordinatorAction::Prepare(batch) => batch,
        _ => panic!("a batch is prepared"),
    };
    let action = runtime.preparation_failed(&batch, "crashed", &paths, 0);
    assert_eq!(world.run(&mut runtime, action, 0), Some(retry_delay(1)));
    let status = runtime.status(&paths);
    assert_eq!(status.phase, EmbeddingPhase::Degraded);
    assert_eq!(status.pending_notes, 1);
    assert_eq!(
        status.last_error.as_deref(),
        Some("embedding preparation task failed: crashed")
    );
    world.resume(&mut runtime, retry_delay(1));
    assert_eq!(runtime.status(&paths).phase, EmbeddingPhase::Ready);
    assert_eq!(world.embedded, vec!["one.md".to_string()]);
}

#[test]
fn compatible_cache_relocation_runs_in_background_and_reuses_vectors() {
    let mut world = World::new(&[("one.md", "# One\nsemantic body")]);
    let mut cache = EmbeddingStore::new_with_identity(identity());
    let hash = prepared_text_hash(&world.text("one.md"));
    cache.insert_hashed("one.md", hash, unit(), false).unwrap();
    cache.set_first_pass_complete(true);
    world.files.push(("legacy.bin".into(), cache.encode_cache().unwrap()));

    let sources = vec!["older.bin".to_string(), "legacy.bin".to_string()];
    let mut runtime = EmbeddingRuntime::with_cache_sources(&world.paths(), sources, 0);
    let action = runtime.model_loaded();
    assert!(matches!(action, CoordinatorAction::RelocateCache(_)));
    world.run(&mut runtime, action, 0);

    let status = runtime.status(&world.paths());
    assert_eq!(status.phase, EmbeddingPhase::Ready);
    assert!(status.queryable);
    assert!(world.embedded.is_empty());
    assert!(world.file("legacy.bin").is_some());
    let loaded = EmbeddingStore::load(world.cache.as_ref().unwrap(), false).unwrap();
    assert!(loaded.first_pass_complete());
    assert_eq!(loaded.len(), 1);
}

#[test]
fn nothing_is_relocated_without_an_owner_or_a_source() {
    let world = World::new(&[("one.md", "body")]);
    let sources = vec!["legacy.bin".to_string()];
    let mut runtime = EmbeddingRuntime::with_cache_sources(&world.paths(), sources, 0);
    assert!(matches!(runtime.cache_relocated(), CoordinatorAction::LoadCache));
    runtime.stop();
    assert!(matches!(runtime.model_loaded(), CoordinatorAction::Stop));
    assert!(matches!(runtime.cache_relocated(), CoordinatorAction::Stop));
    let plain = EmbeddingRuntime::new(&world.paths(), 0);
    assert!(matches!(plain.model_loaded(), CoordinatorAction::LoadCache));
}
