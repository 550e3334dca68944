//! The embedding store, its cache format, the API replies and the prepared text.

use obsidian_mcp::error::VaultError;
use obsidian_mcp::keyed::Keyed;
use obsidian_mcp::vault::backend::{
    api_settings, api_step, embedding_request, embeddings_url, loadable_provider,
    migrate_legacy_cache_to_daemon_store, migration_paths, parse_embedding_response,
    parse_usize_env, plan_relocation, probed_dimension, query_vector, read_env_with_fallback,
    resolve_provider, tls_verification_disabled, transport_error, ApiEnvironment, ApiStep,
    EmbeddingModel, EmbeddingReply, LegacyCacheMigration, ReplyIndex, ReplyItem, ReplyNumber,
    TransportFailure,
};
use obsidian_mcp::vault::embeddings::{
    endpoint_fingerprint, path_keys, prepare_embed_text, prepared_text_hash, short_fingerprint,
    validate_embedding_batch, EmbeddingBackendKind, EmbeddingProvider, EmbeddingSpaceIdentity,
    EmbeddingStore, EMBEDDING_INPUT_VERSION, MAX_BODY_WORDS,
};

fn bits(values: &[f32]) -> Vec<u32> {
    values.iter().map(|value| value.to_bits()).collect()
}

fn cosine(a: &[f32], b: &[u32]) -> f32 {
    let b: Vec<f32> = b.iter().map(|raw| f32::from_bits(*raw)).collect();
    let dot: f32 = a.iter().zip(&b).map(|(x, y)| x * y).sum();
    let norms = a.iter().map(|x| x * x).sum::<f32>().sqrt()
        * b.iter().map(|x| x * x).sum::<f32>().sqrt();
    if norms == 0.0 { 0.0 } else { dot / norms }
}

fn score_keys(store: &EmbeddingStore, query: &[f32]) -> Vec<i64> {
    store
        .keys()
        .iter()
        .map(|key| (cosine(query, store.vector_at(key).unwrap()) * 1_000_000.0) as i64)
        .collect()
}

fn query(store: &EmbeddingStore, query: &[f32], top_k: usize) -> Vec<(String, i64)> {
    store.query(&score_keys(store, query), top_k)
}

fn test_identity(dim: usize) -> EmbeddingSpaceIdentity {
    EmbeddingSpaceIdentity {
        backend: EmbeddingBackendKind::Local,
        model: "test-model".to_string(),
        endpoint_fingerprint: None,
        dimension: dim,
        input_version: EMBEDDING_INPUT_VERSION,
    }
}

fn make_store() -> EmbeddingStore {
    let mut store = EmbeddingStore::new_with_identity(test_identity(3));
    store
        .insert_hashed("a.md", prepared_text_hash("a"), bits(&[1.0, 0.0, 0.0]), false)
        .unwrap();
    store
        .insert_hashed("b.md", prepared_text_hash("b"), bits(&[0.0, 1.0, 0.0]), false)
        .unwrap();
    store
        .insert_hashed("c.md", prepared_text_hash("c"), bits(&[0.7, 0.7, 0.0]), false)
        .unwrap();
    store.set_first_pass_complete(true);
    store
}

fn path_set(paths: &[&str]) -> Keyed<()> {
    let mut set = Keyed::new();
    for path in paths {
        set.insert(path.to_string(), ());
    }
    set
}

#[test]
fn query_returns_top_k_sorted() {
    let store = make_store();
    let results = query(&store, &[1.0, 0.0, 0.0], 2);
    assert_eq!(results.len(), 2);
    assert_eq!(results[0].0, "a.md", "exact match should rank first");
    assert!(
        results[0].1 > results[1].1,
        "results should be sorted by descending score"
    );
}

#[test]
fn query_top_k_exceeding_store_size() {
    let store = make_store();
    let results = query(&store, &[1.0, 0.0, 0.0], 100);
    assert_eq!(results.len(), 3);
}

#[test]
fn query_paths_ranks_only_authoritative_members() {
    let store = make_store();
    let allowed = path_set(&["b.md", "c.md"]);
    let results = store.query_paths(&score_keys(&store, &[1.0, 0.0, 0.0]), &allowed, 10);
    assert_eq!(results.len(), 2);
    assert!(results.iter().all(|(path, _)| allowed.contains_key(path)));
    assert_eq!(results[0].0, "c.md");
}

#[test]
fn insert_remove_updates_results() {
    let mut store = make_store();
    assert_eq!(store.len(), 3);

    store.remove("a.md", false);
    assert_eq!(store.len(), 2);
    assert!(store.get("a.md", false).is_none());

    let results = query(&store, &[1.0, 0.0, 0.0], 10);
    assert!(!results.iter().any(|(p, _)| p == "a.md"));

    store.insert("d.md", bits(&[0.9, 0.1, 0.0]), false);
    assert_eq!(store.len(), 3);
    let results = query(&store, &[1.0, 0.0, 0.0], 1);
    assert_eq!(results[0].0, "d.md");
}

#[test]
fn get_returns_embedding() {
    let store = make_store();
    let vec = store.get("a.md", false).unwrap();
    assert_eq!(vec, &bits(&[1.0, 0.0, 0.0]));
    assert!(store.get("nonexistent.md", false).is_none());
}

#[test]
fn persistence_roundtrip() {
    let store = make_store();
    let bytes = store.encode_cache().unwrap();
    let loaded = EmbeddingStore::load(&bytes, false).unwrap();

    assert_eq!(loaded.dim(), store.dim());
    assert_eq!(loaded.len(), store.len());
    assert_eq!(loaded.identity(), store.identity());
    assert!(loaded.first_pass_complete());
    assert_eq!(loaded.content_hash("a.md", false), store.content_hash("a.md", false));

    let original_results = query(&store, &[1.0, 0.0, 0.0], 3);
    let loaded_results = query(&loaded, &[1.0, 0.0, 0.0], 3);
    assert_eq!(original_results, loaded_results);
}

#[test]
fn empty_store_query() {
    let store = EmbeddingStore::new(3);
    assert!(store.is_empty());
    let results = query(&store, &[1.0, 0.0, 0.0], 10);
    assert!(results.is_empty());
}

#[test]
fn cache_rejects_trailing_bytes() {
    let store = make_store();
    let mut bytes = store.encode_cache().unwrap();
    bytes.extend_from_slice(b"trailing");
    let error = EmbeddingStore::load(&bytes, false).err().unwrap();
    assert!(error.message().contains("trailing bytes"));
}

#[test]
fn cache_rejects_wrong_vector_space() {
    let store = make_store();
    let bytes = store.encode_cache().unwrap();
    let mut expected = test_identity(3);
    expected.model = "different-model".to_string();
    let error = EmbeddingStore::load_for_space(&bytes, &expected, 3, false).err().unwrap();
    assert!(error.message().contains("identity mismatch"));
}

/// A cache file written field by field: magic, schema version, identity, the
/// first pass and the entries.
fn cache_bytes(entries: Vec<(&str, [u8; 32], Vec<f32>)>) -> Vec<u8> {
    let identity = (0u32, "test-model", None::<[u8; 32]>, 3usize, EMBEDDING_INPUT_VERSION);
    bincode::serde::encode_to_vec(
        (*b"OBSMCPEM", 1u16, identity, true, entries),
        bincode::config::standard(),
    )
    .unwrap()
}

#[test]
fn cache_rejects_duplicate_normalized_paths() {
    let bytes = cache_bytes(vec![
        ("Cafe\u{301}.md", prepared_text_hash("one"), vec![1.0, 0.0, 0.0]),
        ("Caf\u{e9}.md", prepared_text_hash("two"), vec![0.0, 1.0, 0.0]),
    ]);
    let error = EmbeddingStore::load(&bytes, false).err().unwrap();
    assert!(error.message().contains("duplicate path"), "{}", error.message());
}

#[test]
fn cache_rejects_non_finite_vectors() {
    let bytes = cache_bytes(vec![("bad.md", prepared_text_hash("bad"), vec![1.0, f32::NAN, 0.0])]);
    let error = EmbeddingStore::load(&bytes, false).err().unwrap();
    assert!(error.message().contains("non-finite"), "{}", error.message());
}

#[test]
fn cache_reads_what_the_format_describes() {
    let bytes = cache_bytes(vec![("a.md", prepared_text_hash("one"), vec![1.0, 0.5, -2.0])]);
    let store = EmbeddingStore::load(&bytes, false).unwrap();
    assert_eq!(store.get("a.md", false).unwrap(), &bits(&[1.0, 0.5, -2.0]));
    assert_eq!(store.identity().unwrap(), &test_identity(3));
    assert_eq!(store.encode_cache().unwrap(), bytes);
}

#[test]
fn cache_rejects_an_unknown_backend() {
    let written = |backend: u32| {
        let identity = (backend, "test-model", None::<[u8; 32]>, 3usize, EMBEDDING_INPUT_VERSION);
        let entries: Vec<(&str, [u8; 32], Vec<f32>)> = Vec::new();
        let whole = (*b"OBSMCPEM", 1u16, identity, true, entries);
        bincode::serde::encode_to_vec(whole, bincode::config::standard()).unwrap()
    };
    let backend = |bytes: Vec<u8>| {
        EmbeddingStore::load(&bytes, false).unwrap().identity().unwrap().backend
    };
    assert_eq!(backend(written(0)), EmbeddingBackendKind::Local);
    assert_eq!(backend(written(1)), EmbeddingBackendKind::Api);
    let error = EmbeddingStore::load(&written(2), false).err().unwrap();
    assert!(error.message().starts_with("cache deserialize error: "), "{}", error.message());
    assert!(error.message().contains('2'), "{}", error.message());
}

#[test]
fn cached_paths_are_relative_on_the_system() {
    let bytes = cache_bytes(vec![("C:a.md", prepared_text_hash("one"), vec![1.0, 0.5, -2.0])]);
    assert!(EmbeddingStore::load(&bytes, false).is_ok());
    assert!(EmbeddingStore::load(&bytes, true).is_err());
}

#[test]
fn a_note_is_written_as_it_was_spelled() {
    let mut store = EmbeddingStore::new_with_identity(test_identity(3));
    let vector = || bits(&[1.0, 0.0, 0.0]);
    store.insert_hashed("a//b.md", prepared_text_hash("b"), vector(), false).unwrap();
    store.insert_hashed("a/b.md", prepared_text_hash("c"), vector(), false).unwrap();
    let bytes = store.encode_cache().unwrap();
    let error = EmbeddingStore::load(&bytes, false).err().unwrap();
    assert_eq!(error.message(), "embedding cache path is not normalized: 'a//b.md'");
    // Once it has left the store, it comes back with another spelling.
    store.remove("a/./b.md", false);
    store.insert_hashed("a/b.md", prepared_text_hash("c"), vector(), false).unwrap();
    let loaded = EmbeddingStore::load(&store.encode_cache().unwrap(), false).unwrap();
    assert_eq!(loaded.content_hash("a//b.md", false), Some(&prepared_text_hash("c")));
    assert_eq!(loaded.path_at("a/b.md").map(String::as_str), Some("a/b.md"));
}

#[test]
fn notes_are_written_in_the_order_of_their_spelling() {
    let mut store = EmbeddingStore::new_with_identity(test_identity(3));
    for path in ["b.md", "a/b.md", "a//z.md"] {
        let vector = bits(&[1.0, 0.0, 0.0]);
        store.insert_hashed(path, prepared_text_hash("x"), vector, false).unwrap();
    }
    store.set_first_pass_complete(true);
    assert_eq!(store.keys(), vec!["a/b.md", "a/z.md", "b.md"]);
    let entry = |path| (path, prepared_text_hash("x"), vec![1.0, 0.0, 0.0]);
    let expected = cache_bytes(vec![entry("a//z.md"), entry("a/b.md"), entry("b.md")]);
    assert_eq!(store.encode_cache().unwrap(), expected);
}

#[test]
fn an_embedding_request_is_json() {
    let body = embedding_request("m\"1", &vec!["a\nb".into(), "c".into()]);
    assert_eq!(
        body,
        "{\"encoding_format\":\"float\",\"input\":[\"a\\nb\",\"c\"],\"model\":\"m\\\"1\"}"
    );
    assert!(embedding_request("m", &Vec::new()).contains("\"input\":[]"));
}

#[test]
fn a_cache_is_brought_from_the_first_place_that_holds_one() {
    let sources: Vec<String> = vec!["/old/a".into(), "/old/b".into()];
    let plan = |present: [bool; 2], exists| {
        plan_relocation(&sources, &present.to_vec(), "/new".into(), exists)
    };
    let found = plan([false, true], false);
    assert_eq!(found.copy_from.as_deref(), Some("/old/b"));
    assert_eq!(found.outcome, LegacyCacheMigration::Migrated("/new".into()));
    assert_eq!(plan([true, true], false).copy_from.as_deref(), Some("/old/a"));
    let kept = plan([true, true], true);
    assert_eq!(kept.copy_from, None);
    assert_eq!(kept.outcome, LegacyCacheMigration::AlreadyPresent("/new".into()));
    assert_eq!(plan([false, false], false).outcome, LegacyCacheMigration::NotFound);
}

#[test]
fn a_note_is_found_under_every_spelling_of_its_path() {
    let mut store = EmbeddingStore::new(3);
    store.insert("a//b.md", bits(&[1.0, 0.0, 0.0]), false);
    assert!(store.get("a/b.md", false).is_some());
    assert_eq!(store.keys(), vec!["a/b.md"]);
    assert_eq!(store.path_at("a/b.md").map(String::as_str), Some("a//b.md"));
    assert_eq!(store.query(&vec![7], 1), vec![("a//b.md".to_string(), 7)]);
    let hash = prepared_text_hash("b");
    store.insert_hashed("a/./b.md", hash, bits(&[0.0, 1.0, 0.0]), false).unwrap();
    assert_eq!(store.len(), 1);
    assert_eq!(store.content_hash("a/b.md/", false), Some(&prepared_text_hash("b")));
    assert_eq!(store.get(r"a\b.md", true), store.get("a/b.md", false));
    assert!(store.get(r"a\b.md", false).is_none());
    assert!(store.remove("a///b.md", false) && store.is_empty());
    let keys = path_keys(&vec!["a//b.md".into(), r"c\d.md".into()], true);
    assert!(keys.contains_key("a/b.md") && keys.contains_key("c/d.md") && keys.len() == 2);
}

#[test]
fn cache_rejects_truncated_bytes() {
    let mut bytes = make_store().encode_cache().unwrap();
    bytes.pop();
    let error = EmbeddingStore::load(&bytes, false).err().unwrap();
    assert!(error.message().starts_with("cache deserialize error"));
}

#[test]
fn store_without_identity_is_not_cached() {
    let error = EmbeddingStore::new(3).encode_cache().err().unwrap();
    assert_eq!(error.message(), "embedding store has no vector-space identity");
}

#[test]
fn prepare_embed_text_truncates_body() {
    let long_body: String = (0..600)
        .map(|i| format!("word{i}"))
        .collect::<Vec<_>>()
        .join(" ");
    let result = prepare_embed_text("Title", &[], &long_body);
    let word_count = result.lines().last().unwrap().split_whitespace().count();
    assert_eq!(word_count, MAX_BODY_WORDS);
}

#[test]
fn prepare_embed_text_joins_headings() {
    let headings = vec!["Introduction".to_string(), "Summary".to_string()];
    let result = prepare_embed_text("My Note", &headings, "Some body text.");
    assert!(result.starts_with("My Note\n"));
    assert!(result.contains("Introduction | Summary"));
    assert!(result.ends_with("Some body text."));
}

#[test]
fn prepare_embed_text_no_headings() {
    let result = prepare_embed_text("Title", &[], "Body here.");
    assert_eq!(result, "Title\nBody here.");
}

#[test]
fn prepare_embed_text_short_body_unchanged() {
    let body = "Short body with a few words.";
    let result = prepare_embed_text("T", &[], body);
    assert!(result.contains(body));
}

#[test]
fn migrate_legacy_cache_copies_once_and_keeps_source() {
    let plan = migrate_legacy_cache_to_daemon_store(
        migration_paths("/vault", "/home/semantic", "id", false),
        false,
        true,
        false,
    );
    assert_eq!(plan.copy_from.as_deref(), Some("/vault/.obsidian/obsidian-mcp/embeddings.bin"));
    let migrated = match plan.outcome {
        LegacyCacheMigration::Migrated(path) => path,
        other => panic!("expected migrated outcome, got: {other:?}"),
    };
    assert_eq!(migrated, "/home/semantic/vaults/id/embeddings.bin");

    let second = migrate_legacy_cache_to_daemon_store(
        migration_paths("/vault", "/home/semantic", "id", false),
        true,
        true,
        false,
    );
    assert_eq!(second.copy_from, None);
    assert_eq!(second.outcome, LegacyCacheMigration::AlreadyPresent(migrated));
}

#[test]
fn migrate_legacy_cache_without_source_is_noop() {
    let plan = migrate_legacy_cache_to_daemon_store(
        migration_paths("/vault", "/home/semantic", "id", false),
        false,
        false,
        false,
    );
    assert_eq!(plan.copy_from, None);
    assert_eq!(plan.outcome, LegacyCacheMigration::NotFound);
}

#[test]
fn migrate_legacy_cache_checks_daemon_store_first() {
    let plan = migrate_legacy_cache_to_daemon_store(
        migration_paths("/vault", "/home/semantic", "id", false),
        true,
        false,
        false,
    );
    assert_eq!(
        plan.outcome,
        LegacyCacheMigration::AlreadyPresent("/home/semantic/vaults/id/embeddings.bin".into())
    );
}

#[test]
fn migrate_legacy_cache_uses_new_source_as_fallback() {
    let plan = migrate_legacy_cache_to_daemon_store(
        migration_paths("/vault", "/home/semantic", "id", false),
        false,
        false,
        true,
    );
    assert_eq!(
        plan.copy_from.as_deref(),
        Some("/vault/.obsidian-mcp/embeddings/embeddings.bin")
    );
    assert!(matches!(plan.outcome, LegacyCacheMigration::Migrated(_)));
}

#[test]
fn migrate_legacy_cache_prefers_legacy_over_new() {
    let plan = migrate_legacy_cache_to_daemon_store(
        migration_paths("/vault", "/home/semantic", "id", false),
        false,
        true,
        true,
    );
    assert_eq!(plan.copy_from.as_deref(), Some("/vault/.obsidian/obsidian-mcp/embeddings.bin"));
}

#[test]
fn resolve_provider_explicit_local() {
    let result = resolve_provider(Some(EmbeddingProvider::Local), true, true);
    assert_eq!(result, EmbeddingProvider::Local);
}

#[test]
fn resolve_provider_explicit_api() {
    let result = resolve_provider(Some(EmbeddingProvider::Api), true, true);
    assert_eq!(result, EmbeddingProvider::Api);
}

#[test]
fn resolve_provider_none_infers_from_features() {
    assert_eq!(resolve_provider(None, true, true), EmbeddingProvider::Local);
    assert_eq!(resolve_provider(None, true, false), EmbeddingProvider::Local);
    assert_eq!(resolve_provider(None, false, true), EmbeddingProvider::Api);
}

#[test]
fn a_provider_that_is_not_compiled_in_is_refused() {
    let error = loadable_provider(Some(EmbeddingProvider::Api), true, false).unwrap_err();
    assert_eq!(
        error.message(),
        "API embedding backend not compiled (needs --features embeddings-api)"
    );
    let error = loadable_provider(Some(EmbeddingProvider::Local), false, true).unwrap_err();
    assert_eq!(
        error.message(),
        "local embedding backend not compiled (needs --features embeddings)"
    );
    assert_eq!(loadable_provider(None, false, true), Ok(EmbeddingProvider::Api));
}

fn numbers(values: &[f32]) -> Option<Vec<ReplyNumber>> {
    Some(values.iter().map(|value| ReplyNumber::Bits(value.to_bits())).collect())
}

fn unindexed(values: &[f32]) -> ReplyItem {
    ReplyItem { index: ReplyIndex::Missing, embedding: numbers(values) }
}

fn indexed(index: u64, values: &[f32]) -> ReplyItem {
    ReplyItem { index: ReplyIndex::Unsigned(index), embedding: numbers(values) }
}

fn reply(items: Vec<ReplyItem>) -> EmbeddingReply {
    EmbeddingReply { data: Some(items) }
}

#[test]
fn parse_valid_single_embedding() {
    let result = parse_embedding_response(&reply(vec![unindexed(&[0.1, 0.2, 0.3])]), 1).unwrap();
    assert_eq!(result.len(), 1);
    assert_eq!(result[0].len(), 3);
    assert!((f32::from_bits(result[0][0]) - 0.1).abs() < 1e-6);
}

#[test]
fn parse_valid_multiple_embeddings() {
    let result =
        parse_embedding_response(&reply(vec![unindexed(&[0.1, 0.2]), unindexed(&[0.3, 0.4])]), 2)
            .unwrap();
    assert_eq!(result.len(), 2);
    assert_eq!(result[0], bits(&[0.1f32, 0.2]));
    assert_eq!(result[1], bits(&[0.3f32, 0.4]));
}

#[test]
fn parse_missing_data_field() {
    let err = parse_embedding_response(&EmbeddingReply { data: None }, 1).unwrap_err();
    assert!(err.message().contains("missing 'data' array"));
}

#[test]
fn parse_missing_embedding_in_item() {
    let item = ReplyItem { index: ReplyIndex::Unsigned(0), embedding: None };
    let err = parse_embedding_response(&reply(vec![item]), 1).unwrap_err();
    assert!(err.message().contains("missing 'embedding' array"));
}

#[test]
fn parse_non_numeric_value_in_vector() {
    let item = ReplyItem {
        index: ReplyIndex::Missing,
        embedding: Some(vec![
            ReplyNumber::Bits(0.1f32.to_bits()),
            ReplyNumber::NotNumber,
            ReplyNumber::Bits(0.3f32.to_bits()),
        ]),
    };
    let err = parse_embedding_response(&reply(vec![item]), 1).unwrap_err();
    assert!(err.message().contains("non-numeric value"));
}

#[test]
fn parse_reorders_by_index_field() {
    let result =
        parse_embedding_response(&reply(vec![indexed(1, &[0.3, 0.4]), indexed(0, &[0.1, 0.2])]), 2)
            .unwrap();
    assert_eq!(result.len(), 2);
    assert_eq!(result[0], bits(&[0.1f32, 0.2]));
    assert_eq!(result[1], bits(&[0.3f32, 0.4]));
}

#[test]
fn parse_falls_back_to_array_order_without_index() {
    let result =
        parse_embedding_response(&reply(vec![unindexed(&[0.1, 0.2]), unindexed(&[0.3, 0.4])]), 2)
            .unwrap();
    assert_eq!(result[0], bits(&[0.1f32, 0.2]));
    assert_eq!(result[1], bits(&[0.3f32, 0.4]));
}

#[test]
fn parse_empty_data_array() {
    let result = parse_embedding_response(&reply(vec![]), 0).unwrap();
    assert!(result.is_empty());
}

#[test]
fn parse_empty_embedding_vector() {
    let result = parse_embedding_response(&reply(vec![unindexed(&[])]), 1).unwrap();
    assert_eq!(result.len(), 1);
    assert!(result[0].is_empty());
}

#[test]
fn parse_rejects_partial_response() {
    let error = parse_embedding_response(&reply(vec![unindexed(&[0.1, 0.2])]), 2).err().unwrap();
    assert!(error.message().contains("1 vectors for 2 inputs"));
}

#[test]
fn parse_rejects_mixed_index_presence() {
    let error =
        parse_embedding_response(&reply(vec![indexed(0, &[0.1, 0.2]), unindexed(&[0.3, 0.4])]), 2)
            .err()
            .unwrap();
    assert!(error.message().contains("mixed indexed and unindexed"));
}

#[test]
fn parse_rejects_duplicate_indices() {
    let error =
        parse_embedding_response(&reply(vec![indexed(0, &[0.1, 0.2]), indexed(0, &[0.3, 0.4])]), 2)
            .err()
            .unwrap();
    assert!(error.message().contains("not unique and contiguous"));
}

#[test]
fn parse_rejects_out_of_range_index() {
    let error =
        parse_embedding_response(&reply(vec![indexed(0, &[0.1, 0.2]), indexed(2, &[0.3, 0.4])]), 2)
            .err()
            .unwrap();
    assert!(error.message().contains("out of range"));
}

#[test]
fn common_validator_rejects_wrong_dimension_and_non_finite_values() {
    let wrong_dimension =
        validate_embedding_batch(vec![bits(&[0.1])], 1, 2).err().unwrap();
    assert!(wrong_dimension.message().contains("dimension mismatch"));

    let non_finite =
        validate_embedding_batch(vec![bits(&[0.1, f32::INFINITY])], 1, 2).err().unwrap();
    assert!(non_finite.message().contains("non-finite"));
}

#[test]
fn api_http_error_does_not_expose_url_key_body_or_input() {
    let error = match api_step(400, "400 Bad Request", None, 0) {
        ApiStep::Reject(error) => error,
        _ => panic!("a refused request fails"),
    };
    assert!(error.message().contains("HTTP status 400"), "{}", error.message());
    assert!(!error.message().contains("secret-url-component"));
    assert!(!error.message().contains("api-secret"));
    assert!(!error.message().contains("sensitive note body"));
}

#[test]
fn api_transport_error_does_not_expose_secret_url() {
    let error = transport_error(TransportFailure::Other);
    assert!(error.message().contains("embedding API"));
    assert!(!error.message().contains("secret-url-component"));
}

#[test]
fn read_env_with_fallback_primary_wins() {
    let result = read_env_with_fallback(Some("primary_value"), Some("fallback_value"));
    assert_eq!(result, Some("primary_value".to_string()));
}

#[test]
fn read_env_with_fallback_uses_fallback() {
    let result = read_env_with_fallback(None, Some("fallback_value"));
    assert_eq!(result, Some("fallback_value".to_string()));
}

#[test]
fn read_env_with_fallback_returns_none_when_both_missing() {
    assert_eq!(read_env_with_fallback(None, None), None);
}

#[test]
fn read_env_with_fallback_ignores_empty_primary() {
    let result = read_env_with_fallback(Some("  "), Some("valid"));
    assert_eq!(result, Some("valid".to_string()));
}

#[test]
fn parse_usize_env_valid() {
    assert_eq!(parse_usize_env(Some("384")), Some(384));
}

#[test]
fn parse_usize_env_invalid() {
    assert_eq!(parse_usize_env(Some("not_a_number")), None);
}

#[test]
fn parse_usize_env_missing() {
    assert_eq!(parse_usize_env(None), None);
}

#[test]
fn fingerprints_ignore_space_and_trailing_slashes() {
    let plain = endpoint_fingerprint("https://api.example/v1");
    assert_eq!(plain, endpoint_fingerprint(" https://api.example/v1// "));
    assert_ne!(plain, endpoint_fingerprint("https://api.example/v2"));
    assert_eq!(short_fingerprint(&plain).len(), 12);
    // SHA-256 of the empty text.
    assert_eq!(short_fingerprint(&prepared_text_hash("")), "e3b0c44298fc");
}

#[test]
fn api_settings_follow_the_environment() {
    let environment = ApiEnvironment {
        api_key: None,
        fallback_api_key: Some(" key ".into()),
        base_url: None,
        fallback_base_url: Some("https://api.example/v1/".into()),
        model: None,
        fallback_model: None,
        dimension: Some("12".into()),
    };
    let settings = api_settings(&environment, "named-model").unwrap();
    assert_eq!(settings.api_key, "key");
    assert_eq!(settings.dimension, Some(12));
    assert_eq!(embeddings_url("https://api.example/v1/"), "https://api.example/v1/embeddings");
    assert!(tls_verification_disabled(Some("0")));
    assert!(tls_verification_disabled(Some("FALSE")));
    assert!(!tls_verification_disabled(Some("1")));
    assert!(!tls_verification_disabled(None));
}

#[test]
fn a_model_checks_what_its_backend_returns() {
    let model = EmbeddingModel { dim: 2, identity: test_identity(2) };
    assert_eq!(model.dim(), 2);
    assert!(model.embed_batch(Ok(vec![bits(&[1.0, 2.0])]), 1).is_ok());
    assert!(model.embed_batch(Ok(vec![bits(&[1.0])]), 1).is_err());
    assert!(model.embed_batch(Err(VaultError::Embedding("down".into())), 1).is_err());
    assert_eq!(model.embed_one(vec![bits(&[1.0, 2.0])]).unwrap(), bits(&[1.0, 2.0]));
    assert!(model.embed_one(vec![]).is_err());
    assert!(query_vector(vec![]).is_err());
    assert_eq!(probed_dimension(&vec![bits(&[1.0, 2.0])]), Ok(2));
    assert!(probed_dimension(&vec![vec![]]).is_err());
}
