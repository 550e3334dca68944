//! The embedding store, its cache and the rules of the embedding backends.
//!
//! A vector component is held as the 32 bits of an IEEE 754 single. The store
//! never computes with components; it only has to tell finite ones from others.

use crate::error::{VaultError, VaultErrorView};
use crate::keyed::Keyed;
use crate::number::{decimal, hex, to_decimal, to_hex};
use crate::order::strictly_sorted;
use crate::path::{components, key_of_path, path_key, spellings_share_a_key};
use crate::text::{
    cat3, cat4, cat5, is_space, join, joined, joined_words_split_back, same, split_words, texts, trim,
    trim_end_char, trimmed, trimming_is_idempotent, without_trailing, words, words_hold_no_space,
};
use crate::vault::codec::opt_digest;
use crate::vault::digest::{same_digest, sha256, sha256_of};
use vstd::prelude::*;
use vstd::utf8::encode_utf8;

verus! {

/// The version of the text that is embedded for a note.
pub const EMBEDDING_INPUT_VERSION: u16 = 1;

/// The number of words of a note's body that are embedded.
pub const MAX_BODY_WORDS: usize = 400;

/// The kind of backend that made a vector.
#[derive(Debug, Clone, Copy, PartialEq, Eq, Structural)]
pub enum EmbeddingBackendKind {
    Local,
    Api,
}

/// The backend to load.
#[derive(Debug, Clone, Copy, PartialEq, Eq, Structural)]
pub enum EmbeddingProvider {
    Local,
    Api,
}

/// Identifies the complete vector space represented by an embedding cache.
#[derive(Debug, Clone, PartialEq, Eq)]
pub struct EmbeddingSpaceIdentity {
    pub backend: EmbeddingBackendKind,
    pub model: String,
    pub endpoint_fingerprint: Option<[u8; 32]>,
    pub dimension: usize,
    pub input_version: u16,
}

/// A vector-space identity as mathematical values.
pub struct IdentityView {
    pub backend: EmbeddingBackendKind,
    pub model: Seq<char>,
    pub endpoint_fingerprint: Option<Seq<u8>>,
    pub dimension: usize,
    pub input_version: u16,
}

impl View for EmbeddingSpaceIdentity {
    type V = IdentityView;

    open spec fn view(&self) -> IdentityView {
        IdentityView {
            backend: self.backend,
            model: self.model@,
            endpoint_fingerprint: opt_digest(self.endpoint_fingerprint),
            dimension: self.dimension,
            input_version: self.input_version,
        }
    }
}

/// The digest that stands for an API endpoint: surrounding white space and
/// trailing slashes do not matter.
pub open spec fn endpoint_digest(base_url: Seq<char>) -> Seq<u8> {
    sha256(encode_utf8(without_trailing(trimmed(base_url), '/')))
}

impl EmbeddingSpaceIdentity {
    /// The vector space of a local model.
    pub fn local(model: String, dimension: usize) -> (identity: Self)
        ensures
            identity@ == (IdentityView {
                backend: EmbeddingBackendKind::Local,
                model: model@,
                endpoint_fingerprint: None,
                dimension,
                input_version: EMBEDDING_INPUT_VERSION,
            }),
    {
        EmbeddingSpaceIdentity {
            backend: EmbeddingBackendKind::Local,
            model,
            endpoint_fingerprint: None,
            dimension,
            input_version: EMBEDDING_INPUT_VERSION,
        }
    }

    /// The vector space of a model behind an API.
    pub fn api(model: String, base_url: &str, dimension: usize) -> (identity: Self)
        ensures
            identity@ == (IdentityView {
                backend: EmbeddingBackendKind::Api,
                model: model@,
                endpoint_fingerprint: Some(endpoint_digest(base_url@)),
                dimension,
                input_version: EMBEDDING_INPUT_VERSION,
            }),
    {
        EmbeddingSpaceIdentity {
            backend: EmbeddingBackendKind::Api,
            model,
            endpoint_fingerprint: Some(endpoint_fingerprint(base_url)),
            dimension,
            input_version: EMBEDDING_INPUT_VERSION,
        }
    }

    /// A copy of the identity.
    pub fn copied(&self) -> (identity: Self)
        ensures
            identity@ == self@,
    {
        EmbeddingSpaceIdentity {
            backend: self.backend,
            model: self.model.clone(),
            endpoint_fingerprint: self.endpoint_fingerprint,
            dimension: self.dimension,
            input_version: self.input_version,
        }
    }

    /// Whether both identify the same vector space.
    pub fn same_space(&self, other: &EmbeddingSpaceIdentity) -> (equal: bool)
        ensures
            equal == (self@ == other@),
    {
        let fingerprints = match (&self.endpoint_fingerprint, &other.endpoint_fingerprint) {
            (None, None) => true,
            (Some(a), Some(b)) => same_digest(a, b),
            _ => false,
        };
        self.backend == other.backend && fingerprints && self.dimension == other.dimension
            && self.input_version == other.input_version && same(
            self.model.as_str(),
            other.model.as_str(),
        )
    }
}

/// The digest that stands for an API endpoint.
pub fn endpoint_fingerprint(base_url: &str) -> (digest: [u8; 32])
    ensures
        digest@ == endpoint_digest(base_url@),
{
    let text = trim(base_url);
    let normalized = trim_end_char(text.as_str(), '/');
    sha256_of(normalized.as_str().as_bytes())
}

/// The first six bytes of an endpoint digest in hexadecimal.
pub fn short_fingerprint(fingerprint: &[u8; 32]) -> (short: String)
    ensures
        short@ == hex(fingerprint@.take(6)),
{
    let mut head: Vec<u8> = Vec::new();
    let mut i: usize = 0;
    while i < 6
        invariant
            i <= 6,
            head@ == fingerprint@.take(i as int),
        decreases 6 - i,
    {
        head.push(fingerprint[i]);
        i += 1;
    }
    to_hex(&head)
}

/// The digest of a prepared note text.
pub fn prepared_text_hash(text: &str) -> (digest: [u8; 32])
    ensures
        digest@ == sha256(encode_utf8(text@)),
{
    sha256_of(text.as_bytes())
}

/// Whether a component is a finite number.
pub open spec fn finite(bits: u32) -> bool {
    (bits / 0x80_0000) % 0x100 != 0xff
}

/// Whether every component of a vector is a finite number.
pub open spec fn all_finite(vector: Seq<u32>) -> bool {
    forall|i: int| 0 <= i < vector.len() ==> finite(#[trigger] vector[i])
}

/// What is wrong with a vector for a space of dimension `dim`, if anything.
pub open spec fn vector_fault(vector: Seq<u32>, dim: nat) -> Option<VaultErrorView> {
    if vector.len() != dim {
        Some(
            VaultErrorView::Embedding(
                "embedding dimension mismatch: expected "@ + decimal(dim) + ", got "@ + decimal(
                    vector.len(),
                ),
            ),
        )
    } else if !all_finite(vector) {
        Some(VaultErrorView::Embedding("embedding vector contains a non-finite value"@))
    } else {
        None
    }
}

/// The fault that a check reports.
pub open spec fn fault_of(result: Result<(), VaultError>) -> Option<VaultErrorView> {
    match result {
        Ok(_) => None,
        Err(error) => Some(error@),
    }
}

/// Checks the length and the components of a vector.
pub fn validate_vector(vector: &Vec<u32>, expected_dim: usize) -> (result: Result<(), VaultError>)
    ensures
        fault_of(result) == vector_fault(vector@, expected_dim as nat),
{
    if vector.len() != expected_dim {
        let expected = to_decimal(expected_dim as u64);
        let got = to_decimal(vector.len() as u64);
        return Err(
            VaultError::Embedding(
                cat4(
                    "embedding dimension mismatch: expected ",
                    expected.as_str(),
                    ", got ",
                    got.as_str(),
                ),
            ),
        );
    }
    let mut i: usize = 0;
    while i < vector.len()
        invariant
            i <= vector@.len(),
            vector@.len() == expected_dim,
            forall|k: int| 0 <= k < i ==> finite(#[trigger] vector@[k]),
        decreases vector@.len() - i,
    {
        if (vector[i] / 0x80_0000) % 0x100 == 0xff {
            assert(!finite(vector@[i as int]));
            return Err(
                VaultError::Embedding("embedding vector contains a non-finite value".to_owned()),
            );
        }
        i += 1;
    }
    Ok(())
}

/// What is wrong with a batch of vectors, if anything: the first fault counts.
pub open spec fn batch_fault(
    vectors: Seq<Vec<u32>>,
    expected_count: nat,
    expected_dim: nat,
) -> Option<VaultErrorView> {
    if vectors.len() != expected_count {
        Some(
            VaultErrorView::Embedding(
                "embedding backend returned "@ + decimal(vectors.len()) + " vectors for "@
                    + decimal(expected_count) + " inputs"@,
            ),
        )
    } else {
        first_vector_fault(vectors, expected_dim, 0)
    }
}

/// The fault of the first faulty vector at or after position `i`.
pub open spec fn first_vector_fault(vectors: Seq<Vec<u32>>, dim: nat, i: int) -> Option<
    VaultErrorView,
>
    decreases vectors.len() - i,
{
    if i < 0 || i >= vectors.len() {
        None
    } else if vector_fault(vectors[i]@, dim) is Some {
        vector_fault(vectors[i]@, dim)
    } else {
        first_vector_fault(vectors, dim, i + 1)
    }
}

/// Checks that a backend gave one valid vector for each input.
pub fn validate_embedding_batch(
    vectors: Vec<Vec<u32>>,
    expected_count: usize,
    expected_dim: usize,
) -> (result: Result<Vec<Vec<u32>>, VaultError>)
    ensures
        match result {
            Ok(checked) => checked == vectors && batch_fault(
                vectors@,
                expected_count as nat,
                expected_dim as nat,
            ) is None,
            Err(error) => batch_fault(vectors@, expected_count as nat, expected_dim as nat) == Some(
                error@,
            ),
        },
{
    if vectors.len() != expected_count {
        let got = to_decimal(vectors.len() as u64);
        let expected = to_decimal(expected_count as u64);
        return Err(
            VaultError::Embedding(
                cat5(
                    "embedding backend returned ",
                    got.as_str(),
                    " vectors for ",
                    expected.as_str(),
                    " inputs",
                ),
            ),
        );
    }
    let mut i: usize = 0;
    while i < vectors.len()
        invariant
            i <= vectors@.len(),
            first_vector_fault(vectors@, expected_dim as nat, 0) == first_vector_fault(
                vectors@,
                expected_dim as nat,
                i as int,
            ),
            batch_fault(vectors@, expected_count as nat, expected_dim as nat)
                == first_vector_fault(vectors@, expected_dim as nat, 0),
        decreases vectors@.len() - i,
    {
        match validate_vector(&vectors[i], expected_dim) {
            Ok(_) => {},
            Err(error) => {
                return Err(error);
            },
        }
        i += 1;
    }
    Ok(vectors)
}

/// What the store holds for one note.
#[derive(Debug, Clone)]
pub struct EmbeddingEntry {
    /// The path as it was spelled when the note came into the store.
    pub path: String,
    pub vector: Vec<u32>,
    pub content_hash: Option<[u8; 32]>,
}

/// What the store holds for one note, as mathematical values.
#[verifier::ext_equal]
pub struct EntryView {
    pub path: Seq<char>,
    pub vector: Seq<u32>,
    pub content_hash: Option<Seq<u8>>,
}

impl View for EmbeddingEntry {
    type V = EntryView;

    open spec fn view(&self) -> EntryView {
        EntryView {
            path: self.path@,
            vector: self.vector@,
            content_hash: opt_digest(self.content_hash),
        }
    }
}

/// In-memory store mapping vault-relative note paths to embedding vectors. A note
/// is found under every spelling of its path, since it is kept under the key of the
/// path; the spelling that it came with is kept beside its vector.
pub struct EmbeddingStore {
    embeddings: Keyed<EmbeddingEntry>,
    dim: usize,
    identity: Option<EmbeddingSpaceIdentity>,
    first_pass_complete: bool,
}

/// The contents of a store.
#[verifier::ext_equal]
pub struct StoreView {
    pub entries: Map<Seq<char>, EntryView>,
    pub dim: usize,
    pub identity: Option<IdentityView>,
    pub first_pass_complete: bool,
}

/// The optional identity of a store.
pub open spec fn opt_identity(identity: Option<EmbeddingSpaceIdentity>) -> Option<IdentityView> {
    match identity {
        Some(value) => Some(value@),
        None => None,
    }
}

impl View for EmbeddingStore {
    type V = StoreView;

    closed spec fn view(&self) -> StoreView {
        StoreView {
            entries: self.embeddings@,
            dim: self.dim,
            identity: opt_identity(self.identity),
            first_pass_complete: self.first_pass_complete,
        }
    }
}

/// Whether every vector of a store has the store's dimension and finite components.
pub open spec fn consistent(store: StoreView) -> bool {
    forall|path: Seq<char>| #[trigger]
        store.entries.contains_key(path) ==> vector_fault(
            store.entries[path].vector,
            store.dim as nat,
        ) is None
}

/// A store without entries.
pub open spec fn empty_store(dim: usize, identity: Option<IdentityView>) -> StoreView {
    StoreView { entries: Map::empty(), dim, identity, first_pass_complete: false }
}

/// A store with an entry under `key`.
pub open spec fn with_entry(store: StoreView, key: Seq<char>, entry: EntryView) -> StoreView {
    StoreView { entries: store.entries.insert(key, entry), ..store }
}

/// The spelling of a note's path: that in the store where the note is there
/// already, else the given one.
pub open spec fn kept_spelling(store: StoreView, key: Seq<char>, path: Seq<char>) -> Seq<char> {
    if store.entries.contains_key(key) {
        store.entries[key].path
    } else {
        path
    }
}

/// A store in which the note under `key` has a vector and a digest. A new note is
/// spelled as `path`; another keeps its spelling.
pub open spec fn with_note(
    store: StoreView,
    key: Seq<char>,
    path: Seq<char>,
    vector: Seq<u32>,
    content_hash: Option<Seq<u8>>,
) -> StoreView {
    with_entry(
        store,
        key,
        EntryView { path: kept_spelling(store, key, path), vector, content_hash },
    )
}

/// Whether every note is kept under the key of its path.
pub open spec fn well_spelled(store: StoreView, windows: bool) -> bool {
    forall|key: Seq<char>| #[trigger]
        store.entries.contains_key(key) ==> path_key(store.entries[key].path, windows) == key
}

/// A store without an entry under `key`.
pub open spec fn without_entry(store: StoreView, key: Seq<char>) -> StoreView {
    StoreView { entries: store.entries.remove(key), ..store }
}

/// A store with only the entries whose keys are in `paths`.
pub open spec fn retained(store: StoreView, paths: Set<Seq<char>>) -> StoreView {
    StoreView { entries: store.entries.restrict(paths), ..store }
}

impl EmbeddingStore {
    /// An empty store for vectors of the given dimension.
    pub fn new(dim: usize) -> (store: Self)
        ensures
            store@ == empty_store(dim, None),
    {
        EmbeddingStore { embeddings: Keyed::new(), dim, identity: None, first_pass_complete: false }
    }

    /// An empty store for a known vector space.
    pub fn new_with_identity(identity: EmbeddingSpaceIdentity) -> (store: Self)
        ensures
            store@ == empty_store(identity.dimension, Some(identity@)),
    {
        EmbeddingStore {
            embeddings: Keyed::new(),
            dim: identity.dimension,
            identity: Some(identity),
            first_pass_complete: false,
        }
    }

    /// A store with the given entries for a known vector space.
    pub fn from_entries(
        embeddings: Keyed<EmbeddingEntry>,
        identity: EmbeddingSpaceIdentity,
        first_pass_complete: bool,
    ) -> (store: Self)
        ensures
            store@ == (StoreView {
                entries: embeddings@,
                dim: identity.dimension,
                identity: Some(identity@),
                first_pass_complete,
            }),
    {
        EmbeddingStore {
            embeddings,
            dim: identity.dimension,
            identity: Some(identity),
            first_pass_complete,
        }
    }

    fn spelling_for(&self, key: &str, path: &str) -> (spelling: String)
        ensures
            spelling@ == kept_spelling(self@, key@, path@),
    {
        match self.embeddings.get(key) {
            Some(entry) => entry.path.clone(),
            None => path.to_owned(),
        }
    }

    /// Sets the vector of a note, without a digest of its text. An invalid
    /// vector is ignored.
    pub fn insert(&mut self, path: &str, vec: Vec<u32>, windows: bool)
        ensures
            vector_fault(vec@, old(self)@.dim as nat) is Some ==> final(self)@ == old(self)@,
            vector_fault(vec@, old(self)@.dim as nat) is None ==> final(self)@ == (StoreView {
                first_pass_complete: false,
                ..with_note(old(self)@, path_key(path@, windows), path@, vec@, None)
            }),
            consistent(old(self)@) ==> consistent(final(self)@),
            well_spelled(old(self)@, windows) ==> well_spelled(final(self)@, windows),
    {
        if validate_vector(&vec, self.dim).is_err() {
            return;
        }
        let key = key_of_path(path, windows);
        let spelling = self.spelling_for(key.as_str(), path);
        self.embeddings.insert(
            key,
            EmbeddingEntry { path: spelling, vector: vec, content_hash: None },
        );
        self.first_pass_complete = false;
    }

    /// Sets the vector of a note and the digest of the text it was made from.
    pub fn insert_hashed(
        &mut self,
        path: &str,
        content_hash: [u8; 32],
        vector: Vec<u32>,
        windows: bool,
    ) -> (result: Result<(), VaultError>)
        ensures
            fault_of(result) == vector_fault(vector@, old(self)@.dim as nat),
            result is Err ==> final(self)@ == old(self)@,
            result is Ok ==> final(self)@ == with_note(
                old(self)@,
                path_key(path@, windows),
                path@,
                vector@,
                Some(content_hash@),
            ),
            consistent(old(self)@) ==> consistent(final(self)@),
            well_spelled(old(self)@, windows) ==> well_spelled(final(self)@, windows),
    {
        let key = key_of_path(path, windows);
        self.put_spelled(key, path, content_hash, vector)
    }

    fn put_spelled(
        &mut self,
        key: String,
        path: &str,
        content_hash: [u8; 32],
        vector: Vec<u32>,
    ) -> (result: Result<(), VaultError>)
        ensures
            fault_of(result) == vector_fault(vector@, old(self)@.dim as nat),
            result is Err ==> final(self)@ == old(self)@,
            result is Ok ==> final(self)@ == with_note(
                old(self)@,
                key@,
                path@,
                vector@,
                Some(content_hash@),
            ),
            consistent(old(self)@) ==> consistent(final(self)@),
    {
        match validate_vector(&vector, self.dim) {
            Ok(_) => {},
            Err(error) => {
                return Err(error);
            },
        }
        let spelling = self.spelling_for(key.as_str(), path);
        self.embeddings.insert(
            key,
            EmbeddingEntry { path: spelling, vector, content_hash: Some(content_hash) },
        );
        Ok(())
    }

    /// As `insert_hashed`, for a path in its normal form, which is its own key.
    pub(crate) fn put(&mut self, path: &str, content_hash: [u8; 32], vector: Vec<u32>) -> (result:
        Result<(), VaultError>)
        ensures
            fault_of(result) == vector_fault(vector@, old(self)@.dim as nat),
            result is Err ==> final(self)@ == old(self)@,
            result is Ok ==> final(self)@ == with_note(
                old(self)@,
                path@,
                path@,
                vector@,
                Some(content_hash@),
            ),
            consistent(old(self)@) ==> consistent(final(self)@),
    {
        self.put_spelled(path.to_owned(), path, content_hash, vector)
    }

    /// Removes a note's vector and tells whether there was one.
    pub fn remove(&mut self, path: &str, windows: bool) -> (removed: bool)
        ensures
            removed == old(self)@.entries.contains_key(path_key(path@, windows)),
            final(self)@ == without_entry(old(self)@, path_key(path@, windows)),
            consistent(old(self)@) ==> consistent(final(self)@),
            well_spelled(old(self)@, windows) ==> well_spelled(final(self)@, windows),
    {
        let key = key_of_path(path, windows);
        self.drop_key(key.as_str())
    }

    /// As `remove`, under a key.
    pub(crate) fn drop_key(&mut self, key: &str) -> (removed: bool)
        ensures
            removed == old(self)@.entries.contains_key(key@),
            final(self)@ == without_entry(old(self)@, key@),
            consistent(old(self)@) ==> consistent(final(self)@),
    {
        let removed = self.embeddings.remove(key);
        removed.is_some()
    }

    /// A note's vector.
    pub fn get(&self, path: &str, windows: bool) -> (vector: Option<&Vec<u32>>)
        ensures
            match vector {
                Some(v) => self@.entries.contains_key(path_key(path@, windows)) && v@
                    == self@.entries[path_key(path@, windows)].vector,
                None => !self@.entries.contains_key(path_key(path@, windows)),
            },
    {
        let key = key_of_path(path, windows);
        self.vector_at(key.as_str())
    }

    /// The vector under a key, such as `keys` lists them.
    pub fn vector_at(&self, key: &str) -> (vector: Option<&Vec<u32>>)
        ensures
            match vector {
                Some(v) => self@.entries.contains_key(key@) && v@ == self@.entries[key@].vector,
                None => !self@.entries.contains_key(key@),
            },
    {
        match self.embeddings.get(key) {
            Some(entry) => Some(&entry.vector),
            None => None,
        }
    }

    /// The digest of the text that a note's vector was made from.
    pub fn content_hash(&self, path: &str, windows: bool) -> (hash: Option<&[u8; 32]>)
        ensures
            match hash {
                Some(h) => self@.entries.contains_key(path_key(path@, windows))
                    && self@.entries[path_key(path@, windows)].content_hash == Some(h@),
                None => self@.entries.contains_key(path_key(path@, windows))
                    ==> self@.entries[path_key(path@, windows)].content_hash is None,
            },
    {
        let key = key_of_path(path, windows);
        self.hash_at(key.as_str())
    }

    /// As `content_hash`, under a key.
    pub(crate) fn hash_at(&self, key: &str) -> (hash: Option<&[u8; 32]>)
        ensures
            match hash {
                Some(h) => self@.entries.contains_key(key@)
                    && self@.entries[key@].content_hash == Some(h@),
                None => self@.entries.contains_key(key@) ==> self@.entries[key@].content_hash
                    is None,
            },
    {
        match self.embeddings.get(key) {
            Some(entry) => match &entry.content_hash {
                Some(hash) => Some(hash),
                None => None,
            },
            None => None,
        }
    }

    /// The spelling of the note under a key.
    pub fn path_at(&self, key: &str) -> (path: Option<&String>)
        ensures
            match path {
                Some(text) => self@.entries.contains_key(key@) && text@
                    == self@.entries[key@].path,
                None => !self@.entries.contains_key(key@),
            },
    {
        match self.embeddings.get(key) {
            Some(entry) => Some(&entry.path),
            None => None,
        }
    }

    /// The number of notes with a vector.
    pub fn len(&self) -> (n: usize)
        ensures
            n == self@.entries.dom().len(),
            self@.entries.dom().finite(),
    {
        self.embeddings.len()
    }

    /// Whether no note has a vector.
    pub fn is_empty(&self) -> (empty: bool)
        ensures
            empty == (self@.entries.dom() == Set::<Seq<char>>::empty()),
    {
        let n: usize = self.embeddings.len();
        proof {
            let dom = self@.entries.dom();
            if n == 0 {
                assert(dom =~= Set::empty()) by {
                    dom.lemma_len0_is_empty();
                }
            } else {
                assert(dom.len() != 0);
            }
        }
        n == 0
    }

    /// The dimension of the vectors.
    pub fn dim(&self) -> (dim: usize)
        ensures
            dim == self@.dim,
    {
        self.dim
    }

    /// The vector space of the store.
    pub fn identity(&self) -> (identity: Option<&EmbeddingSpaceIdentity>)
        ensures
            match identity {
                Some(value) => self@.identity == Some(value@),
                None => self@.identity is None,
            },
    {
        self.identity.as_ref()
    }

    /// Whether the store has been brought up to date with the whole vault once.
    pub fn first_pass_complete(&self) -> (complete: bool)
        ensures
            complete == self@.first_pass_complete,
    {
        self.first_pass_complete
    }

    /// Sets whether the store has been brought up to date with the whole vault.
    pub fn set_first_pass_complete(&mut self, complete: bool)
        ensures
            final(self)@ == (StoreView { first_pass_complete: complete, ..old(self)@ }),
            consistent(old(self)@) ==> consistent(final(self)@),
    {
        self.first_pass_complete = complete;
    }

    /// Removes every note that is not in `paths` and tells whether any was removed.
    pub fn retain_paths(&mut self, paths: &Keyed<()>) -> (changed: bool)
        ensures
            final(self)@ == retained(old(self)@, paths@.dom()),
            changed == !old(self)@.entries.dom().subset_of(paths@.dom()),
            consistent(old(self)@) ==> consistent(final(self)@),
    {
        let ghost before_map = self.embeddings@;
        let total: usize = self.embeddings.len();
        let ghost keys = self.embeddings.keys();
        let mut stale: Vec<String> = Vec::new();
        let mut i: usize = 0;
        while i < total
            invariant
                i <= total,
                total == keys.len(),
                keys == self.embeddings.keys(),
                self.embeddings@ == before_map,
                keys.to_set() == before_map.dom(),
                forall|k: int| 0 <= k < stale@.len() ==> !paths@.contains_key(
                    (#[trigger] stale@[k])@,
                ) && before_map.contains_key(stale@[k]@),
                forall|k: int|
                    0 <= k < i && !paths@.contains_key(#[trigger] keys[k]) ==> texts(
                        stale@,
                    ).contains(keys[k]),
            decreases total - i,
        {
            let key = self.embeddings.key_at(i);
            if !paths.contains_key(key.as_str()) {
                let ghost before_stale = stale@;
                let copy = key.clone();
                stale.push(copy);
                proof {
                    let now = texts(stale@);
                    assert(now =~= texts(before_stale).push(keys[i as int]));
                    assert(now[before_stale.len() as int] == keys[i as int]);
                    assert forall|k: int| 0 <= k < i && !paths@.contains_key(
                        #[trigger] keys[k],
                    ) implies now.contains(keys[k]) by {
                        let j = texts(before_stale).index_of(keys[k]);
                        assert(now[j] == keys[k]);
                    }
                }
            }
            i += 1;
        }
        let mut j: usize = 0;
        while j < stale.len()
            invariant
                j <= stale@.len(),
                forall|k: int| 0 <= k < stale@.len() ==> !paths@.contains_key(
                    (#[trigger] stale@[k])@,
                ) && before_map.contains_key(stale@[k]@),
                forall|p: Seq<char>|
                    #![trigger self.embeddings@.contains_key(p)]
                    self.embeddings@.contains_key(p) <==> before_map.contains_key(p) && !texts(
                        stale@,
                    ).take(j as int).contains(p),
                forall|p: Seq<char>| #[trigger]
                    self.embeddings@.contains_key(p) ==> self.embeddings@[p] == before_map[p],
                self.dim == old(self).dim,
                self.identity == old(self).identity,
                self.first_pass_complete == old(self).first_pass_complete,
            decreases stale@.len() - j,
        {
            let ghost step = self.embeddings@;
            let ghost list = texts(stale@);
            let _ = self.embeddings.remove(stale[j].as_str());
            proof {
                assert(list.take(j + 1) =~= list.take(j as int).push(stale@[j as int]@));
                assert forall|p: Seq<char>|
                    #![trigger self.embeddings@.contains_key(p)]
                    self.embeddings@.contains_key(p) <==> before_map.contains_key(p) && !list.take(
                        j + 1,
                    ).contains(p) by {
                    let grown = list.take(j as int).push(stale@[j as int]@);
                    assert(grown[j as int] == stale@[j as int]@);
                    if list.take(j as int).contains(p) {
                        let k = list.take(j as int).index_of(p);
                        assert(grown[k] == p);
                    }
                    assert(step.contains_key(p) <==> before_map.contains_key(p) && !list.take(
                        j as int,
                    ).contains(p));
                    if grown.contains(p) {
                        let k = grown.index_of(p);
                        if k < j {
                            assert(list.take(j as int)[k] == p);
                        }
                    }
                }
            }
            j += 1;
        }
        proof {
            let list = texts(stale@);
            assert(list.take(j as int) =~= list);
            assert forall|p: Seq<char>| self.embeddings@.contains_key(p) <==> before_map.restrict(
                paths@.dom(),
            ).contains_key(p) by {
                if list.contains(p) {
                    let k = list.index_of(p);
                    assert(stale@[k]@ == p);
                }
                if before_map.contains_key(p) {
                    assert(keys.to_set().contains(p));
                    let k = keys.index_of(p);
                    assert(keys[k] == p);
                }
            }
            assert(self.embeddings@ =~= before_map.restrict(paths@.dom()));
            if stale@.len() > 0 {
                assert(before_map.dom().contains(stale@[0]@));
            } else {
                assert forall|p: Seq<char>| before_map.dom().contains(
                    p,
                ) implies paths@.dom().contains(p) by {
                    let k = keys.index_of(p);
                    assert(keys[k] == p);
                }
            }
        }
        stale.len() > 0
    }
}

/// A path with the key of its score; a higher key is a better score.
pub open spec fn scored_views(list: Seq<(String, i64)>) -> Seq<(Seq<char>, i64)> {
    list.map_values(|e: (String, i64)| (e.0@, e.1))
}

/// Whether scores never rise along a list.
pub open spec fn descending(list: Seq<(Seq<char>, i64)>) -> bool {
    forall|i: int, j: int|
        0 <= i < j < list.len() ==> (#[trigger] list[i]).1 >= (#[trigger] list[j]).1
}

/// Whether `ranked` holds the `top_k` best of `scored`, best first. Which of two
/// equal scores comes first is left open.
pub open spec fn is_ranking(
    scored: Seq<(Seq<char>, i64)>,
    top_k: nat,
    ranked: Seq<(Seq<char>, i64)>,
) -> bool {
    exists|all: Seq<(Seq<char>, i64)>|
        #![trigger descending(all)]
        {
            &&& descending(all)
            &&& all.to_multiset() == scored.to_multiset()
            &&& ranked == all.take(
                if top_k < all.len() {
                    top_k as int
                } else {
                    all.len() as int
                },
            )
        }
}

/// The path of each note whose key is allowed, with the score at the same position.
pub open spec fn allowed_pairs(
    keys: Seq<Seq<char>>,
    entries: Map<Seq<char>, EntryView>,
    scores: Seq<i64>,
    allowed: Set<Seq<char>>,
) -> Seq<(Seq<char>, i64)>
    decreases keys.len(),
{
    if keys.len() == 0 {
        Seq::empty()
    } else {
        let rest = allowed_pairs(keys.drop_last(), entries, scores, allowed);
        if allowed.contains(keys.last()) {
            rest.push((entries[keys.last()].path, scores[keys.len() - 1]))
        } else {
            rest
        }
    }
}

/// The path of each note with the score at the same position.
pub open spec fn paired(
    keys: Seq<Seq<char>>,
    entries: Map<Seq<char>, EntryView>,
    scores: Seq<i64>,
) -> Seq<(Seq<char>, i64)> {
    Seq::new(keys.len(), |i: int| (entries[keys[i]].path, scores[i]))
}

proof fn lemma_no_items<A>(list: Seq<A>)
    requires
        list.len() == 0,
    ensures
        list.to_multiset() == vstd::multiset::Multiset::<A>::empty(),
{
    broadcast use vstd::seq_lib::group_to_multiset_ensures;

    assert(list.to_multiset() =~= vstd::multiset::Multiset::<A>::empty());
}

/// The `top_k` best of the scored paths, best first.
pub fn rank_scores(scored: Vec<(String, i64)>, top_k: usize) -> (ranked: Vec<(String, i64)>)
    ensures
        is_ranking(scored_views(scored@), top_k as nat, scored_views(ranked@)),
{
    let ghost whole = scored_views(scored@);
    let mut rest = scored;
    let mut sorted: Vec<(String, i64)> = Vec::new();
    proof {
        lemma_no_items(scored_views(sorted@));
    }
    assert(scored_views(rest@).to_multiset().add(scored_views(sorted@).to_multiset())
        =~= whole.to_multiset());
    loop
        invariant
            descending(scored_views(sorted@)),
            scored_views(rest@).to_multiset().add(scored_views(sorted@).to_multiset())
                == whole.to_multiset(),
        ensures
            descending(scored_views(sorted@)),
            scored_views(sorted@).to_multiset() == whole.to_multiset(),
        decreases rest@.len(),
    {
        let ghost rest_before = scored_views(rest@);
        let ghost sorted_before = scored_views(sorted@);
        match rest.pop() {
            None => {
                proof {
                    lemma_no_items(rest_before);
                    assert(rest_before.to_multiset().add(sorted_before.to_multiset())
                        =~= sorted_before.to_multiset());
                }
                break ;
            },
            Some(item) => {
                let ghost viewed = (item.0@, item.1);
                let score: i64 = item.1;
                let mut at: usize = 0;
                while at < sorted.len() && sorted[at].1 >= score
                    invariant
                        at <= sorted@.len(),
                        sorted_before == scored_views(sorted@),
                        forall|k: int| 0 <= k < at ==> (#[trigger] sorted_before[k]).1 >= score,
                    ensures
                        at <= sorted@.len(),
                        forall|k: int| 0 <= k < at ==> (#[trigger] sorted_before[k]).1 >= score,
                        at < sorted@.len() ==> sorted_before[at as int].1 < score,
                    decreases sorted@.len() - at,
                {
                    at += 1;
                }
                sorted.insert(at, item);
                proof {
                    let sorted_after = scored_views(sorted@);
                    assert(sorted_after =~= sorted_before.insert(at as int, viewed));
                    vstd::seq_lib::to_multiset_insert(sorted_before, at as int, viewed);
                    assert(rest_before =~= scored_views(rest@).push(viewed));
                    vstd::seq_lib::to_multiset_build(scored_views(rest@), viewed);
                    assert(scored_views(rest@).to_multiset().add(sorted_after.to_multiset())
                        =~= rest_before.to_multiset().add(sorted_before.to_multiset()));
                    assert forall|i: int, j: int| 0 <= i < j < sorted_after.len() implies (
                    #[trigger] sorted_after[i]).1 >= (#[trigger] sorted_after[j]).1 by {
                        let a = if i < at { i } else { i - 1 };
                        let b = if j < at { j } else { j - 1 };
                        if i == at && b > at {
                            assert(sorted_before[at as int].1 >= sorted_before[b].1);
                        } else if i != at && j != at {
                            assert(sorted_before[a].1 >= sorted_before[b].1);
                        }
                    }
                }
            },
        }
    }
    let ghost all = scored_views(sorted@);
    if top_k < sorted.len() {
        sorted.truncate(top_k);
    }
    assert(scored_views(sorted@) =~= all.take(
        if top_k < all.len() {
            top_k as int
        } else {
            all.len() as int
        },
    ));
    assert(descending(all));
    sorted
}

/// What is stored under one spelling of a path is found under each other, and
/// taken away under each other. The spelling that came first stays.
pub proof fn spelling_does_not_matter(
    store: StoreView,
    left: Seq<char>,
    right: Seq<char>,
    vector: Seq<u32>,
    content_hash: Option<Seq<u8>>,
    windows: bool,
)
    requires
        components(left, windows) == components(right, windows),
    ensures
        ({
            let after = with_note(store, path_key(left, windows), left, vector, content_hash);
            let again = with_note(after, path_key(right, windows), right, vector, content_hash);
            &&& after.entries.contains_key(path_key(right, windows))
            &&& after.entries[path_key(right, windows)].vector == vector
            &&& after.entries[path_key(right, windows)].content_hash == content_hash
            &&& again == after
        }),
        !without_entry(store, path_key(left, windows)).entries.contains_key(
            path_key(right, windows),
        ),
{
    spellings_share_a_key(left, right, windows);
    let after = with_note(store, path_key(left, windows), left, vector, content_hash);
    let again = with_note(after, path_key(right, windows), right, vector, content_hash);
    assert(again.entries =~= after.entries);
}

/// The keys of paths, as a set.
pub open spec fn path_keys_of(paths: Seq<Seq<char>>, windows: bool) -> Set<Seq<char>> {
    Set::new(
        |key: Seq<char>|
            exists|i: int| 0 <= i < paths.len() && path_key(#[trigger] paths[i], windows) == key,
    )
}

/// The keys of paths, as a set.
pub fn path_keys(paths: &Vec<String>, windows: bool) -> (keys: Keyed<()>)
    ensures
        keys@.dom() == path_keys_of(texts(paths@), windows),
{
    let mut keys: Keyed<()> = Keyed::new();
    let ghost all = texts(paths@);
    let mut i: usize = 0;
    assert(keys@.dom() =~= Set::<Seq<char>>::empty());
    while i < paths.len()
        invariant
            i <= paths@.len(),
            all == texts(paths@),
            forall|key: Seq<char>| #[trigger]
                keys@.dom().contains(key) <==> exists|k: int|
                    0 <= k < i && path_key(#[trigger] all[k], windows) == key,
        decreases paths@.len() - i,
    {
        let ghost before_keys = keys@;
        let key = key_of_path(paths[i].as_str(), windows);
        assert(all[i as int] == paths@[i as int]@);
        let ghost text = key@;
        keys.insert(key, ());
        assert(keys@.dom() =~= before_keys.dom().insert(text));
        assert forall|key: Seq<char>| #[trigger] keys@.dom().contains(key) <==> exists|k: int|
            0 <= k < i + 1 && path_key(#[trigger] all[k], windows) == key by {
            if before_keys.dom().contains(key) {
                let k = choose|k: int| 0 <= k < i && path_key(#[trigger] all[k], windows) == key;
                assert(0 <= k < i + 1 && path_key(all[k], windows) == key);
            }
            if key == text {
                assert(path_key(all[i as int], windows) == key);
            }
        }
        i += 1;
    }
    assert(keys@.dom() =~= path_keys_of(all, windows));
    keys
}

impl EmbeddingStore {
    /// The keys of the stored notes in ascending order.
    pub closed spec fn sorted_keys(&self) -> Seq<Seq<char>> {
        self.embeddings.keys()
    }

    /// The keys of the stored notes in ascending order.
    pub fn keys(&self) -> (list: Vec<String>)
        ensures
            texts(list@) == self.sorted_keys(),
            strictly_sorted(self.sorted_keys()),
            self.sorted_keys().to_set() == self@.entries.dom(),
    {
        let mut list: Vec<String> = Vec::new();
        let total: usize = self.embeddings.len();
        let mut i: usize = 0;
        while i < total
            invariant
                i <= total == self.sorted_keys().len(),
                texts(list@) == self.sorted_keys().take(i as int),
            decreases total - i,
        {
            let ghost before_list = list@;
            let key = self.embeddings.key_at(i).clone();
            list.push(key);
            i += 1;
            assert(texts(list@) =~= texts(before_list).push(self.sorted_keys()[i - 1]));
            assert(texts(list@) =~= self.sorted_keys().take(i as int));
        }
        assert(texts(list@) =~= self.sorted_keys());
        list
    }

    /// The `top_k` most similar notes, best first. `scores` holds the key of each
    /// stored note's similarity, in ascending order of the notes' keys.
    pub fn query(&self, scores: &Vec<i64>, top_k: usize) -> (ranked: Vec<(String, i64)>)
        requires
            scores@.len() == self@.entries.dom().len(),
        ensures
            is_ranking(
                paired(self.sorted_keys(), self@.entries, scores@),
                top_k as nat,
                scored_views(ranked@),
            ),
    {
        let total: usize = self.embeddings.len();
        let mut scored: Vec<(String, i64)> = Vec::new();
        let ghost pairs = paired(self.sorted_keys(), self@.entries, scores@);
        let mut i: usize = 0;
        while i < total
            invariant
                i <= total == self.sorted_keys().len(),
                total == scores@.len(),
                pairs == paired(self.sorted_keys(), self@.entries, scores@),
                scored_views(scored@) == pairs.take(i as int),
            decreases total - i,
        {
            let ghost before_scored = scored@;
            let path = self.embeddings.value_at(i).path.clone();
            scored.push((path, scores[i]));
            i += 1;
            assert(scored_views(scored@) =~= scored_views(before_scored).push(pairs[i - 1]));
            assert(scored_views(scored@) =~= pairs.take(i as int));
        }
        assert(pairs.take(i as int) =~= pairs);
        rank_scores(scored, top_k)
    }

    /// As `query`, among the notes with an allowed key only.
    pub fn query_paths(&self, scores: &Vec<i64>, allowed: &Keyed<()>, top_k: usize) -> (ranked: Vec<
        (String, i64),
    >)
        requires
            scores@.len() == self@.entries.dom().len(),
        ensures
            is_ranking(
                allowed_pairs(self.sorted_keys(), self@.entries, scores@, allowed@.dom()),
                top_k as nat,
                scored_views(ranked@),
            ),
    {
        let total: usize = self.embeddings.len();
        let mut scored: Vec<(String, i64)> = Vec::new();
        let ghost keys = self.sorted_keys();
        let mut i: usize = 0;
        assert(keys.take(0) =~= Seq::empty());
        assert(scored_views(scored@) =~= Seq::empty());
        while i < total
            invariant
                i <= total == keys.len(),
                keys == self.sorted_keys(),
                total == scores@.len(),
                scored_views(scored@) == allowed_pairs(
                    keys.take(i as int),
                    self@.entries,
                    scores@,
                    allowed@.dom(),
                ),
            decreases total - i,
        {
            let ghost before_scored = scored@;
            assert(keys.take(i + 1).drop_last() =~= keys.take(i as int));
            assert(keys.take(i + 1).last() == keys[i as int]);
            if allowed.contains_key(self.embeddings.key_at(i).as_str()) {
                let path = self.embeddings.value_at(i).path.clone();
                let ghost pair = (path@, scores@[i as int]);
                scored.push((path, scores[i]));
                assert(scored_views(scored@) =~= scored_views(before_scored).push(pair));
            }
            i += 1;
        }
        assert(keys.take(i as int) =~= keys);
        rank_scores(scored, top_k)
    }
}

/// The text that is embedded for a note: its title, its headings on one line
/// unless there are none, and the first words of its body.
pub open spec fn embed_text(title: Seq<char>, headings: Seq<Seq<char>>, body: Seq<char>) -> Seq<
    char,
> {
    let all = words(body);
    let kept = all.take(
        if all.len() < MAX_BODY_WORDS {
            all.len() as int
        } else {
            MAX_BODY_WORDS as int
        },
    );
    let line = joined(headings, " | "@);
    if line.len() == 0 {
        title + "\n"@ + joined(kept, " "@)
    } else {
        title + "\n"@ + line + "\n"@ + joined(kept, " "@)
    }
}

/// Prepares the text that is embedded for a note. The body has no frontmatter.
pub fn prepare_embed_text(title: &str, headings: &[String], body: &str) -> (text: String)
    ensures
        text@ == embed_text(title@, texts(headings@), body@),
{
    let headings_line = join(headings, " | ");
    let mut kept = split_words(body);
    let ghost all = texts(kept@);
    kept.truncate(MAX_BODY_WORDS);
    proof {
        let n = if all.len() < MAX_BODY_WORDS {
            all.len() as int
        } else {
            MAX_BODY_WORDS as int
        };
        assert(texts(kept@) =~= all.take(n));
    }
    let truncated_body = join(kept.as_slice(), " ");
    if headings_line.as_str().unicode_len() == 0 {
        cat3(title, "\n", truncated_body.as_str())
    } else {
        cat5(title, "\n", headings_line.as_str(), "\n", truncated_body.as_str())
    }
}

/// Only the first 400 words of a body are embedded: two bodies that share them are
/// embedded alike, however they go on and however their words are spaced.
pub proof fn bodies_with_the_same_first_words_are_embedded_alike(
    title: Seq<char>,
    headings: Seq<Seq<char>>,
    body: Seq<char>,
    other: Seq<char>,
)
    requires
        words(body).len() == words(other).len() || (words(body).len() >= 400 && words(other).len()
            >= 400),
        forall|i: int|
            0 <= i < 400 && i < words(body).len() && i < words(other).len() ==> #[trigger] words(
                body,
            )[i] == #[trigger] words(other)[i],
    ensures
        embed_text(title, headings, body) == embed_text(title, headings, other),
{
    let all = words(body);
    let rest = words(other);
    let n = if all.len() < 400 {
        all.len() as int
    } else {
        400int
    };
    assert forall|i: int| 0 <= i < n implies all.take(n)[i] == rest.take(n)[i] by {
        assert(words(body)[i] == words(other)[i]);
    }
    assert(all.take(n) =~= rest.take(n));
}

/// The embedded text starts with the title on a line and, unless they are empty, the
/// headings on another. The rest are the first words of the body, 400 of them or all
/// where there are fewer, in their order and with single spaces between them.
pub proof fn embedded_body_is_its_first_words(
    title: Seq<char>,
    headings: Seq<Seq<char>>,
    body: Seq<char>,
)
    ensures
        ({
            let text = embed_text(title, headings, body);
            let line = joined(headings, " | "@);
            let head = if line.len() == 0 {
                title + "\n"@
            } else {
                title + "\n"@ + line + "\n"@
            };
            let part = text.skip(head.len() as int);
            &&& text == head + part
            &&& words(part).len() == if words(body).len() < 400 {
                words(body).len()
            } else {
                400
            }
            &&& forall|i: int| 0 <= i < words(part).len() ==> #[trigger] words(part)[i] == words(body)[i]
            &&& part == joined(words(part), " "@)
        }),
{
    let text = embed_text(title, headings, body);
    let line = joined(headings, " | "@);
    let head = if line.len() == 0 {
        title + "\n"@
    } else {
        title + "\n"@ + line + "\n"@
    };
    let all = words(body);
    let n = if all.len() < 400 {
        all.len() as int
    } else {
        400int
    };
    let kept = all.take(n);
    words_hold_no_space(body, 0);
    assert forall|i: int| 0 <= i < kept.len() implies (#[trigger] kept[i]).len() > 0 by {
        assert(kept[i] == all[i]);
    }
    assert forall|i: int, k: int| 0 <= i < kept.len() && 0 <= k < kept[i].len() implies !is_space(
        #[trigger] kept[i][k],
    ) by {
        assert(kept[i][k] == all[i][k]);
    }
    joined_words_split_back(kept);
    assert(text =~= head + joined(kept, " "@));
    assert(text.skip(head.len() as int) =~= joined(kept, " "@));
}

/// A stored note is found with its vector and its hash, under the spelling it was first
/// stored with; other notes and everything else of the store stay as they are.
pub proof fn stored_notes_are_found(
    store: StoreView,
    key: Seq<char>,
    path: Seq<char>,
    vector: Seq<u32>,
    content_hash: Option<Seq<u8>>,
    other: Seq<char>,
)
    ensures
        ({
            let after = with_note(store, key, path, vector, content_hash);
            &&& after.entries.contains_key(key)
            &&& after.entries[key].vector == vector
            &&& after.entries[key].content_hash == content_hash
            &&& store.entries.contains_key(key) ==> after.entries[key].path == store.entries[key].path
            &&& !store.entries.contains_key(key) ==> after.entries[key].path == path
            &&& other != key ==> (after.entries.contains_key(other)
                <==> store.entries.contains_key(other))
            &&& other != key && store.entries.contains_key(other) ==> after.entries[other]
                == store.entries[other]
            &&& after.dim == store.dim
            &&& after.identity == store.identity
            &&& after.first_pass_complete == store.first_pass_complete
        }),
{
}

/// A removed note is not found any more, and the notes that are kept are those of the
/// store that are to be kept; nothing else changes.
pub proof fn dropped_notes_are_gone(
    store: StoreView,
    key: Seq<char>,
    paths: Set<Seq<char>>,
    other: Seq<char>,
)
    ensures
        ({
            let after = without_entry(store, key);
            &&& after.entries.contains_key(other) <==> store.entries.contains_key(other) && other != key
            &&& after.entries.contains_key(other) ==> after.entries[other] == store.entries[other]
            &&& after.dim == store.dim
            &&& after.identity == store.identity
            &&& after.first_pass_complete == store.first_pass_complete
        }),
        ({
            let after = retained(store, paths);
            &&& after.entries.contains_key(other) <==> store.entries.contains_key(other)
                && paths.contains(other)
            &&& after.entries.contains_key(other) ==> after.entries[other] == store.entries[other]
            &&& after.dim == store.dim
            &&& after.identity == store.identity
            &&& after.first_pass_complete == store.first_pass_complete
        }),
{
}

/// A component is finite exactly where its magnitude is below that of infinity.
pub proof fn finite_components_are_below_infinity(bits: u32)
    ensures
        finite(bits) <==> bits % 0x8000_0000 < 0x7f80_0000,
{
    assert((bits / 0x80_0000) % 0x100 != 0xff <==> bits % 0x8000_0000 < 0x7f80_0000)
        by (bit_vector);
}

/// A vector is accepted exactly where it has as many components as the store says and
/// each of them is finite.
pub proof fn accepted_vectors_are_finite(vector: Seq<u32>, dim: nat)
    ensures
        vector_fault(vector, dim) is None <==> vector.len() == dim && forall|i: int|
            0 <= i < vector.len() ==> finite(#[trigger] vector[i]),
{
}

/// A batch is accepted exactly where it has one vector for each input and each vector
/// is accepted.
pub proof fn accepted_batches_are_complete(
    vectors: Seq<Vec<u32>>,
    expected_count: nat,
    expected_dim: nat,
)
    ensures
        batch_fault(vectors, expected_count, expected_dim) is None <==> vectors.len()
            == expected_count && forall|i: int|
            0 <= i < vectors.len() ==> vector_fault((#[trigger] vectors[i])@, expected_dim) is None,
{
    lemma_vector_faults(vectors, expected_dim, 0);
}

proof fn lemma_vector_faults(vectors: Seq<Vec<u32>>, dim: nat, from: int)
    requires
        0 <= from <= vectors.len(),
    ensures
        first_vector_fault(vectors, dim, from) is None <==> forall|i: int|
            from <= i < vectors.len() ==> vector_fault((#[trigger] vectors[i])@, dim) is None,
    decreases vectors.len() - from,
{
    if from < vectors.len() {
        lemma_vector_faults(vectors, dim, from + 1);
    }
}

/// A ranking holds the best of what was scored, the best first: as many as asked for,
/// or all where there are fewer, and what it leaves out scored no better than anything
/// it holds.
pub proof fn rankings_hold_the_best(
    scored: Seq<(Seq<char>, i64)>,
    top_k: nat,
    ranked: Seq<(Seq<char>, i64)>,
) -> (rest: Seq<(Seq<char>, i64)>)
    requires
        is_ranking(scored, top_k, ranked),
    ensures
        ranked.len() == if top_k < scored.len() {
            top_k
        } else {
            scored.len()
        },
        forall|i: int, j: int|
            0 <= i < j < ranked.len() ==> (#[trigger] ranked[i]).1 >= (#[trigger] ranked[j]).1,
        (ranked + rest).to_multiset() == scored.to_multiset(),
        forall|i: int, j: int|
            0 <= i < ranked.len() && 0 <= j < rest.len() ==> (#[trigger] ranked[i]).1
                >= (#[trigger] rest[j]).1,
        forall|i: int| 0 <= i < ranked.len() ==> scored.contains(#[trigger] ranked[i]),
{
    let all = choose|all: Seq<(Seq<char>, i64)>|
        #![trigger descending(all)]
        {
            &&& descending(all)
            &&& all.to_multiset() == scored.to_multiset()
            &&& ranked == all.take(
                if top_k < all.len() {
                    top_k as int
                } else {
                    all.len() as int
                },
            )
        };
    let n = if top_k < all.len() {
        top_k as int
    } else {
        all.len() as int
    };
    let rest = all.skip(n);
    assert(ranked + rest =~= all);
    all.to_multiset_ensures();
    scored.to_multiset_ensures();
    assert forall|i: int, j: int| 0 <= i < ranked.len() && 0 <= j < rest.len() implies (
    #[trigger] ranked[i]).1 >= (#[trigger] rest[j]).1 by {
        assert(all[i].1 >= all[n + j].1);
    }
    assert forall|i: int, j: int| 0 <= i < j < ranked.len() implies (#[trigger] ranked[i]).1 >= (
    #[trigger] ranked[j]).1 by {
        assert(all[i].1 >= all[j].1);
    }
    assert forall|i: int| 0 <= i < ranked.len() implies scored.contains(#[trigger] ranked[i]) by {
        assert(all[i] == ranked[i]);
        assert(all.contains(all[i]));
        assert(all.to_multiset().count(all[i]) > 0);
        assert(scored.to_multiset().count(all[i]) > 0);
    }
    rest
}

/// Whether a pair is the path of an allowed note and the score at its place.
pub open spec fn is_allowed_pair(
    keys: Seq<Seq<char>>,
    entries: Map<Seq<char>, EntryView>,
    scores: Seq<i64>,
    allowed: Set<Seq<char>>,
    pair: (Seq<char>, i64),
) -> bool {
    exists|j: int|
        0 <= j < keys.len() && allowed.contains(#[trigger] keys[j]) && pair == (
            entries[keys[j]].path,
            scores[j],
        )
}

/// Only allowed notes are ranked, each with its own score, and every allowed note is;
/// where all are allowed, all are ranked.
pub proof fn only_allowed_notes_are_scored(
    keys: Seq<Seq<char>>,
    entries: Map<Seq<char>, EntryView>,
    scores: Seq<i64>,
    allowed: Set<Seq<char>>,
    i: int,
)
    requires
        keys.len() == scores.len(),
        0 <= i < keys.len(),
    ensures
        allowed.contains(keys[i]) ==> allowed_pairs(keys, entries, scores, allowed).contains(
            (entries[keys[i]].path, scores[i]),
        ),
        forall|k: int|
            0 <= k < allowed_pairs(keys, entries, scores, allowed).len() ==> is_allowed_pair(
                keys,
                entries,
                scores,
                allowed,
                #[trigger] allowed_pairs(keys, entries, scores, allowed)[k],
            ),
        (forall|j: int| 0 <= j < keys.len() ==> allowed.contains(#[trigger] keys[j])) ==> allowed_pairs(
            keys,
            entries,
            scores,
            allowed,
        ) == paired(keys, entries, scores),
        paired(keys, entries, scores)[i] == (entries[keys[i]].path, scores[i]),
        paired(keys, entries, scores).len() == keys.len(),
{
    lemma_allowed_pairs(keys, entries, scores, allowed);
    if allowed.contains(keys[i]) {
        lemma_allowed_pair(keys, entries, scores, allowed, i);
    }
}

proof fn lemma_allowed_pair(
    keys: Seq<Seq<char>>,
    entries: Map<Seq<char>, EntryView>,
    scores: Seq<i64>,
    allowed: Set<Seq<char>>,
    i: int,
)
    requires
        0 <= i < keys.len(),
        allowed.contains(keys[i]),
    ensures
        allowed_pairs(keys, entries, scores, allowed).contains((entries[keys[i]].path, scores[i])),
    decreases keys.len(),
{
    let front = keys.drop_last();
    let before_pairs = allowed_pairs(front, entries, scores, allowed);
    let pairs = allowed_pairs(keys, entries, scores, allowed);
    if i < keys.len() - 1 {
        lemma_allowed_pair(front, entries, scores, allowed, i);
        let k = choose|k: int|
            0 <= k < before_pairs.len() && before_pairs[k] == (entries[front[i]].path, scores[i]);
        assert(pairs[k] == before_pairs[k]);
    } else {
        assert(pairs[pairs.len() - 1] == (entries[keys[i]].path, scores[i]));
    }
}

proof fn lemma_allowed_pairs(
    keys: Seq<Seq<char>>,
    entries: Map<Seq<char>, EntryView>,
    scores: Seq<i64>,
    allowed: Set<Seq<char>>,
)
    requires
        keys.len() <= scores.len(),
    ensures
        forall|k: int|
            0 <= k < allowed_pairs(keys, entries, scores, allowed).len() ==> is_allowed_pair(
                keys,
                entries,
                scores,
                allowed,
                #[trigger] allowed_pairs(keys, entries, scores, allowed)[k],
            ),
        (forall|j: int| 0 <= j < keys.len() ==> allowed.contains(#[trigger] keys[j])) ==> allowed_pairs(
            keys,
            entries,
            scores,
            allowed,
        ) == paired(keys, entries, scores),
    decreases keys.len(),
{
    let pairs = allowed_pairs(keys, entries, scores, allowed);
    if keys.len() == 0 {
        assert(pairs =~= paired(keys, entries, scores));
    } else {
        let front = keys.drop_last();
        let before_pairs = allowed_pairs(front, entries, scores, allowed);
        lemma_allowed_pairs(front, entries, scores, allowed);
        assert forall|k: int| 0 <= k < pairs.len() implies is_allowed_pair(
            keys,
            entries,
            scores,
            allowed,
            #[trigger] pairs[k],
        ) by {
            if k < before_pairs.len() {
                assert(pairs[k] == before_pairs[k]);
                let j = choose|j: int|
                    0 <= j < front.len() && allowed.contains(#[trigger] front[j]) && before_pairs[k]
                        == (entries[front[j]].path, scores[j]);
                assert(keys[j] == front[j]);
            } else {
                assert(allowed.contains(keys[keys.len() - 1]));
            }
        }
        if forall|j: int| 0 <= j < keys.len() ==> allowed.contains(#[trigger] keys[j]) {
            assert forall|j: int| 0 <= j < front.len() implies allowed.contains(#[trigger] front[j]) by {
                assert(front[j] == keys[j]);
            }
            assert(allowed.contains(keys[keys.len() - 1]));
            assert(pairs =~= paired(keys, entries, scores));
        }
    }
}

/// White space around an address and slashes behind it do not change the endpoint.
pub proof fn endpoints_ignore_spaces_and_trailing_slashes(base_url: Seq<char>)
    ensures
        endpoint_digest(trimmed(base_url)) == endpoint_digest(base_url),
        without_trailing(base_url.push('/'), '/') == without_trailing(base_url, '/'),
{
    trimming_is_idempotent(base_url);
    assert(base_url.push('/').drop_last() =~= base_url);
}

/// A consistent store holds only vectors of its own dimension with finite components, a
/// well spelled one keeps each note under the key of its path, and a new store holds
/// nothing and is not complete.
pub proof fn stores_keep_their_promises(
    store: StoreView,
    key: Seq<char>,
    i: int,
    dim: usize,
    identity: Option<IdentityView>,
    windows: bool,
)
    ensures
        consistent(store) && store.entries.contains_key(key) ==> store.entries[key].vector.len()
            == store.dim && (0 <= i < store.entries[key].vector.len() ==> finite(
            store.entries[key].vector[i],
        )),
        well_spelled(store, windows) && store.entries.contains_key(key) ==> path_key(
            store.entries[key].path,
            windows,
        ) == key,
        !empty_store(dim, identity).entries.contains_key(key),
        !empty_store(dim, identity).first_pass_complete,
        empty_store(dim, identity).dim == dim && empty_store(dim, identity).identity == identity,
        consistent(empty_store(dim, identity)) && well_spelled(empty_store(dim, identity), windows),
{
}

} // verus!
