//! The embedding cache: what is written for a store, and what a file gives back.

use crate::error::{VaultError, VaultErrorView};
use crate::keyed::Keyed;
use crate::number::{decimal, to_decimal};
use crate::order::{
    before, before_is_strict_and_total, before_is_transitive, is_before, strictly_sorted,
};
use crate::path::{
    invalid_relative_text, normal_path_is_its_key, normal_relative, normalize_relative, path_key,
};
use crate::text::{cat2, cat3, cat4, cat5, contains_char, same, texts};
use crate::vault::codec::{
    cache_decoding, cache_encoding, decode_cache_data, decoded, encode_cache_data, entry_view,
    entry_views, quads, CacheData, CacheEntryView, CacheView, DECODE_LIMIT,
};
use crate::vault::digest::{compose, composed};
use crate::vault::embeddings::{
    consistent, fault_of, validate_vector, vector_fault, well_spelled, EmbeddingEntry,
    EmbeddingSpaceIdentity, EmbeddingStore, EntryView, IdentityView, StoreView,
};
use vstd::prelude::*;
use vstd::utf8::encode_utf8;

verus! {

/// The largest cache file that is read, in bytes.
pub const MAX_CACHE_BYTES: u64 = DECODE_LIMIT as u64;

/// The largest number of entries in a cache that is read without a known vault.
pub const MAX_CACHE_ENTRIES: usize = 1_000_000;

/// The largest cached path, in bytes.
pub const MAX_CACHE_PATH_BYTES: usize = 16384;

/// The version of the cache layout.
pub const CACHE_SCHEMA_VERSION: u16 = 1;

/// The bytes that start every cache file.
pub open spec fn cache_magic() -> Seq<u8> {
    seq![0x4f, 0x42, 0x53, 0x4d, 0x43, 0x50, 0x45, 0x4d]
}

fn magic_bytes() -> (magic: [u8; 8])
    ensures
        magic@ == cache_magic(),
{
    let magic: [u8; 8] = [0x4f, 0x42, 0x53, 0x4d, 0x43, 0x50, 0x45, 0x4d];
    assert(magic@ =~= cache_magic());
    magic
}

/// The four bytes of a component, least significant first.
pub open spec fn quad_of(bits: u32) -> Seq<u8> {
    seq![
        (bits % 256) as u8,
        (bits / 256 % 256) as u8,
        (bits / 65536 % 256) as u8,
        (bits / 16777216) as u8,
    ]
}

/// The component that four bytes spell.
pub open spec fn bits_of(quad: Seq<u8>) -> u32 {
    (quad[0] + 256 * quad[1] + 65536 * quad[2] + 16777216 * quad[3]) as u32
}

/// The bytes of each component of a vector.
pub open spec fn quad_seq(vector: Seq<u32>) -> Seq<Seq<u8>> {
    vector.map_values(|bits: u32| quad_of(bits))
}

/// The components that a list of four bytes each spells.
pub open spec fn bit_seq(list: Seq<Seq<u8>>) -> Seq<u32> {
    list.map_values(|quad: Seq<u8>| bits_of(quad))
}

proof fn lemma_quad_bits(bits: u32)
    ensures
        bits_of(quad_of(bits)) == bits,
{
}

fn quad(bits: u32) -> (bytes: [u8; 4])
    ensures
        bytes@ == quad_of(bits),
{
    let bytes: [u8; 4] = [
        (bits % 256) as u8,
        (bits / 256 % 256) as u8,
        (bits / 65536 % 256) as u8,
        (bits / 16777216) as u8,
    ];
    assert(bytes@ =~= quad_of(bits));
    bytes
}

fn quads_of(vector: &Vec<u32>) -> (list: Vec<[u8; 4]>)
    ensures
        quads(list@) == quad_seq(vector@),
{
    let mut list: Vec<[u8; 4]> = Vec::new();
    let mut i: usize = 0;
    while i < vector.len()
        invariant
            i <= vector@.len(),
            list@.len() == i,
            forall|k: int| 0 <= k < i ==> (#[trigger] list@[k])@ == quad_of(vector@[k]),
        decreases vector@.len() - i,
    {
        list.push(quad(vector[i]));
        i += 1;
    }
    assert(quads(list@) =~= quad_seq(vector@));
    list
}

fn bits(quad: &[u8; 4]) -> (value: u32)
    ensures
        value == bits_of(quad@),
{
    let a: u32 = quad[0] as u32;
    let b: u32 = quad[1] as u32;
    let c: u32 = quad[2] as u32;
    let d: u32 = quad[3] as u32;
    a + 256 * b + 65536 * c + 16777216 * d
}

fn vector_of(list: &Vec<[u8; 4]>) -> (vector: Vec<u32>)
    ensures
        vector@ == bit_seq(quads(list@)),
{
    let mut vector: Vec<u32> = Vec::new();
    let mut i: usize = 0;
    while i < list.len()
        invariant
            i <= list@.len(),
            vector@.len() == i,
            forall|k: int| 0 <= k < i ==> #[trigger] vector@[k] == bits_of(list@[k]@),
        decreases list@.len() - i,
    {
        vector.push(bits(&list[i]));
        i += 1;
    }
    assert(vector@ =~= bit_seq(quads(list@)));
    vector
}

/// The cache entries of those notes whose text digest is known, in the order of
/// their keys in `order`.
pub open spec fn cache_entries(
    order: Seq<Seq<char>>,
    entries: Map<Seq<char>, EntryView>,
) -> Seq<CacheEntryView>
    decreases order.len(),
{
    if order.len() == 0 {
        Seq::empty()
    } else {
        let rest = cache_entries(order.drop_last(), entries);
        let entry = entries[order.last()];
        match entry.content_hash {
            Some(hash) => rest.push(
                CacheEntryView {
                    path: entry.path,
                    content_hash: hash,
                    vector: quad_seq(entry.vector),
                },
            ),
            None => rest,
        }
    }
}

/// Whether `order` holds the keys of all notes, in the order of their paths as they
/// are spelled.
pub open spec fn is_writing_order(
    order: Seq<Seq<char>>,
    entries: Map<Seq<char>, EntryView>,
) -> bool {
    &&& order.no_duplicates()
    &&& order.to_set() == entries.dom()
    &&& forall|i: int, j: int|
        0 <= i < j < order.len() ==> !before(
            entries[#[trigger] order[j]].path,
            entries[#[trigger] order[i]].path,
        )
}

/// What is written for a store whose notes are written in the order of `order`.
pub open spec fn cache_view(
    store: StoreView,
    identity: IdentityView,
    order: Seq<Seq<char>>,
) -> CacheView {
    let list = cache_entries(order, store.entries);
    CacheView {
        magic: cache_magic(),
        schema_version: CACHE_SCHEMA_VERSION,
        backend: identity.backend,
        model: identity.model,
        endpoint_fingerprint: identity.endpoint_fingerprint,
        dimension: identity.dimension,
        input_version: identity.input_version,
        first_pass_complete: store.first_pass_complete && list.len() == order.len(),
        entries: list,
    }
}

/// Why a store cannot be written, if it cannot.
pub open spec fn encode_fault(store: StoreView) -> Option<VaultErrorView> {
    match store.identity {
        None => Some(VaultErrorView::Embedding("embedding store has no vector-space identity"@)),
        Some(identity) => if identity.dimension != store.dim || store.dim == 0 {
            Some(
                VaultErrorView::Embedding("embedding store identity has an invalid dimension"@),
            )
        } else {
            None
        },
    }
}

/// Whether a cache of this many bytes and entries stays within what a reader counts.
pub open spec fn readable_size(bytes: nat, entries: nat) -> bool {
    bytes + 14 * entries + 64 <= DECODE_LIMIT
}

/// Whether `bytes` are the cache of a store whose notes are written in the order of
/// `order`.
pub open spec fn is_cache_in_order(store: StoreView, order: Seq<Seq<char>>, bytes: Seq<u8>) -> bool {
    let data = cache_view(store, store.identity->0, order);
    &&& is_writing_order(order, store.entries)
    &&& bytes == cache_encoding(data)
    &&& readable_size(bytes.len(), data.entries.len()) ==> cache_decoding(bytes) == decoded(
        data,
        bytes.len(),
    )
}

/// Whether `bytes` are the cache of a store.
pub open spec fn is_cache_of(store: StoreView, bytes: Seq<u8>) -> bool {
    exists|order: Seq<Seq<char>>| #[trigger] is_cache_in_order(store, order, bytes)
}

proof fn lemma_place(list: Seq<Seq<char>>, text: Seq<char>, at: int)
    requires
        0 <= at <= list.len(),
        forall|i: int, j: int|
            0 <= i < j < list.len() ==> !before(#[trigger] list[j], #[trigger] list[i]),
        forall|k: int| at <= k < list.len() ==> before(text, #[trigger] list[k]),
        at > 0 ==> !before(text, list[at - 1]),
    ensures
        ({
            let after = list.insert(at, text);
            forall|i: int, j: int|
                0 <= i < j < after.len() ==> !before(#[trigger] after[j], #[trigger] after[i])
        }),
{
    let after = list.insert(at, text);
    assert forall|i: int, j: int| 0 <= i < j < after.len() implies !before(
        #[trigger] after[j],
        #[trigger] after[i],
    ) by {
        let a = if i < at { i } else { i - 1 };
        let b = if j < at { j } else { j - 1 };
        if j == at {
            if i < at - 1 {
                let last = list[at - 1];
                assert(!before(last, list[i]));
                before_is_strict_and_total(last, list[i]);
                if before(text, list[i]) && last != list[i] {
                    before_is_transitive(text, list[i], last);
                }
            }
        } else if i == at {
            assert(before(text, list[b]));
            before_is_strict_and_total(text, list[b]);
        } else {
            assert(!before(list[b], list[a]));
        }
    }
}

impl EmbeddingStore {
    fn writing_order(&self) -> (order: Vec<String>)
        ensures
            is_writing_order(texts(order@), self@.entries),
    {
        let keys = self.keys();
        let ghost all = texts(keys@);
        let ghost entries = self@.entries;
        let mut order: Vec<String> = Vec::new();
        let mut spelled: Vec<String> = Vec::new();
        let mut i: usize = 0;
        assert(texts(order@) =~= Seq::empty());
        while i < keys.len()
            invariant
                i <= keys@.len(),
                all == texts(keys@),
                strictly_sorted(all),
                all.to_set() == entries.dom(),
                entries == self@.entries,
                order@.len() == i,
                spelled@.len() == i,
                texts(order@).no_duplicates(),
                forall|key: Seq<char>| #[trigger]
                    texts(order@).contains(key) <==> all.take(i as int).contains(key),
                forall|k: int|
                    0 <= k < i ==> (#[trigger] texts(spelled@)[k]) == entries[texts(order@)[k]].path,
                forall|a: int, b: int|
                    0 <= a < b < i ==> !before(
                        #[trigger] texts(spelled@)[b],
                        #[trigger] texts(spelled@)[a],
                    ),
            decreases keys@.len() - i,
        {
            let key = keys[i].clone();
            let ghost text = key@;
            assert(all[i as int] == text);
            assert(all.to_set().contains(text));
            let path = match self.path_at(key.as_str()) {
                Some(path) => path.clone(),
                None => String::new(),
            };
            let ghost spelling = path@;
            let ghost order_before = texts(order@);
            let ghost spelled_before = texts(spelled@);
            let mut at: usize = i;
            while at > 0 && is_before(path.as_str(), spelled[at - 1].as_str())
                invariant
                    at <= i == spelled@.len(),
                    spelled_before == texts(spelled@),
                    spelling == path@,
                    forall|k: int| at <= k < i ==> before(spelling, #[trigger] spelled_before[k]),
                decreases at,
            {
                assert(spelled_before[at - 1] == spelled@[at - 1]@);
                at -= 1;
            }
            proof {
                if at > 0 {
                    assert(spelled_before[at - 1] == spelled@[at - 1]@);
                }
                lemma_place(spelled_before, spelling, at as int);
            }
            order.insert(at, key);
            spelled.insert(at, path);
            proof {
                let order_after = texts(order@);
                assert(order_after =~= order_before.insert(at as int, text));
                assert(texts(spelled@) =~= spelled_before.insert(at as int, spelling));
                assert(all.take(i + 1) =~= all.take(i as int).push(text));
                assert(!order_before.contains(text)) by {
                    if order_before.contains(text) {
                        assert(all.take(i as int).contains(text));
                        let k = all.take(i as int).index_of(text);
                        assert(before(all[k], all[i as int]));
                        before_is_strict_and_total(text, text);
                    }
                }
                assert forall|key: Seq<char>| #[trigger] order_after.contains(key) <==> all.take(
                    i + 1,
                ).contains(key) by {
                    let grown = all.take(i as int).push(text);
                    assert(grown[i as int] == text);
                    assert(order_after[at as int] == text);
                    if order_before.contains(key) {
                        let k = order_before.index_of(key);
                        assert(order_after[if k < at { k } else { k + 1 }] == key);
                    }
                    if all.take(i as int).contains(key) {
                        let k = all.take(i as int).index_of(key);
                        assert(grown[k] == key);
                    }
                    if order_after.contains(key) && key != text {
                        let k = order_after.index_of(key);
                        assert(order_before[if k < at { k } else { k - 1 }] == key);
                    }
                    if grown.contains(key) && key != text {
                        let k = grown.index_of(key);
                        assert(all.take(i as int)[k] == key);
                    }
                }
                assert forall|a: int, b: int|
                    0 <= a < order_after.len() && 0 <= b < order_after.len() && a
                        != b implies order_after[a] != order_after[b] by {
                    let x = if a < at { a } else { a - 1 };
                    let y = if b < at { b } else { b - 1 };
                    if a != at {
                        assert(order_before[x] == order_after[a]);
                    }
                    if b != at {
                        assert(order_before[y] == order_after[b]);
                    }
                }
                assert forall|k: int| 0 <= k < i + 1 implies (#[trigger] texts(spelled@)[k])
                    == entries[order_after[k]].path by {
                    if k != at {
                        let x = if k < at { k } else { k - 1 };
                        assert(spelled_before[x] == entries[order_before[x]].path);
                    }
                }
            }
            i += 1;
        }
        proof {
            let done = texts(order@);
            assert(all.take(i as int) =~= all);
            assert(done.to_set() =~= entries.dom()) by {
                assert forall|key: Seq<char>| done.to_set().contains(key)
                    <==> #[trigger] entries.dom().contains(key) by {
                    assert(done.contains(key) <==> all.contains(key));
                    assert(all.contains(key) <==> all.to_set().contains(key));
                }
            }
            assert forall|a: int, b: int| 0 <= a < b < done.len() implies !before(
                entries[#[trigger] done[b]].path,
                entries[#[trigger] done[a]].path,
            ) by {
                assert(texts(spelled@)[a] == entries[done[a]].path);
                assert(texts(spelled@)[b] == entries[done[b]].path);
            }
        }
        order
    }

    /// The bytes of the cache file for this store.
    pub fn encode_cache(&self) -> (result: Result<Vec<u8>, VaultError>)
        ensures
            match result {
                Err(error) => encode_fault(self@) == Some(error@),
                Ok(bytes) => encode_fault(self@) is None && is_cache_of(self@, bytes@),
            },
    {
        let identity = match self.identity() {
            Some(identity) => identity,
            None => {
                return Err(
                    VaultError::Embedding(
                        "embedding store has no vector-space identity".to_owned(),
                    ),
                );
            },
        };
        if identity.dimension != self.dim() || self.dim() == 0 {
            return Err(
                VaultError::Embedding(
                    "embedding store identity has an invalid dimension".to_owned(),
                ),
            );
        }
        let order = self.writing_order();
        let ghost all = texts(order@);
        let mut entries: Vec<(String, [u8; 32], Vec<[u8; 4]>)> = Vec::new();
        let mut i: usize = 0;
        assert(entry_views(entries@) =~= Seq::empty());
        assert(all.take(0) =~= Seq::empty());
        while i < order.len()
            invariant
                i <= order@.len(),
                all == texts(order@),
                all.to_set() == self@.entries.dom(),
                entry_views(entries@) == cache_entries(all.take(i as int), self@.entries),
            decreases order@.len() - i,
        {
            let key = order[i].as_str();
            assert(all[i as int] == key@);
            assert(all.to_set().contains(key@));
            assert(all.take(i + 1).drop_last() =~= all.take(i as int));
            match (self.path_at(key), self.hash_at(key), self.vector_at(key)) {
                (Some(path), Some(hash), Some(vector)) => {
                    let ghost before_entries = entries@;
                    let entry = (path.clone(), *hash, quads_of(vector));
                    let ghost viewed = entry_view(entry);
                    entries.push(entry);
                    assert(entry_views(entries@) =~= entry_views(before_entries).push(viewed));
                },
                _ => {},
            }
            i += 1;
        }
        assert(all.take(i as int) =~= all);
        assert(all.len() == order@.len());
        let complete = self.first_pass_complete() && entries.len() == order.len();
        let data = CacheData {
            magic: magic_bytes(),
            schema_version: CACHE_SCHEMA_VERSION,
            backend: identity.backend,
            model: identity.model.clone(),
            endpoint_fingerprint: identity.endpoint_fingerprint,
            dimension: identity.dimension,
            input_version: identity.input_version,
            first_pass_complete: complete,
            entries,
        };
        assert(data@ =~= cache_view(self@, self@.identity->0, all));
        match encode_cache_data(&data) {
            Ok(bytes) => {
                assert(is_cache_in_order(self@, all, bytes@));
                assert(is_cache_of(self@, bytes@));
                Ok(bytes)
            },
            Err(message) => Err(
                VaultError::Embedding(cat2("cache serialize error: ", message.as_str())),
            ),
        }
    }
}

/// What is wrong with a cached path, if anything.
pub open spec fn cache_path_fault(path: Seq<char>, windows: bool) -> Option<VaultErrorView> {
    if path.len() == 0 || encode_utf8(path).len() > MAX_CACHE_PATH_BYTES || path.contains('\\') {
        Some(VaultErrorView::Embedding("invalid embedding cache path '"@ + path + "'"@))
    } else if normal_relative(path, windows) is None {
        Some(
            VaultErrorView::Embedding(
                "invalid embedding cache path '"@ + path + "': "@ + invalid_relative_text(path),
            ),
        )
    } else if normal_relative(path, windows) != Some(path) {
        Some(
            VaultErrorView::Embedding("embedding cache path is not normalized: '"@ + path + "'"@),
        )
    } else {
        None
    }
}

/// Checks a cached path and gives it back.
pub fn validate_cache_path(path: &str, windows: bool) -> (result: Result<String, VaultError>)
    ensures
        match result {
            Ok(relative) => relative@ == path@ && cache_path_fault(path@, windows) is None,
            Err(error) => cache_path_fault(path@, windows) == Some(error@),
        },
{
    if path.unicode_len() == 0 || path.as_bytes().len() > MAX_CACHE_PATH_BYTES || contains_char(
        path,
        '\\',
    ) {
        return Err(VaultError::Embedding(cat3("invalid embedding cache path '", path, "'")));
    }
    match normalize_relative(path, windows) {
        Err(error) => {
            let detail = error.message();
            Err(
                VaultError::Embedding(
                    cat4("invalid embedding cache path '", path, "': ", detail.as_str()),
                ),
            )
        },
        Ok(normalized) => {
            if same(normalized.as_str(), path) {
                Ok(normalized)
            } else {
                Err(
                    VaultError::Embedding(
                        cat3("embedding cache path is not normalized: '", path, "'"),
                    ),
                )
            }
        },
    }
}

/// The largest cache file, in bytes, that is read for a space of the given
/// dimension and so many entries.
pub open spec fn byte_limit(dimension: nat, max_entries: nat) -> int {
    let dim = if dimension < 1 {
        1
    } else {
        dimension
    };
    let count = if max_entries < 1 {
        1
    } else {
        max_entries
    };
    let derived = count * (MAX_CACHE_PATH_BYTES + 4 * dim + 128) + 1048576;
    if derived < MAX_CACHE_BYTES {
        derived
    } else {
        MAX_CACHE_BYTES as int
    }
}

/// The dimension that the size limit is derived from.
pub open spec fn limit_dimension(expected: Option<IdentityView>) -> nat {
    match expected {
        Some(identity) => identity.dimension as nat,
        None => 384,
    }
}

/// What is said of a cache file that is too large, if it is.
pub open spec fn size_fault(
    size: nat,
    expected: Option<IdentityView>,
    max_entries: nat,
) -> Option<VaultErrorView> {
    let limit = byte_limit(limit_dimension(expected), max_entries);
    if size > limit {
        Some(
            VaultErrorView::Embedding(
                "embedding cache is too large: "@ + decimal(size) + " bytes (limit "@ + decimal(
                    limit as nat,
                ) + ")"@,
            ),
        )
    } else {
        None
    }
}

/// An optional borrowed identity.
pub open spec fn opt_identity_ref(identity: Option<&EmbeddingSpaceIdentity>) -> Option<
    IdentityView,
> {
    match identity {
        Some(value) => Some(value@),
        None => None,
    }
}

fn derived_limit(dim: usize, count: usize) -> (limit: u64)
    requires
        dim >= 1,
        count >= 1,
    ensures
        limit == byte_limit(dim as nat, count as nat),
{
    let cap: u64 = MAX_CACHE_BYTES;
    if dim as u64 > cap / 4 || count as u64 > cap {
        proof {
            let per_entry = MAX_CACHE_PATH_BYTES + 4 * dim + 128;
            assert(count * per_entry >= cap) by (nonlinear_arith)
                requires
                    count >= 1,
                    per_entry >= 1,
                    per_entry >= cap || count >= cap,
            ;
        }
        return cap;
    }
    let per_entry: u64 = MAX_CACHE_PATH_BYTES as u64 + 4 * (dim as u64) + 128;
    proof {
        assert(count * per_entry <= 0x4000_0000 * 0x4000_4080) by (nonlinear_arith)
            requires
                count <= 0x4000_0000,
                per_entry <= 0x4000_4080,
        ;
    }
    let derived: u64 = count as u64 * per_entry + 1048576;
    if derived < cap {
        derived
    } else {
        cap
    }
}

/// Checks the size of a cache file before it is read.
pub fn check_cache_size(
    size: u64,
    expected: Option<&EmbeddingSpaceIdentity>,
    max_entries: usize,
) -> (result: Result<(), VaultError>)
    ensures
        fault_of(result) == size_fault(
            size as nat,
            opt_identity_ref(expected),
            max_entries as nat,
        ),
{
    let dimension: usize = match expected {
        Some(identity) => identity.dimension,
        None => 384,
    };
    let dim: usize = if dimension < 1 {
        1
    } else {
        dimension
    };
    let count: usize = if max_entries < 1 {
        1
    } else {
        max_entries
    };
    let limit = derived_limit(dim, count);
    if size > limit {
        let size_text = to_decimal(size);
        let limit_text = to_decimal(limit);
        Err(
            VaultError::Embedding(
                cat5(
                    "embedding cache is too large: ",
                    size_text.as_str(),
                    " bytes (limit ",
                    limit_text.as_str(),
                    ")",
                ),
            ),
        )
    } else {
        Ok(())
    }
}

/// The identity in a cache.
pub open spec fn cached_identity(data: CacheView) -> IdentityView {
    IdentityView {
        backend: data.backend,
        model: data.model,
        endpoint_fingerprint: data.endpoint_fingerprint,
        dimension: data.dimension,
        input_version: data.input_version,
    }
}

/// The entries read from position `i` on, added to `map`. `keys` holds the
/// composed forms of the paths before. The first fault ends the reading.
pub open spec fn restore_from(
    list: Seq<CacheEntryView>,
    dim: nat,
    i: int,
    map: Map<Seq<char>, EntryView>,
    keys: Set<Seq<char>>,
    windows: bool,
) -> Result<Map<Seq<char>, EntryView>, VaultErrorView>
    decreases list.len() - i,
{
    if i < 0 || i >= list.len() {
        Ok(map)
    } else {
        let entry = list[i];
        let vector = bit_seq(entry.vector);
        if cache_path_fault(entry.path, windows) is Some {
            Err(cache_path_fault(entry.path, windows)->0)
        } else if keys.contains(composed(entry.path)) || map.contains_key(entry.path) {
            Err(
                VaultErrorView::Embedding(
                    "embedding cache contains duplicate path '"@ + entry.path + "'"@,
                ),
            )
        } else if vector_fault(vector, dim) is Some {
            Err(vector_fault(vector, dim)->0)
        } else {
            restore_from(
                list,
                dim,
                i + 1,
                map.insert(
                    entry.path,
                    EntryView {
                        path: entry.path,
                        vector,
                        content_hash: Some(entry.content_hash),
                    },
                ),
                keys.insert(composed(entry.path)),
                windows,
            )
        }
    }
}

/// The store that decoded cache contents stand for. `complete` tells whether the
/// contents took up the whole file.
pub open spec fn restored(
    data: CacheView,
    complete: bool,
    expected: Option<IdentityView>,
    max_entries: nat,
    windows: bool,
) -> Result<StoreView, VaultErrorView> {
    if !complete {
        Err(VaultErrorView::Embedding("embedding cache contains trailing bytes"@))
    } else if data.magic != cache_magic() {
        Err(VaultErrorView::Embedding("unsupported legacy embedding cache format"@))
    } else if data.schema_version != CACHE_SCHEMA_VERSION {
        Err(
            VaultErrorView::Embedding(
                "unsupported embedding cache schema version "@ + decimal(
                    data.schema_version as nat,
                ),
            ),
        )
    } else if data.dimension == 0 {
        Err(VaultErrorView::Embedding("embedding cache dimension must be greater than zero"@))
    } else if expected is Some && expected != Some(cached_identity(data)) {
        Err(VaultErrorView::Embedding("embedding cache vector-space identity mismatch"@))
    } else if data.entries.len() > max_entries {
        Err(
            VaultErrorView::Embedding(
                "embedding cache contains too many entries: "@ + decimal(data.entries.len())
                    + " (limit "@ + decimal(max_entries) + ")"@,
            ),
        )
    } else {
        match restore_from(
            data.entries,
            data.dimension as nat,
            0,
            Map::empty(),
            Set::empty(),
            windows,
        ) {
            Ok(entries) => Ok(
                StoreView {
                    entries,
                    dim: data.dimension,
                    identity: Some(cached_identity(data)),
                    first_pass_complete: data.first_pass_complete,
                },
            ),
            Err(error) => Err(error),
        }
    }
}

/// A reading's outcome as mathematical values.
pub open spec fn load_outcome(result: Result<EmbeddingStore, VaultError>) -> Result<
    StoreView,
    VaultErrorView,
> {
    match result {
        Ok(store) => Ok(store@),
        Err(error) => Err(error@),
    }
}

fn is_magic(magic: &[u8; 8]) -> (yes: bool)
    ensures
        yes == (magic@ == cache_magic()),
{
    let expected = magic_bytes();
    let mut i: usize = 0;
    while i < 8
        invariant
            i <= 8,
            expected@ == cache_magic(),
            forall|k: int| 0 <= k < i ==> magic@[k] == expected@[k],
        decreases 8 - i,
    {
        if magic[i] != expected[i] {
            return false;
        }
        i += 1;
    }
    assert(magic@ =~= expected@);
    true
}

fn restore_entries(
    list: &Vec<(String, [u8; 32], Vec<[u8; 4]>)>,
    dim: usize,
    windows: bool,
) -> (result: Result<Keyed<EmbeddingEntry>, VaultError>)
    ensures
        match result {
            Ok(map) => restore_from(
                entry_views(list@),
                dim as nat,
                0,
                Map::empty(),
                Set::empty(),
                windows,
            ) == Ok::<Map<Seq<char>, EntryView>, VaultErrorView>(map@),
            Err(error) => restore_from(
                entry_views(list@),
                dim as nat,
                0,
                Map::empty(),
                Set::empty(),
                windows,
            ) == Err::<Map<Seq<char>, EntryView>, VaultErrorView>(error@),
        },
{
    let mut map: Keyed<EmbeddingEntry> = Keyed::new();
    let mut keys: Keyed<()> = Keyed::new();
    let ghost views = entry_views(list@);
    let mut i: usize = 0;
    assert(keys@.dom() =~= Set::<Seq<char>>::empty());
    while i < list.len()
        invariant
            i <= list@.len(),
            views == entry_views(list@),
            restore_from(views, dim as nat, 0, Map::empty(), Set::empty(), windows) == restore_from(
                views,
                dim as nat,
                i as int,
                map@,
                keys@.dom(),
                windows,
            ),
        decreases list@.len() - i,
    {
        let entry = &list[i];
        assert(views[i as int] == entry_view(*entry));
        let relative = match validate_cache_path(entry.0.as_str(), windows) {
            Ok(relative) => relative,
            Err(error) => {
                return Err(error);
            },
        };
        let canonical = compose(entry.0.as_str());
        if keys.contains_key(canonical.as_str()) || map.contains_key(relative.as_str()) {
            return Err(
                VaultError::Embedding(
                    cat3("embedding cache contains duplicate path '", entry.0.as_str(), "'"),
                ),
            );
        }
        let ghost key_text = canonical@;
        let ghost keys_before = keys@;
        let vector = vector_of(&entry.2);
        match validate_vector(&vector, dim) {
            Ok(_) => {},
            Err(error) => {
                return Err(error);
            },
        }
        keys.insert(canonical, ());
        map.insert(
            relative,
            EmbeddingEntry { path: entry.0.clone(), vector, content_hash: Some(entry.1) },
        );
        assert(keys@.dom() =~= keys_before.dom().insert(key_text));
        i += 1;
    }
    Ok(map)
}

/// Turns decoded cache contents into a store.
pub fn restore(
    data: CacheData,
    complete: bool,
    expected: Option<&EmbeddingSpaceIdentity>,
    max_entries: usize,
    windows: bool,
) -> (result: Result<EmbeddingStore, VaultError>)
    ensures
        load_outcome(result) == restored(
            data@,
            complete,
            opt_identity_ref(expected),
            max_entries as nat,
            windows,
        ),
{
    if !complete {
        return Err(
            VaultError::Embedding("embedding cache contains trailing bytes".to_owned()),
        );
    }
    if !is_magic(&data.magic) {
        return Err(
            VaultError::Embedding("unsupported legacy embedding cache format".to_owned()),
        );
    }
    if data.schema_version != CACHE_SCHEMA_VERSION {
        let version = to_decimal(data.schema_version as u64);
        return Err(
            VaultError::Embedding(
                cat2("unsupported embedding cache schema version ", version.as_str()),
            ),
        );
    }
    if data.dimension == 0 {
        return Err(
            VaultError::Embedding(
                "embedding cache dimension must be greater than zero".to_owned(),
            ),
        );
    }
    let identity = EmbeddingSpaceIdentity {
        backend: data.backend,
        model: data.model.clone(),
        endpoint_fingerprint: data.endpoint_fingerprint,
        dimension: data.dimension,
        input_version: data.input_version,
    };
    assert(identity@ == cached_identity(data@));
    match expected {
        Some(wanted) => {
            if !identity.same_space(wanted) {
                return Err(
                    VaultError::Embedding(
                        "embedding cache vector-space identity mismatch".to_owned(),
                    ),
                );
            }
        },
        None => {},
    }
    assert(data@.entries.len() == data.entries@.len());
    if data.entries.len() > max_entries {
        let count = to_decimal(data.entries.len() as u64);
        let limit = to_decimal(max_entries as u64);
        return Err(
            VaultError::Embedding(
                cat5(
                    "embedding cache contains too many entries: ",
                    count.as_str(),
                    " (limit ",
                    limit.as_str(),
                    ")",
                ),
            ),
        );
    }
    match restore_entries(&data.entries, data.dimension, windows) {
        Ok(entries) => Ok(
            EmbeddingStore::from_entries(entries, identity, data.first_pass_complete),
        ),
        Err(error) => Err(error),
    }
}

/// The store that the bytes of a cache file stand for.
pub open spec fn loaded(
    bytes: Seq<u8>,
    expected: Option<IdentityView>,
    max_entries: nat,
    windows: bool,
) -> Result<StoreView, VaultErrorView> {
    if size_fault(bytes.len(), expected, max_entries) is Some {
        Err(size_fault(bytes.len(), expected, max_entries)->0)
    } else {
        match cache_decoding(bytes) {
            Err(message) => Err(
                VaultErrorView::Embedding("cache deserialize error: "@ + message),
            ),
            Ok((data, consumed)) => restored(
                data,
                consumed == bytes.len(),
                expected,
                max_entries,
                windows,
            ),
        }
    }
}

impl EmbeddingStore {
    /// Reads a store from the bytes of a cache file.
    pub fn load(bytes: &Vec<u8>, windows: bool) -> (result: Result<EmbeddingStore, VaultError>)
        ensures
            load_outcome(result) == loaded(bytes@, None, MAX_CACHE_ENTRIES as nat, windows),
    {
        Self::load_bounded(bytes, None, MAX_CACHE_ENTRIES, windows)
    }

    /// Reads a store for a known vector space and a vault with so many notes.
    pub fn load_for_space(
        bytes: &Vec<u8>,
        expected: &EmbeddingSpaceIdentity,
        current_note_count: usize,
        windows: bool,
    ) -> (result: Result<EmbeddingStore, VaultError>)
        ensures
            load_outcome(result) == loaded(
                bytes@,
                Some(expected@),
                entry_limit(current_note_count as nat),
                windows,
            ),
    {
        Self::load_bounded(bytes, Some(expected), current_note_count.saturating_add(1024), windows)
    }

    /// Reads a store from the bytes of a cache file with at most `max_entries` entries.
    pub fn load_bounded(
        bytes: &Vec<u8>,
        expected: Option<&EmbeddingSpaceIdentity>,
        max_entries: usize,
        windows: bool,
    ) -> (result: Result<EmbeddingStore, VaultError>)
        ensures
            load_outcome(result) == loaded(
                bytes@,
                opt_identity_ref(expected),
                max_entries as nat,
                windows,
            ),
    {
        match check_cache_size(bytes.len() as u64, expected, max_entries) {
            Ok(_) => {},
            Err(error) => {
                return Err(error);
            },
        }
        match decode_cache_data(bytes.as_slice()) {
            Err(message) => Err(
                VaultError::Embedding(cat2("cache deserialize error: ", message.as_str())),
            ),
            Ok(pair) => {
                let complete = pair.1 == bytes.len();
                restore(pair.0, complete, expected, max_entries, windows)
            },
        }
    }
}

/// Whether a note is written to the cache: only those whose text digest is known.
pub open spec fn is_saved(store: StoreView, key: Seq<char>) -> bool {
    store.entries.contains_key(key) && store.entries[key].content_hash is Some
}

/// The part of a store that a cache keeps.
pub open spec fn saved_part(store: StoreView) -> StoreView {
    StoreView {
        entries: Map::new(|key: Seq<char>| is_saved(store, key), |key: Seq<char>|
            store.entries[key]),
        first_pass_complete: store.first_pass_complete && forall|key: Seq<char>| #[trigger]
            store.entries.contains_key(key) ==> is_saved(store, key),
        ..store
    }
}

/// Whether the paths that are written are acceptable cache paths as they are
/// spelled, no two of which have the same composed form.
pub open spec fn has_cacheable_paths(store: StoreView, windows: bool) -> bool {
    &&& forall|key: Seq<char>| #[trigger]
        is_saved(store, key) ==> cache_path_fault(store.entries[key].path, windows) is None
    &&& forall|a: Seq<char>, b: Seq<char>| #[trigger]
        is_saved(store, a) && #[trigger] is_saved(store, b) && composed(store.entries[a].path)
            == composed(store.entries[b].path) ==> a == b
}

/// Whether every written note is kept under its path as it is spelled.
spec fn is_plainly_kept(store: StoreView) -> bool {
    forall|key: Seq<char>| #[trigger] is_saved(store, key) ==> store.entries[key].path == key
}

proof fn lemma_plainly_kept(store: StoreView, windows: bool)
    requires
        well_spelled(store, windows),
        has_cacheable_paths(store, windows),
    ensures
        is_plainly_kept(store),
{
    assert forall|key: Seq<char>| #[trigger] is_saved(store, key) implies store.entries[key].path
        == key by {
        normal_path_is_its_key(store.entries[key].path, windows);
    }
}

proof fn lemma_cache_entries(paths: Seq<Seq<char>>, store: StoreView)
    requires
        is_plainly_kept(store),
        paths.no_duplicates(),
        forall|i: int| 0 <= i < paths.len() ==> store.entries.contains_key(#[trigger] paths[i]),
    ensures
        cache_entries(paths, store.entries).len() <= paths.len(),
        cache_entries(paths, store.entries).len() == paths.len() <==> (forall|i: int|
            0 <= i < paths.len() ==> is_saved(store, #[trigger] paths[i])),
        forall|i: int|
            #![trigger cache_entries(paths, store.entries)[i]]
            0 <= i < cache_entries(paths, store.entries).len() ==> {
                let entry = cache_entries(paths, store.entries)[i];
                &&& is_saved(store, entry.path)
                &&& paths.contains(entry.path)
                &&& Some(entry.content_hash) == store.entries[entry.path].content_hash
                &&& entry.vector == quad_seq(store.entries[entry.path].vector)
            },
        forall|i: int, j: int|
            0 <= i < j < cache_entries(paths, store.entries).len() ==> (#[trigger] cache_entries(
                paths,
                store.entries,
            )[i]).path != (#[trigger] cache_entries(paths, store.entries)[j]).path,
        forall|k: int|
            0 <= k < paths.len() && is_saved(store, #[trigger] paths[k]) ==> exists|i: int|
                0 <= i < cache_entries(paths, store.entries).len() && (#[trigger] cache_entries(
                    paths,
                    store.entries,
                )[i]).path == paths[k],
    decreases paths.len(),
{
    if paths.len() > 0 {
        let init = paths.drop_last();
        let list = cache_entries(paths, store.entries);
        let rest = cache_entries(init, store.entries);
        let last = paths.last();
        lemma_cache_entries(init, store);
        assert(paths[paths.len() - 1] == last);
        if store.entries[last].content_hash is Some {
            assert(is_saved(store, last));
            assert(list[rest.len() as int].path == last);
        }
        assert forall|i: int| #![trigger list[i]] 0 <= i < list.len() implies {
            let entry = list[i];
            &&& is_saved(store, entry.path)
            &&& paths.contains(entry.path)
            &&& Some(entry.content_hash) == store.entries[entry.path].content_hash
            &&& entry.vector == quad_seq(store.entries[entry.path].vector)
        } by {
            if i < rest.len() {
                assert(list[i] == rest[i]);
                let k = init.index_of(rest[i].path);
                assert(paths[k] == rest[i].path);
            }
        }
        assert forall|i: int, j: int| 0 <= i < j < list.len() implies (#[trigger] list[i]).path != (
        #[trigger] list[j]).path by {
            assert(list[i] == rest[i]);
            if j < rest.len() {
                assert(list[j] == rest[j]);
            } else {
                let k = init.index_of(rest[i].path);
                assert(paths[k] != paths[paths.len() - 1]);
            }
        }
        assert forall|k: int| 0 <= k < paths.len() && is_saved(
            store,
            #[trigger] paths[k],
        ) implies exists|i: int| 0 <= i < list.len() && (#[trigger] list[i]).path == paths[k] by {
            if k < init.len() {
                assert(init[k] == paths[k]);
                let i = choose|i: int| 0 <= i < rest.len() && (#[trigger] rest[i]).path == init[k];
                assert(list[i].path == paths[k]);
            } else {
                assert(list[list.len() - 1].path == paths[k]);
            }
        }
        if list.len() == paths.len() {
            assert forall|i: int| 0 <= i < paths.len() implies is_saved(
                store,
                #[trigger] paths[i],
            ) by {
                if i < init.len() {
                    assert(init[i] == paths[i]);
                }
            }
        }
        if forall|i: int| 0 <= i < paths.len() ==> is_saved(store, #[trigger] paths[i]) {
            assert forall|i: int| 0 <= i < init.len() implies is_saved(
                store,
                #[trigger] init[i],
            ) by {
                assert(init[i] == paths[i]);
            }
        }
    }
}

/// The entries of the first `n` cached notes.
spec fn first_entries(list: Seq<CacheEntryView>, store: StoreView, n: int) -> Map<
    Seq<char>,
    EntryView,
> {
    Map::new(
        |path: Seq<char>| exists|i: int| 0 <= i < n && (#[trigger] list[i]).path == path,
        |path: Seq<char>| store.entries[path],
    )
}

/// The composed forms of the paths of the first `n` cached notes.
spec fn first_keys(list: Seq<CacheEntryView>, n: int) -> Set<Seq<char>> {
    Set::new(
        |key: Seq<char>| exists|i: int| 0 <= i < n && composed((#[trigger] list[i]).path) == key,
    )
}

proof fn lemma_restore_saved(paths: Seq<Seq<char>>, store: StoreView, n: int, windows: bool)
    requires
        is_plainly_kept(store),
        paths.no_duplicates(),
        paths.to_set() == store.entries.dom(),
        consistent(store),
        has_cacheable_paths(store, windows),
        0 <= n <= cache_entries(paths, store.entries).len(),
    ensures
        restore_from(
            cache_entries(paths, store.entries),
            store.dim as nat,
            n,
            first_entries(cache_entries(paths, store.entries), store, n),
            first_keys(cache_entries(paths, store.entries), n),
            windows,
        ) == Ok::<Map<Seq<char>, EntryView>, VaultErrorView>(saved_part(store).entries),
    decreases cache_entries(paths, store.entries).len() - n,
{
    let list = cache_entries(paths, store.entries);
    assert forall|i: int| 0 <= i < paths.len() implies store.entries.contains_key(
        #[trigger] paths[i],
    ) by {
        assert(paths.to_set().contains(paths[i]));
    }
    lemma_cache_entries(paths, store);
    let map = first_entries(list, store, n);
    let keys = first_keys(list, n);
    if n == list.len() {
        assert forall|path: Seq<char>| map.contains_key(path) <==> #[trigger] is_saved(
            store,
            path,
        ) by {
            if is_saved(store, path) {
                assert(paths.to_set().contains(path));
                let k = paths.index_of(path);
                assert(is_saved(store, paths[k]));
            }
            if map.contains_key(path) {
                let i = choose|i: int| 0 <= i < n && (#[trigger] list[i]).path == path;
                assert(is_saved(store, list[i].path));
            }
        }
        assert forall|path: Seq<char>| map.contains_key(path) <==> saved_part(
            store,
        ).entries.contains_key(path) by {
            assert(map.contains_key(path) <==> is_saved(store, path));
        }
        assert(map =~= saved_part(store).entries);
    } else {
        let entry = list[n];
        let stored = store.entries[entry.path];
        assert(is_saved(store, entry.path));
        assert(bit_seq(entry.vector) =~= stored.vector) by {
            assert forall|k: int| 0 <= k < stored.vector.len() implies bits_of(
                quad_of(stored.vector[k]),
            ) == stored.vector[k] by {
                lemma_quad_bits(stored.vector[k]);
            }
        }
        assert(!map.contains_key(entry.path)) by {
            if map.contains_key(entry.path) {
                let i = choose|i: int| 0 <= i < n && (#[trigger] list[i]).path == entry.path;
                assert(list[i].path != list[n].path);
            }
        }
        assert(!keys.contains(composed(entry.path))) by {
            if keys.contains(composed(entry.path)) {
                let i = choose|i: int|
                    0 <= i < n && composed((#[trigger] list[i]).path) == composed(entry.path);
                assert(is_saved(store, list[i].path));
                assert(list[i].path != list[n].path);
            }
        }
        let added = EntryView {
            path: entry.path,
            vector: bit_seq(entry.vector),
            content_hash: Some(entry.content_hash),
        };
        assert(added =~= stored);
        assert(first_entries(list, store, n + 1) =~= map.insert(entry.path, added)) by {
            assert forall|path: Seq<char>| first_entries(list, store, n + 1).contains_key(path)
                <==> map.insert(entry.path, added).contains_key(path) by {
                if first_entries(list, store, n + 1).contains_key(path) {
                    let i = choose|i: int| 0 <= i < n + 1 && (#[trigger] list[i]).path == path;
                    if i < n {
                        assert(map.contains_key(path));
                    }
                }
                if map.contains_key(path) {
                    let i = choose|i: int| 0 <= i < n && (#[trigger] list[i]).path == path;
                    assert(0 <= i < n + 1 && list[i].path == path);
                }
                assert(list[n].path == entry.path);
            }
        }
        assert(first_keys(list, n + 1) =~= keys.insert(composed(entry.path))) by {
            assert forall|key: Seq<char>| first_keys(list, n + 1).contains(key)
                <==> keys.insert(composed(entry.path)).contains(key) by {
                if first_keys(list, n + 1).contains(key) {
                    let i = choose|i: int|
                        0 <= i < n + 1 && composed((#[trigger] list[i]).path) == key;
                    if i < n {
                        assert(keys.contains(key));
                    }
                }
                if keys.contains(key) {
                    let i = choose|i: int| 0 <= i < n && composed((#[trigger] list[i]).path) == key;
                    assert(0 <= i < n + 1 && composed(list[i].path) == key);
                }
                assert(composed(list[n].path) == composed(entry.path));
            }
        }
        lemma_restore_saved(paths, store, n + 1, windows);
    }
}

/// Loading gives back what was saved: the bytes that `encode_cache` makes for a
/// consistent store with acceptable paths load as the part of the store whose
/// text digests are known, provided they are within the size and entry limits of
/// the reading and the expected vector space, if any, is the store's own.
pub proof fn load_gives_back_what_was_saved(
    store: StoreView,
    order: Seq<Seq<char>>,
    bytes: Seq<u8>,
    expected: Option<IdentityView>,
    max_entries: nat,
    windows: bool,
)
    requires
        consistent(store),
        well_spelled(store, windows),
        has_cacheable_paths(store, windows),
        encode_fault(store) is None,
        is_cache_in_order(store, order, bytes),
        readable_size(bytes.len(), cache_entries(order, store.entries).len()),
        expected is None || expected == store.identity,
        size_fault(bytes.len(), expected, max_entries) is None,
        order.len() <= max_entries,
    ensures
        loaded(bytes, expected, max_entries, windows) == Ok::<StoreView, VaultErrorView>(
            saved_part(store),
        ),
{
    let identity = store.identity->0;
    let paths = order;
    let data = cache_view(store, identity, paths);
    lemma_plainly_kept(store, windows);
    let list = data.entries;
    assert forall|i: int| 0 <= i < paths.len() implies store.entries.contains_key(
        #[trigger] paths[i],
    ) by {
        assert(paths.to_set().contains(paths[i]));
    }
    lemma_cache_entries(paths, store);
    lemma_restore_saved(paths, store, 0, windows);
    assert(first_entries(list, store, 0) =~= Map::empty());
    assert(first_keys(list, 0) =~= Set::empty());
    assert(cached_identity(data) == identity);
    assert(data.first_pass_complete == saved_part(store).first_pass_complete) by {
        if list.len() == paths.len() {
            assert forall|path: Seq<char>| #[trigger]
                store.entries.contains_key(path) implies is_saved(store, path) by {
                assert(paths.to_set().contains(path));
                let k = paths.index_of(path);
                assert(is_saved(store, paths[k]));
            }
        }
        if forall|path: Seq<char>| #[trigger]
            store.entries.contains_key(path) ==> is_saved(store, path) {
            assert forall|i: int| 0 <= i < paths.len() implies is_saved(
                store,
                #[trigger] paths[i],
            ) by {
                assert(store.entries.contains_key(paths[i]));
            }
        }
    }
}

proof fn lemma_restored_paths(
    list: Seq<CacheEntryView>,
    dim: nat,
    i: int,
    map: Map<Seq<char>, EntryView>,
    keys: Set<Seq<char>>,
    windows: bool,
)
    requires
        0 <= i,
        forall|key: Seq<char>| #[trigger]
            map.contains_key(key) ==> path_key(map[key].path, windows) == key,
    ensures
        restore_from(list, dim, i, map, keys, windows) matches Ok(after) ==> {
            &&& forall|k: int|
                i <= k < list.len() ==> cache_path_fault((#[trigger] list[k]).path, windows)
                    is None
            &&& forall|key: Seq<char>| #[trigger]
                after.contains_key(key) ==> path_key(after[key].path, windows) == key
        },
    decreases list.len() - i,
{
    if i < list.len() {
        let entry = list[i];
        let vector = bit_seq(entry.vector);
        if cache_path_fault(entry.path, windows) is None {
            normal_path_is_its_key(entry.path, windows);
            lemma_restored_paths(
                list,
                dim,
                i + 1,
                map.insert(
                    entry.path,
                    EntryView {
                        path: entry.path,
                        vector,
                        content_hash: Some(entry.content_hash),
                    },
                ),
                keys.insert(composed(entry.path)),
                windows,
            );
        }
    }
}

/// Every store that a cache file gives keeps each note under the key of its path.
pub proof fn loaded_store_is_well_spelled(
    bytes: Seq<u8>,
    expected: Option<IdentityView>,
    max_entries: nat,
    windows: bool,
)
    ensures
        loaded(bytes, expected, max_entries, windows) matches Ok(store) ==> well_spelled(
            store,
            windows,
        ),
{
    match cache_decoding(bytes) {
        Ok((data, consumed)) => {
            lemma_restored_paths(
                data.entries,
                data.dimension as nat,
                0,
                Map::empty(),
                Set::empty(),
                windows,
            );
        },
        Err(_) => {},
    }
}

proof fn lemma_saved_is_listed(
    order: Seq<Seq<char>>,
    entries: Map<Seq<char>, EntryView>,
    key: Seq<char>,
) -> (at: int)
    requires
        order.contains(key),
        entries[key].content_hash is Some,
    ensures
        0 <= at < cache_entries(order, entries).len(),
        cache_entries(order, entries)[at].path == entries[key].path,
    decreases order.len(),
{
    let rest = cache_entries(order.drop_last(), entries);
    if order.last() == key {
        rest.len() as int
    } else {
        let k = order.index_of(key);
        assert(order.drop_last()[k] == key);
        let at = lemma_saved_is_listed(order.drop_last(), entries, key);
        assert(cache_entries(order, entries)[at] == rest[at]);
        at
    }
}

/// A note is written as its path is spelled: where the spelling of one is not an
/// acceptable cache path, the whole file is refused.
pub proof fn unacceptable_spelling_is_refused(
    store: StoreView,
    order: Seq<Seq<char>>,
    bytes: Seq<u8>,
    key: Seq<char>,
    expected: Option<IdentityView>,
    max_entries: nat,
    windows: bool,
)
    requires
        is_cache_in_order(store, order, bytes),
        readable_size(bytes.len(), cache_entries(order, store.entries).len()),
        is_saved(store, key),
        cache_path_fault(store.entries[key].path, windows) is Some,
    ensures
        loaded(bytes, expected, max_entries, windows) is Err,
{
    let list = cache_entries(order, store.entries);
    assert(order.to_set().contains(key));
    let at = lemma_saved_is_listed(order, store.entries, key);
    lemma_restored_paths(
        list,
        store.identity->0.dimension as nat,
        0,
        Map::empty(),
        Set::empty(),
        windows,
    );
    assert(cache_path_fault(list[at].path, windows) is Some);
}

proof fn lemma_restored_vectors(
    list: Seq<CacheEntryView>,
    dim: nat,
    i: int,
    map: Map<Seq<char>, EntryView>,
    keys: Set<Seq<char>>,
    windows: bool,
)
    requires
        forall|path: Seq<char>| #[trigger]
            map.contains_key(path) ==> vector_fault(map[path].vector, dim) is None,
    ensures
        restore_from(list, dim, i, map, keys, windows) matches Ok(after) ==> forall|path: Seq<char>|
            #[trigger] after.contains_key(path) ==> vector_fault(after[path].vector, dim) is None,
    decreases list.len() - i,
{
    if !(i < 0 || i >= list.len()) {
        let entry = list[i];
        let vector = bit_seq(entry.vector);
        if vector_fault(vector, dim) is None {
            lemma_restored_vectors(
                list,
                dim,
                i + 1,
                map.insert(
                    entry.path,
                    EntryView {
                        path: entry.path,
                        vector,
                        content_hash: Some(entry.content_hash),
                    },
                ),
                keys.insert(composed(entry.path)),
                windows,
            );
        }
    }
}

/// Every store that a cache file gives is consistent, whatever the file holds.
pub proof fn loaded_store_is_consistent(
    bytes: Seq<u8>,
    expected: Option<IdentityView>,
    max_entries: nat,
    windows: bool,
)
    ensures
        loaded(bytes, expected, max_entries, windows) matches Ok(store) ==> consistent(store),
{
    match cache_decoding(bytes) {
        Ok((data, consumed)) => {
            lemma_restored_vectors(
                data.entries,
                data.dimension as nat,
                0,
                Map::empty(),
                Set::empty(),
                windows,
            );
        },
        Err(_) => {},
    }
}

/// The entries that are accepted for a vault with so many notes.
pub open spec fn entry_limit(note_count: nat) -> nat {
    if note_count + 1024 > usize::MAX {
        usize::MAX as nat
    } else {
        note_count + 1024
    }
}

/// A component is written as its four bytes, the lowest first, and read back from them.
pub proof fn components_are_read_back(bits: u32, vector: Seq<u32>)
    ensures
        bits_of(quad_of(bits)) == bits,
        quad_of(bits).len() == 4,
        quad_of(bits)[0] == bits % 256,
        bit_seq(quad_seq(vector)) == vector,
{
    assert forall|b: u32| bits_of(#[trigger] quad_of(b)) == b by {
        let low = b % 256;
        let second = b / 256 % 256;
        let third = b / 65536 % 256;
        let high = b / 16777216;
        assert(low + 256 * second + 65536 * third + 16777216 * high == b);
    }
    assert(bit_seq(quad_seq(vector)) =~= vector);
}

/// A cached path is accepted exactly where it is not empty, at most 16384 bytes long,
/// without backslashes and already in normal form.
pub proof fn cached_paths_are_normal(path: Seq<char>, windows: bool)
    ensures
        cache_path_fault(path, windows) is None <==> path.len() > 0 && encode_utf8(path).len() <= 16384
            && !path.contains('\\') && normal_relative(path, windows) == Some(path),
{
}

/// A cache may be as large as its entries can make it: each entry more allows a path of
/// the longest kind, its components and its bookkeeping, up to a gibibyte in all.
pub proof fn cache_limits_grow_with_the_entries(dimension: nat, max_entries: nat)
    requires
        dimension >= 1,
        max_entries >= 1,
    ensures
        byte_limit(dimension, max_entries) <= 1_073_741_824,
        byte_limit(0, max_entries) == byte_limit(1, max_entries),
        byte_limit(dimension, 0) == byte_limit(dimension, 1),
        byte_limit(dimension, max_entries) + 16384 + 4 * dimension + 128 <= 1_073_741_824
            ==> byte_limit(dimension, max_entries + 1) == byte_limit(dimension, max_entries) + 16384 + 4
            * dimension + 128,
        byte_limit(dimension, max_entries) + 16384 + 4 * dimension + 128 > 1_073_741_824
            ==> byte_limit(dimension, max_entries + 1) == 1_073_741_824,
        entry_limit(max_entries) >= max_entries || entry_limit(max_entries) == usize::MAX,
        max_entries + 1024 <= usize::MAX ==> entry_limit(max_entries) == max_entries + 1024,
{
    let one = (MAX_CACHE_PATH_BYTES + 4 * dimension + 128) as int;
    assert((max_entries + 1) * one == max_entries * one + one) by (nonlinear_arith);
    assert(max_entries * one >= 0) by (nonlinear_arith)
        requires
            one >= 0,
    ;
}

/// A file beyond its limit is refused, and any other is not refused for its size; the
/// limit of a file for an unknown space is that of the usual dimension.
pub proof fn oversized_caches_are_refused(size: nat, identity: IdentityView, max_entries: nat)
    ensures
        size_fault(size, Some(identity), max_entries) is Some <==> size > byte_limit(
            identity.dimension as nat,
            max_entries,
        ),
        size_fault(size, None, max_entries) is Some <==> size > byte_limit(384, max_entries),
{
}

/// What is restored is a whole cache of this format and version, of the expected vector
/// space and with no more entries than allowed; its space and its completeness are those
/// that were written.
pub proof fn foreign_caches_are_refused(
    data: CacheView,
    complete: bool,
    expected: Option<IdentityView>,
    max_entries: nat,
    windows: bool,
)
    ensures
        restored(data, complete, expected, max_entries, windows) matches Ok(store) ==> {
            &&& complete
            &&& data.magic == seq![0x4fu8, 0x42u8, 0x53u8, 0x4du8, 0x43u8, 0x50u8, 0x45u8, 0x4du8]
            &&& data.schema_version == 1
            &&& data.dimension > 0
            &&& data.entries.len() <= max_entries
            &&& store.dim == data.dimension
            &&& store.first_pass_complete == data.first_pass_complete
            &&& store.identity matches Some(identity)
            &&& identity.backend == data.backend
            &&& identity.model == data.model
            &&& identity.endpoint_fingerprint == data.endpoint_fingerprint
            &&& identity.dimension == data.dimension
            &&& identity.input_version == data.input_version
            &&& expected is Some ==> expected == store.identity
        },
{
}

proof fn lemma_restored_entries(
    list: Seq<CacheEntryView>,
    dim: nat,
    i: int,
    map: Map<Seq<char>, EntryView>,
    keys: Set<Seq<char>>,
    windows: bool,
)
    requires
        0 <= i <= list.len(),
    ensures
        restore_from(list, dim, i, map, keys, windows) matches Ok(all) ==> {
            &&& forall|path: Seq<char>| #[trigger]
                map.contains_key(path) ==> all.contains_key(path) && all[path] == map[path]
            &&& forall|k: int|
                i <= k < list.len() ==> all.contains_key((#[trigger] list[k]).path)
                    && all[list[k].path].vector == bit_seq(list[k].vector)
                    && all[list[k].path].content_hash == Some(list[k].content_hash)
            &&& forall|path: Seq<char>| #[trigger]
                all.contains_key(path) ==> map.contains_key(path) || exists|k: int|
                    i <= k < list.len() && (#[trigger] list[k]).path == path
        },
    decreases list.len() - i,
{
    if i < list.len() && restore_from(list, dim, i, map, keys, windows) is Ok {
        let entry = list[i];
        let next = map.insert(
            entry.path,
            EntryView {
                path: entry.path,
                vector: bit_seq(entry.vector),
                content_hash: Some(entry.content_hash),
            },
        );
        lemma_restored_entries(
            list,
            dim,
            i + 1,
            next,
            keys.insert(composed(entry.path)),
            windows,
        );
        let all = restore_from(list, dim, i, map, keys, windows)->Ok_0;
        assert(next.contains_key(entry.path));
        assert forall|path: Seq<char>| #[trigger] map.contains_key(path) implies all.contains_key(path)
            && all[path] == map[path] by {
            assert(next.contains_key(path));
        }
        assert forall|path: Seq<char>| #[trigger] all.contains_key(path) implies map.contains_key(path)
            || exists|k: int| i <= k < list.len() && (#[trigger] list[k]).path == path by {
            if path == entry.path {
                assert(list[i].path == path);
            } else {
                assert(next.contains_key(path) <==> map.contains_key(path));
            }
        }
    }
}

/// A restored store holds just the written entries, each with its vector and its hash.
pub proof fn restored_entries_are_the_written_ones(
    data: CacheView,
    complete: bool,
    expected: Option<IdentityView>,
    max_entries: nat,
    windows: bool,
    i: int,
    path: Seq<char>,
)
    requires
        0 <= i < data.entries.len(),
    ensures
        restored(data, complete, expected, max_entries, windows) matches Ok(store) ==> {
            &&& store.entries.contains_key(data.entries[i].path)
            &&& store.entries[data.entries[i].path].vector == bit_seq(data.entries[i].vector)
            &&& store.entries[data.entries[i].path].content_hash == Some(data.entries[i].content_hash)
            &&& store.entries.contains_key(path) ==> exists|k: int|
                0 <= k < data.entries.len() && (#[trigger] data.entries[k]).path == path
        },
{
    lemma_restored_entries(
        data.entries,
        data.dimension as nat,
        0,
        Map::empty(),
        Set::empty(),
        windows,
    );
}

/// Only notes with a hash are written, and a store counts as complete in its cache only
/// where all its notes are.
pub proof fn only_hashed_notes_are_saved(store: StoreView, key: Seq<char>)
    ensures
        saved_part(store).entries.contains_key(key) <==> store.entries.contains_key(key)
            && store.entries[key].content_hash is Some,
        saved_part(store).entries.contains_key(key) ==> saved_part(store).entries[key]
            == store.entries[key],
        saved_part(store).first_pass_complete ==> store.first_pass_complete && (
        store.entries.contains_key(key) ==> store.entries[key].content_hash is Some),
        saved_part(store).identity == store.identity && saved_part(store).dim == store.dim,
        encode_fault(store) is None <==> (store.identity matches Some(identity)
            && identity.dimension == store.dim && store.dim > 0),
{
    if saved_part(store).first_pass_complete && store.entries.contains_key(key) {
        assert(is_saved(store, key));
    }
}

} // verus!
