//! The binary layout of the embedding cache.

use crate::vault::embeddings::EmbeddingBackendKind;
use vstd::prelude::*;

verus! {

/// How many bytes a decoder counts at most.
pub const DECODE_LIMIT: usize = 1_073_741_824;

/// The contents of a cache file. A vector component is four bytes, least
/// significant first.
pub struct CacheData {
    pub magic: [u8; 8],
    pub schema_version: u16,
    pub backend: EmbeddingBackendKind,
    pub model: String,
    pub endpoint_fingerprint: Option<[u8; 32]>,
    pub dimension: usize,
    pub input_version: u16,
    pub first_pass_complete: bool,
    pub entries: Vec<(String, [u8; 32], Vec<[u8; 4]>)>,
}

/// One cached note: its path, the digest of its text and its vector.
pub struct CacheEntryView {
    pub path: Seq<char>,
    pub content_hash: Seq<u8>,
    pub vector: Seq<Seq<u8>>,
}

/// The contents of a cache file as mathematical values.
#[verifier::ext_equal]
pub struct CacheView {
    pub magic: Seq<u8>,
    pub schema_version: u16,
    pub backend: EmbeddingBackendKind,
    pub model: Seq<char>,
    pub endpoint_fingerprint: Option<Seq<u8>>,
    pub dimension: usize,
    pub input_version: u16,
    pub first_pass_complete: bool,
    pub entries: Seq<CacheEntryView>,
}

/// The bytes of an optional digest.
pub open spec fn opt_digest(digest: Option<[u8; 32]>) -> Option<Seq<u8>> {
    match digest {
        Some(d) => Some(d@),
        None => None,
    }
}

/// The bytes of each component.
pub open spec fn quads(vector: Seq<[u8; 4]>) -> Seq<Seq<u8>> {
    vector.map_values(|q: [u8; 4]| q@)
}

/// One cached note as mathematical values.
pub open spec fn entry_view(entry: (String, [u8; 32], Vec<[u8; 4]>)) -> CacheEntryView {
    CacheEntryView { path: entry.0@, content_hash: entry.1@, vector: quads(entry.2@) }
}

/// The cached notes as mathematical values.
pub open spec fn entry_views(entries: Seq<(String, [u8; 32], Vec<[u8; 4]>)>) -> Seq<
    CacheEntryView,
> {
    entries.map_values(|e: (String, [u8; 32], Vec<[u8; 4]>)| entry_view(e))
}

impl View for CacheData {
    type V = CacheView;

    open spec fn view(&self) -> CacheView {
        CacheView {
            magic: self.magic@,
            schema_version: self.schema_version,
            backend: self.backend,
            model: self.model@,
            endpoint_fingerprint: opt_digest(self.endpoint_fingerprint),
            dimension: self.dimension,
            input_version: self.input_version,
            first_pass_complete: self.first_pass_complete,
            entries: entry_views(self.entries@),
        }
    }
}

/// The bytes that stand for some cache contents.
pub uninterp spec fn cache_encoding(data: CacheView) -> Seq<u8>;

/// What a byte sequence decodes to: the contents and the number of bytes they
/// took, or what is wrong with the bytes.
pub uninterp spec fn cache_decoding(bytes: Seq<u8>) -> Result<(CacheView, nat), Seq<char>>;

/// A decoding that gave `data` and took `taken` bytes.
pub open spec fn decoded(data: CacheView, taken: nat) -> Result<(CacheView, nat), Seq<char>> {
    Ok((data, taken))
}

/// A decoding that failed with a message.
pub open spec fn undecodable(message: Seq<char>) -> Result<(CacheView, nat), Seq<char>> {
    Err(message)
}

/// `bincode::serde::encode_to_vec` with the standard configuration; the backend
/// stands for a choice of two, the local one first. It cannot fail on these types,
/// which all have a known length. Decoding with
/// `bincode::serde::decode_from_slice` under a limit of one GiB gives the same
/// contents back and takes every byte, as long as the bytes that the decoder
/// counts stay within that limit: it counts a variable-length integer at its full
/// width, which adds at most fourteen bytes for each entry and sixty-four for
/// the rest.
#[verifier::external_body]
pub(crate) fn encode_cache_data(data: &CacheData) -> (result: Result<Vec<u8>, String>)
    ensures
        match result {
            Ok(bytes) => bytes@ == cache_encoding(data@) && (bytes@.len() + 14
                * data@.entries.len() + 64 <= DECODE_LIMIT ==> cache_decoding(bytes@) == decoded(
                data@,
                bytes@.len(),
            )),
            Err(_) => false,
        },
{
    let backend: Result<(), ()> = match data.backend {
        EmbeddingBackendKind::Local => Ok(()),
        EmbeddingBackendKind::Api => Err(()),
    };
    let identity = (
        backend,
        &data.model,
        &data.endpoint_fingerprint,
        data.dimension,
        data.input_version,
    );
    let whole =
        (&data.magic, data.schema_version, identity, data.first_pass_complete, &data.entries);
    bincode::serde::encode_to_vec(whole, bincode::config::standard()).map_err(|e| e.to_string())
}

/// `bincode::serde::decode_from_slice` with the standard configuration and a
/// limit of one GiB: the decoded contents with the number of bytes they took, or
/// the decoder's message, as for a choice that is neither of the two backends.
#[verifier::external_body]
pub(crate) fn decode_cache_data(bytes: &[u8]) -> (result: Result<(CacheData, usize), String>)
    ensures
        match result {
            Ok(pair) => cache_decoding(bytes@) == decoded(pair.0@, pair.1 as nat),
            Err(message) => cache_decoding(bytes@) == undecodable(message@),
        },
{
    let config = bincode::config::standard().with_limit::<DECODE_LIMIT>();
    let ((magic, schema_version, identity, first_pass_complete, entries), consumed) =
        bincode::serde::decode_from_slice(bytes, config).map_err(|e| e.to_string())?;
    let (kind, model, endpoint_fingerprint, dimension, input_version) = identity;
    let kind: Result<(), ()> = kind;
    let backend = match kind {
        Ok(()) => EmbeddingBackendKind::Local,
        Err(()) => EmbeddingBackendKind::Api,
    };
    let data = CacheData {
        magic, schema_version, backend, model, endpoint_fingerprint, dimension, input_version,
        first_pass_complete, entries,
    };
    Ok((data, consumed))
}

} // verus!
