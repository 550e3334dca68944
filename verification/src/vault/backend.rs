//! The rules of the embedding backends: which one to load, how an embedding API
//! is configured, asked and understood.

use crate::error::{VaultError, VaultErrorView};
use crate::number::{decimal, number_of, parse_number, to_decimal};
use crate::path::{join_path, joined_path};
use crate::json::{json_quoted, quote_json};
use crate::text::{
    cat2, cat4, cat5, eq_ignoring_case, join, joined, opt_str, opt_text, same, same_ignoring_case,
    texts, trim,
    trim_end_char, trimmed, without_trailing,
};
use crate::vault::embeddings::{
    batch_fault, finite, validate_embedding_batch, EmbeddingProvider, EmbeddingSpaceIdentity,
};
use vstd::prelude::*;

verus! {

/// How often a rate-limited request is repeated.
pub const MAX_RETRIES: u8 = 3;

/// The longest wait before a rate-limited request is repeated, in seconds.
pub const MAX_RETRY_SECONDS: u64 = 30;

/// The backend to load: the one asked for, else the local one where it is
/// compiled in, else the API.
pub fn resolve_provider(
    explicit: Option<EmbeddingProvider>,
    has_local: bool,
    has_api: bool,
) -> (provider: EmbeddingProvider)
    requires
        explicit is None ==> has_local || has_api,
    ensures
        provider == match explicit {
            Some(p) => p,
            None => if has_local {
                EmbeddingProvider::Local
            } else {
                EmbeddingProvider::Api
            },
        },
{
    match explicit {
        Some(p) => p,
        None => if has_local {
            EmbeddingProvider::Local
        } else {
            EmbeddingProvider::Api
        },
    }
}

/// The backend to load, or the error for one that is not compiled in.
pub fn loadable_provider(
    explicit: Option<EmbeddingProvider>,
    has_local: bool,
    has_api: bool,
) -> (result: Result<EmbeddingProvider, VaultError>)
    requires
        explicit is None ==> has_local || has_api,
    ensures
        ({
            let wanted = match explicit {
                Some(p) => p,
                None => if has_local {
                    EmbeddingProvider::Local
                } else {
                    EmbeddingProvider::Api
                },
            };
            match result {
                Ok(provider) => provider == wanted && match wanted {
                    EmbeddingProvider::Local => has_local,
                    EmbeddingProvider::Api => has_api,
                },
                Err(error) => match wanted {
                    EmbeddingProvider::Local => !has_local && error@ == VaultErrorView::Embedding(
                        "local embedding backend not compiled (needs --features embeddings)"@,
                    ),
                    EmbeddingProvider::Api => !has_api && error@ == VaultErrorView::Embedding(
                        "API embedding backend not compiled (needs --features embeddings-api)"@,
                    ),
                },
            }
        }),
{
    let provider = resolve_provider(explicit, has_local, has_api);
    match provider {
        EmbeddingProvider::Local => if has_local {
            Ok(provider)
        } else {
            Err(
                VaultError::Embedding(
                    "local embedding backend not compiled (needs --features embeddings)".to_owned(),
                ),
            )
        },
        EmbeddingProvider::Api => if has_api {
            Ok(provider)
        } else {
            Err(
                VaultError::Embedding(
                    "API embedding backend not compiled (needs --features embeddings-api)".to_owned(),
                ),
            )
        },
    }
}

/// A loaded embedding model: the vector space it embeds into.
pub struct EmbeddingModel {
    pub dim: usize,
    pub identity: EmbeddingSpaceIdentity,
}

impl EmbeddingModel {
    /// The dimension of the model's vectors.
    pub fn dim(&self) -> (dim: usize)
        ensures
            dim == self.dim,
    {
        self.dim
    }

    /// The vectors that the backend gave for `count` texts, if they are valid.
    pub fn embed_batch(&self, backend: Result<Vec<Vec<u32>>, VaultError>, count: usize) -> (result:
        Result<Vec<Vec<u32>>, VaultError>)
        ensures
            match backend {
                Err(error) => result == Err::<Vec<Vec<u32>>, VaultError>(error),
                Ok(vectors) => match result {
                    Ok(checked) => checked == vectors && batch_fault(
                        vectors@,
                        count as nat,
                        self.dim as nat,
                    ) is None,
                    Err(error) => batch_fault(vectors@, count as nat, self.dim as nat) == Some(
                        error@,
                    ),
                },
            },
    {
        match backend {
            Ok(vectors) => validate_embedding_batch(vectors, count, self.dim),
            Err(error) => Err(error),
        }
    }

    /// The vector of a single text.
    pub fn embed_one(&self, vectors: Vec<Vec<u32>>) -> (result: Result<Vec<u32>, VaultError>)
        ensures
            match result {
                Ok(vector) => vectors@.len() > 0 && vector == vectors@.last(),
                Err(error) => vectors@.len() == 0 && error@ == VaultErrorView::Embedding(
                    "embed returned empty result"@,
                ),
            },
    {
        let mut results = vectors;
        match results.pop() {
            Some(vector) => Ok(vector),
            None => Err(VaultError::Embedding("embed returned empty result".to_owned())),
        }
    }
}

/// The vector of a query.
pub fn query_vector(vectors: Vec<Vec<u32>>) -> (result: Result<Vec<u32>, VaultError>)
    ensures
        match result {
            Ok(vector) => vectors@.len() > 0 && vector == vectors@.last(),
            Err(error) => vectors@.len() == 0 && error@ == VaultErrorView::Embedding(
                "embedding query returned no vector"@,
            ),
        },
{
    let mut results = vectors;
    match results.pop() {
        Some(vector) => Ok(vector),
        None => Err(VaultError::Embedding("embedding query returned no vector".to_owned())),
    }
}

/// The dimension that the reply to a probing request shows.
pub fn probed_dimension(vectors: &Vec<Vec<u32>>) -> (result: Result<usize, VaultError>)
    ensures
        match result {
            Ok(dim) => vectors@.len() > 0 && dim > 0 && dim == vectors@[0]@.len(),
            Err(error) => if vectors@.len() == 0 {
                error@ == VaultErrorView::Embedding("dimension probe returned empty result"@)
            } else {
                vectors@[0]@.len() == 0 && error@ == VaultErrorView::Embedding(
                    "dimension probe returned zero-length vector"@,
                )
            },
        },
{
    if vectors.len() == 0 {
        return Err(VaultError::Embedding("dimension probe returned empty result".to_owned()));
    }
    if vectors[0].len() == 0 {
        return Err(
            VaultError::Embedding("dimension probe returned zero-length vector".to_owned()),
        );
    }
    Ok(vectors[0].len())
}

/// A variable's value without surrounding white space, unless nothing is left.
pub open spec fn set_value(value: Option<Seq<char>>) -> Option<Seq<char>> {
    match value {
        Some(text) => if trimmed(text).len() == 0 {
            None
        } else {
            Some(trimmed(text))
        },
        None => None,
    }
}

/// The value of the primary variable, else that of the fallback.
pub open spec fn first_set(primary: Option<Seq<char>>, fallback: Option<Seq<char>>) -> Option<
    Seq<char>,
> {
    if set_value(primary) is Some {
        set_value(primary)
    } else {
        set_value(fallback)
    }
}

fn read_trimmed(value: Option<&str>) -> (text: Option<String>)
    ensures
        opt_text(text) == set_value(opt_str(value)),
{
    match value {
        Some(raw) => {
            let text = trim(raw);
            if text.as_str().unicode_len() == 0 {
                None
            } else {
                Some(text)
            }
        },
        None => None,
    }
}

/// The value of the primary variable, else that of the fallback. A value of
/// white space only counts as missing.
pub fn read_env_with_fallback(primary: Option<&str>, fallback: Option<&str>) -> (value: Option<
    String,
>)
    ensures
        opt_text(value) == first_set(opt_str(primary), opt_str(fallback)),
{
    match read_trimmed(primary) {
        Some(value) => Some(value),
        None => read_trimmed(fallback),
    }
}

/// The number that a variable's value denotes.
pub open spec fn env_number(value: Option<Seq<char>>) -> Option<nat> {
    match value {
        Some(text) => number_of(trimmed(text), usize::MAX as nat),
        None => None,
    }
}

/// The number that a variable's value denotes.
pub fn parse_usize_env(value: Option<&str>) -> (number: Option<usize>)
    ensures
        match number {
            Some(n) => env_number(opt_str(value)) == Some(n as nat),
            None => env_number(opt_str(value)) is None,
        },
{
    match value {
        Some(raw) => {
            let text = trim(raw);
            match parse_number(text.as_str(), usize::MAX as u64) {
                Some(n) => Some(n as usize),
                None => None,
            }
        },
        None => None,
    }
}

/// The environment of the API backend: a variable of the server and the general
/// one that stands in for it.
pub struct ApiEnvironment {
    pub api_key: Option<String>,
    pub fallback_api_key: Option<String>,
    pub base_url: Option<String>,
    pub fallback_base_url: Option<String>,
    pub model: Option<String>,
    pub fallback_model: Option<String>,
    pub dimension: Option<String>,
}

/// How the API backend is reached. Without a dimension the API has to be probed.
pub struct ApiSettings {
    pub api_key: String,
    pub base_url: String,
    pub model: String,
    pub dimension: Option<usize>,
}

fn borrowed(value: &Option<String>) -> (text: Option<&str>)
    ensures
        opt_str(text) == opt_text(*value),
{
    match value {
        Some(text) => Some(text.as_str()),
        None => None,
    }
}

/// The settings that an environment gives for a model.
pub fn api_settings(environment: &ApiEnvironment, model_name: &str) -> (result: Result<
    ApiSettings,
    VaultError,
>)
    ensures
        ({
            let key = first_set(
                opt_text(environment.api_key),
                opt_text(environment.fallback_api_key),
            );
            let base = first_set(
                opt_text(environment.base_url),
                opt_text(environment.fallback_base_url),
            );
            let model = first_set(
                opt_text(environment.model),
                opt_text(environment.fallback_model),
            );
            match result {
                Err(error) => key is None && error@ == VaultErrorView::Embedding(
                    "API key required: set OBSIDIAN_EMBEDDING_API_KEY or OPENAI_API_KEY"@,
                ),
                Ok(settings) => {
                    &&& key == Some(settings.api_key@)
                    &&& settings.base_url@ == match base {
                        Some(url) => url,
                        None => "https://api.openai.com/v1"@,
                    }
                    &&& settings.model@ == match model {
                        Some(name) => name,
                        None => model_name@,
                    }
                    &&& match settings.dimension {
                        Some(n) => env_number(opt_text(environment.dimension)) == Some(n as nat),
                        None => env_number(opt_text(environment.dimension)) is None,
                    }
                },
            }
        }),
{
    let api_key = match read_env_with_fallback(
        borrowed(&environment.api_key),
        borrowed(&environment.fallback_api_key),
    ) {
        Some(key) => key,
        None => {
            return Err(
                VaultError::Embedding(
                    "API key required: set OBSIDIAN_EMBEDDING_API_KEY or OPENAI_API_KEY".to_owned(),
                ),
            );
        },
    };
    let base_url = match read_env_with_fallback(
        borrowed(&environment.base_url),
        borrowed(&environment.fallback_base_url),
    ) {
        Some(url) => url,
        None => "https://api.openai.com/v1".to_owned(),
    };
    let model = match read_env_with_fallback(
        borrowed(&environment.model),
        borrowed(&environment.fallback_model),
    ) {
        Some(name) => name,
        None => model_name.to_owned(),
    };
    let dimension = parse_usize_env(borrowed(&environment.dimension));
    Ok(ApiSettings { api_key, base_url, model, dimension })
}

/// Whether certificate verification is switched off.
pub fn tls_verification_disabled(value: Option<&str>) -> (disabled: bool)
    ensures
        disabled == match value {
            Some(text) => same_ignoring_case(text@, "false"@) || text@ == "0"@,
            None => false,
        },
{
    match value {
        Some(text) => eq_ignoring_case(text, "false") || same(text, "0"),
        None => false,
    }
}

/// The JSON texts that stand for texts.
pub open spec fn all_quoted(list: Seq<Seq<char>>) -> Seq<Seq<char>> {
    list.map_values(|text: Seq<char>| json_quoted(text))
}

/// The body of a request for the embeddings of texts.
pub fn embedding_request(model: &str, inputs: &Vec<String>) -> (body: String)
    ensures
        body@ == "{\"encoding_format\":\"float\",\"input\":["@ + joined(
            all_quoted(texts(inputs@)),
            ","@,
        ) + "],\"model\":"@ + json_quoted(model@) + "}"@,
{
    let ghost all = all_quoted(texts(inputs@));
    let mut quoted: Vec<String> = Vec::new();
    let mut i: usize = 0;
    assert(texts(quoted@) =~= all.take(0));
    while i < inputs.len()
        invariant
            i <= inputs@.len(),
            all == all_quoted(texts(inputs@)),
            texts(quoted@) == all.take(i as int),
        decreases inputs@.len() - i,
    {
        let ghost before_quoted = quoted@;
        quoted.push(quote_json(inputs[i].as_str()));
        assert(texts(quoted@) =~= texts(before_quoted).push(json_quoted(inputs@[i as int]@)));
        i += 1;
        assert(texts(quoted@) =~= all.take(i as int));
    }
    assert(all.take(i as int) =~= all);
    let list = join(quoted.as_slice(), ",");
    let name = quote_json(model);
    cat5(
        "{\"encoding_format\":\"float\",\"input\":[",
        list.as_str(),
        "],\"model\":",
        name.as_str(),
        "}",
    )
}

/// The address that embeddings are requested from.
pub fn embeddings_url(base_url: &str) -> (url: String)
    ensures
        url@ == without_trailing(base_url@, '/') + "/embeddings"@,
{
    let base = trim_end_char(base_url, '/');
    cat2(base.as_str(), "/embeddings")
}

/// Why a request did not get a reply.
#[derive(Debug, Clone, Copy, PartialEq, Eq, Structural)]
pub enum TransportFailure {
    Timeout,
    Connect,
    Builder,
    Other,
}

/// The error for a request without a reply. It names neither the address nor
/// the key nor what was sent.
pub fn transport_error(failure: TransportFailure) -> (error: VaultError)
    ensures
        error@ == VaultErrorView::Embedding(
            "embedding API "@ + match failure {
                TransportFailure::Timeout => "request timed out"@,
                TransportFailure::Connect => "connection failed"@,
                TransportFailure::Builder => "request could not be constructed"@,
                TransportFailure::Other => "request failed"@,
            },
        ),
{
    let detail = match failure {
        TransportFailure::Timeout => "request timed out",
        TransportFailure::Connect => "connection failed",
        TransportFailure::Builder => "request could not be constructed",
        TransportFailure::Other => "request failed",
    };
    VaultError::Embedding(cat2("embedding API ", detail))
}

/// What to do with a reply's status.
pub enum ApiStep {
    /// Wait so many seconds and repeat the request.
    Retry { seconds: u64 },
    /// Read the vectors from the reply.
    Accept,
    /// Give up.
    Reject(VaultError),
}

/// The wait before a rate-limited request is repeated, in seconds: what the
/// reply asks for, else a doubling time, and never more than the longest wait.
pub open spec fn retry_seconds(retry_after: Option<Seq<char>>, attempt: nat) -> nat {
    let asked = match retry_after {
        Some(text) => match number_of(text, u64::MAX as nat) {
            Some(n) => n,
            None => vstd::arithmetic::power2::pow2(attempt),
        },
        None => vstd::arithmetic::power2::pow2(attempt),
    };
    if asked < MAX_RETRY_SECONDS {
        asked
    } else {
        MAX_RETRY_SECONDS as nat
    }
}

/// Decides on a reply's status after `attempt` repetitions. `status_text` is the
/// status as it is shown.
pub fn api_step(status: u16, status_text: &str, retry_after: Option<&str>, attempt: u8) -> (step:
    ApiStep)
    ensures
        step is Retry <==> status == 429 && attempt < 3,
        step is Accept <==> 200 <= status <= 299,
        match step {
            ApiStep::Retry { seconds } => status == 429 && attempt < MAX_RETRIES && seconds
                == retry_seconds(opt_str(retry_after), attempt as nat),
            ApiStep::Accept => 200 <= status <= 299,
            ApiStep::Reject(error) => !(200 <= status <= 299) && !(status == 429 && attempt
                < MAX_RETRIES) && error@ == VaultErrorView::Embedding(
                "embedding API returned HTTP status "@ + status_text@,
            ),
        },
{
    if status == 429 && attempt < MAX_RETRIES {
        let backoff: u64 = if attempt == 0 {
            1
        } else if attempt == 1 {
            2
        } else {
            4
        };
        proof {
            vstd::arithmetic::power2::lemma2_to64();
        }
        let asked: u64 = match retry_after {
            Some(text) => match parse_number(text, u64::MAX) {
                Some(n) => n,
                None => backoff,
            },
            None => backoff,
        };
        let seconds: u64 = if asked < MAX_RETRY_SECONDS {
            asked
        } else {
            MAX_RETRY_SECONDS
        };
        return ApiStep::Retry { seconds };
    }
    if 200 <= status && status <= 299 {
        ApiStep::Accept
    } else {
        ApiStep::Reject(
            VaultError::Embedding(cat2("embedding API returned HTTP status ", status_text)),
        )
    }
}

/// The `index` of a reply's item.
#[derive(Debug, Clone, Copy, PartialEq, Eq, Structural)]
pub enum ReplyIndex {
    /// Absent or null.
    Missing,
    /// An unsigned integer.
    Unsigned(u64),
    /// Anything else.
    Other,
}

/// One element of a reply's `embedding` array.
#[derive(Debug, Clone, Copy, PartialEq, Eq, Structural)]
pub enum ReplyNumber {
    /// A number, rounded to a single.
    Bits(u32),
    /// Anything else.
    NotNumber,
}

/// One item of a reply's `data` array.
#[derive(Debug)]
pub struct ReplyItem {
    pub index: ReplyIndex,
    /// The `embedding` array, if there is one.
    pub embedding: Option<Vec<ReplyNumber>>,
}

/// The reply of an embedding API.
#[derive(Debug)]
pub struct EmbeddingReply {
    /// The `data` array, if there is one.
    pub data: Option<Vec<ReplyItem>>,
}

/// The vector that an `embedding` array spells from position `i` on, after `done`.
pub open spec fn reply_vector(values: Seq<ReplyNumber>, i: int, done: Seq<u32>) -> Result<
    Seq<u32>,
    VaultErrorView,
>
    decreases values.len() - i,
{
    if i < 0 || i >= values.len() {
        Ok(done)
    } else {
        match values[i] {
            ReplyNumber::NotNumber => Err(
                VaultErrorView::Embedding("non-numeric value in embedding vector"@),
            ),
            ReplyNumber::Bits(bits) => if finite(bits) {
                reply_vector(values, i + 1, done.push(bits))
            } else {
                Err(VaultErrorView::Embedding("non-finite value in embedding vector"@))
            },
        }
    }
}

/// The position that an item claims for its vector.
pub open spec fn item_index(item: ReplyItem, position: nat, indexed: bool, count: nat) -> Result<
    nat,
    VaultErrorView,
> {
    if (item.index is Missing) == indexed {
        Err(VaultErrorView::Embedding("embedding API returned mixed indexed and unindexed items"@))
    } else {
        match item.index {
            ReplyIndex::Missing => Ok(position),
            ReplyIndex::Other => Err(
                VaultErrorView::Embedding("embedding response index must be an unsigned integer"@),
            ),
            ReplyIndex::Unsigned(raw) => if raw > usize::MAX {
                Err(VaultErrorView::Embedding("embedding response index is out of range"@))
            } else if raw >= count {
                Err(
                    VaultErrorView::Embedding(
                        "embedding response index "@ + decimal(raw as nat)
                            + " is out of range for "@ + decimal(count) + " inputs"@,
                    ),
                )
            } else {
                Ok(raw as nat)
            },
        }
    }
}

/// What an item says: the position of its vector, and the vector.
pub open spec fn item_reading(item: ReplyItem, position: nat, indexed: bool, count: nat) -> Result<
    (nat, Seq<u32>),
    VaultErrorView,
> {
    match item_index(item, position, indexed, count) {
        Err(error) => Err(error),
        Ok(index) => match item.embedding {
            None => Err(
                VaultErrorView::Embedding("missing 'embedding' array in response item"@),
            ),
            Some(values) => match reply_vector(values@, 0, Seq::empty()) {
                Err(error) => Err(error),
                Ok(vector) => Ok((index, vector)),
            },
        },
    }
}

/// What the items from position `i` on say, after `done`. The first fault counts.
pub open spec fn item_readings(
    items: Seq<ReplyItem>,
    i: int,
    indexed: bool,
    done: Seq<(nat, Seq<u32>)>,
) -> Result<Seq<(nat, Seq<u32>)>, VaultErrorView>
    decreases items.len() - i,
{
    if i < 0 || i >= items.len() {
        Ok(done)
    } else {
        match item_reading(items[i], i as nat, indexed, items.len()) {
            Err(error) => Err(error),
            Ok(pair) => item_readings(items, i + 1, indexed, done.push(pair)),
        }
    }
}

/// How many readings are for position `v`.
pub open spec fn claims(readings: Seq<(nat, Seq<u32>)>, v: nat) -> nat
    decreases readings.len(),
{
    if readings.len() == 0 {
        0
    } else {
        claims(readings.drop_last(), v) + if readings.last().0 == v {
            1nat
        } else {
            0
        }
    }
}

/// The first position at or after `v` that some reading is for.
pub open spec fn next_claimed(readings: Seq<(nat, Seq<u32>)>, v: nat) -> nat
    decreases readings.len() - v,
{
    if v >= readings.len() || claims(readings, v) > 0 {
        v
    } else {
        next_claimed(readings, v + 1)
    }
}

/// What is wrong with the claimed positions from `v` on: each has to be claimed
/// exactly once. In ascending order the claims then are 0, 1, 2 and so on; the
/// fault names the first place where they are not, and what stands there.
pub open spec fn order_fault(readings: Seq<(nat, Seq<u32>)>, v: nat) -> Option<(nat, nat)>
    decreases readings.len() - v,
{
    if v >= readings.len() {
        None
    } else if claims(readings, v) == 0 {
        Some((v, next_claimed(readings, v)))
    } else if claims(readings, v) > 1 {
        Some((v + 1, v))
    } else {
        order_fault(readings, v + 1)
    }
}

/// The vectors of a list, by value.
pub open spec fn vector_views(list: Seq<Vec<u32>>) -> Seq<Seq<u32>> {
    list.map_values(|v: Vec<u32>| v@)
}

/// Whether the first item of a reply says which input it is for; the others then
/// have to do so too.
pub open spec fn starts_indexed(items: Seq<ReplyItem>) -> bool {
    items.len() > 0 && !(items[0].index is Missing)
}

/// Whether `vectors` are those of a reply to `count` inputs, in the order of the
/// inputs, or what is wrong with the reply.
pub open spec fn is_reading_of(
    reply: EmbeddingReply,
    count: nat,
    outcome: Result<Seq<Seq<u32>>, VaultErrorView>,
) -> bool {
    match reply.data {
        None => outcome == Err::<Seq<Seq<u32>>, VaultErrorView>(
            VaultErrorView::Embedding("missing 'data' array in API response"@),
        ),
        Some(data) => {
            let items = data@;
            if items.len() != count {
                outcome == Err::<Seq<Seq<u32>>, VaultErrorView>(
                    VaultErrorView::Embedding(
                        "embedding API returned "@ + decimal(items.len()) + " vectors for "@
                            + decimal(count) + " inputs"@,
                    ),
                )
            } else {
                match item_readings(items, 0, starts_indexed(items), Seq::empty()) {
                    Err(error) => outcome == Err::<Seq<Seq<u32>>, VaultErrorView>(error),
                    Ok(readings) => match order_fault(readings, 0) {
                        Some((expected, actual)) => outcome == Err::<
                            Seq<Seq<u32>>,
                            VaultErrorView,
                        >(
                            VaultErrorView::Embedding(
                                "embedding response indices are not unique and contiguous: expected "@
                                    + decimal(expected) + ", got "@ + decimal(actual),
                            ),
                        ),
                        None => outcome matches Ok(vectors) && vectors.len() == readings.len()
                            && forall|i: int|
                            0 <= i < readings.len() ==> vectors[(#[trigger] readings[i]).0 as int]
                                == readings[i].1,
                    },
                }
            }
        },
    }
}

spec fn reading_views(list: Seq<(usize, Vec<u32>)>) -> Seq<(nat, Seq<u32>)> {
    list.map_values(|e: (usize, Vec<u32>)| (e.0 as nat, e.1@))
}

fn read_vector(values: &Vec<ReplyNumber>) -> (result: Result<Vec<u32>, VaultError>)
    ensures
        match result {
            Ok(vector) => reply_vector(values@, 0, Seq::empty()) == Ok::<Seq<u32>, VaultErrorView>(
                vector@,
            ),
            Err(error) => reply_vector(values@, 0, Seq::empty()) == Err::<
                Seq<u32>,
                VaultErrorView,
            >(error@),
        },
{
    let mut vector: Vec<u32> = Vec::new();
    let mut i: usize = 0;
    while i < values.len()
        invariant
            i <= values@.len(),
            reply_vector(values@, 0, Seq::empty()) == reply_vector(values@, i as int, vector@),
        decreases values@.len() - i,
    {
        match values[i] {
            ReplyNumber::NotNumber => {
                return Err(
                    VaultError::Embedding("non-numeric value in embedding vector".to_owned()),
                );
            },
            ReplyNumber::Bits(bits) => {
                if (bits / 0x80_0000) % 0x100 == 0xff {
                    return Err(
                        VaultError::Embedding("non-finite value in embedding vector".to_owned()),
                    );
                }
                vector.push(bits);
            },
        }
        i += 1;
    }
    Ok(vector)
}

fn read_index(item: &ReplyItem, position: usize, indexed: bool, count: usize) -> (result: Result<
    usize,
    VaultError,
>)
    requires
        position < count,
    ensures
        match result {
            Ok(index) => index < count && item_index(
                *item,
                position as nat,
                indexed,
                count as nat,
            ) == Ok::<nat, VaultErrorView>(index as nat),
            Err(error) => item_index(*item, position as nat, indexed, count as nat) == Err::<
                nat,
                VaultErrorView,
            >(error@),
        },
{
    let missing = match item.index {
        ReplyIndex::Missing => true,
        _ => false,
    };
    if missing == indexed {
        return Err(
            VaultError::Embedding(
                "embedding API returned mixed indexed and unindexed items".to_owned(),
            ),
        );
    }
    match item.index {
        ReplyIndex::Missing => Ok(position),
        ReplyIndex::Other => Err(
            VaultError::Embedding(
                "embedding response index must be an unsigned integer".to_owned(),
            ),
        ),
        ReplyIndex::Unsigned(raw) => {
            if raw > usize::MAX as u64 {
                return Err(
                    VaultError::Embedding("embedding response index is out of range".to_owned()),
                );
            }
            if raw >= count as u64 {
                let index_text = to_decimal(raw);
                let count_text = to_decimal(count as u64);
                return Err(
                    VaultError::Embedding(
                        cat5(
                            "embedding response index ",
                            index_text.as_str(),
                            " is out of range for ",
                            count_text.as_str(),
                            " inputs",
                        ),
                    ),
                );
            }
            Ok(raw as usize)
        },
    }
}

fn read_items(items: &Vec<ReplyItem>, indexed: bool) -> (result: Result<
    Vec<(usize, Vec<u32>)>,
    VaultError,
>)
    ensures
        match result {
            Ok(list) => item_readings(items@, 0, indexed, Seq::empty()) == Ok::<
                Seq<(nat, Seq<u32>)>,
                VaultErrorView,
            >(reading_views(list@)) && list@.len() == items@.len() && forall|i: int|
                0 <= i < list@.len() ==> (#[trigger] list@[i]).0 < list@.len(),
            Err(error) => item_readings(items@, 0, indexed, Seq::empty()) == Err::<
                Seq<(nat, Seq<u32>)>,
                VaultErrorView,
            >(error@),
        },
{
    let mut list: Vec<(usize, Vec<u32>)> = Vec::new();
    let mut i: usize = 0;
    assert(reading_views(list@) =~= Seq::empty());
    while i < items.len()
        invariant
            i <= items@.len(),
            list@.len() == i,
            forall|k: int| 0 <= k < i ==> (#[trigger] list@[k]).0 < items@.len(),
            item_readings(items@, 0, indexed, Seq::empty()) == item_readings(
                items@,
                i as int,
                indexed,
                reading_views(list@),
            ),
        decreases items@.len() - i,
    {
        let item = &items[i];
        let index = match read_index(item, i, indexed, items.len()) {
            Ok(index) => index,
            Err(error) => {
                return Err(error);
            },
        };
        let vector = match &item.embedding {
            None => {
                return Err(
                    VaultError::Embedding(
                        "missing 'embedding' array in response item".to_owned(),
                    ),
                );
            },
            Some(values) => match read_vector(values) {
                Ok(vector) => vector,
                Err(error) => {
                    return Err(error);
                },
            },
        };
        let ghost before_list = list@;
        let ghost pair = (index as nat, vector@);
        list.push((index, vector));
        assert(reading_views(list@) =~= reading_views(before_list).push(pair));
        i += 1;
    }
    Ok(list)
}

fn count_claims(list: &Vec<(usize, Vec<u32>)>, v: usize) -> (n: usize)
    ensures
        n == claims(reading_views(list@), v as nat),
        n <= list@.len(),
{
    let mut n: usize = 0;
    let mut i: usize = 0;
    let ghost views = reading_views(list@);
    assert(views.take(0) =~= Seq::empty());
    while i < list.len()
        invariant
            n <= i <= list@.len(),
            views == reading_views(list@),
            n == claims(views.take(i as int), v as nat),
        decreases list@.len() - i,
    {
        assert(views.take(i + 1).drop_last() =~= views.take(i as int));
        assert(views.take(i + 1).last() == views[i as int]);
        if list[i].0 == v {
            n += 1;
        }
        i += 1;
    }
    assert(views.take(i as int) =~= views);
    n
}

fn find_next_claimed(list: &Vec<(usize, Vec<u32>)>, v: usize) -> (w: usize)
    requires
        v <= list@.len(),
    ensures
        w == next_claimed(reading_views(list@), v as nat),
{
    let mut w: usize = v;
    while w < list.len() && count_claims(list, w) == 0
        invariant
            v <= w <= list@.len(),
            next_claimed(reading_views(list@), v as nat) == next_claimed(
                reading_views(list@),
                w as nat,
            ),
            reading_views(list@).len() == list@.len(),
        decreases list@.len() - w,
    {
        w += 1;
    }
    w
}

fn find_order_fault(list: &Vec<(usize, Vec<u32>)>) -> (fault: Option<(usize, usize)>)
    ensures
        match fault {
            Some(pair) => order_fault(reading_views(list@), 0) == Some(
                (pair.0 as nat, pair.1 as nat),
            ),
            None => order_fault(reading_views(list@), 0) is None && forall|v: nat|
                v < list@.len() ==> #[trigger] claims(reading_views(list@), v) == 1,
        },
{
    let ghost views = reading_views(list@);
    let mut v: usize = 0;
    while v < list.len()
        invariant
            v <= list@.len() == views.len(),
            views == reading_views(list@),
            order_fault(views, 0) == order_fault(views, v as nat),
            forall|w: nat| w < v ==> #[trigger] claims(views, w) == 1,
        decreases list@.len() - v,
    {
        let n = count_claims(list, v);
        if n == 0 {
            let actual = find_next_claimed(list, v);
            return Some((v, actual));
        }
        if n > 1 {
            return Some((v + 1, v));
        }
        v += 1;
    }
    None
}

proof fn lemma_claim_counts(readings: Seq<(nat, Seq<u32>)>, v: nat, i: int)
    requires
        0 <= i < readings.len(),
        readings[i].0 == v,
    ensures
        claims(readings, v) >= 1,
    decreases readings.len(),
{
    if i < readings.len() - 1 {
        lemma_claim_counts(readings.drop_last(), v, i);
    }
}

proof fn lemma_single_claim(readings: Seq<(nat, Seq<u32>)>, v: nat, i: int, j: int)
    requires
        claims(readings, v) == 1,
        0 <= i < readings.len(),
        0 <= j < readings.len(),
        readings[i].0 == v,
        readings[j].0 == v,
    ensures
        i == j,
    decreases readings.len(),
{
    let init = readings.drop_last();
    let last = readings.len() - 1;
    if i < last && j < last {
        if readings.last().0 == v {
            lemma_claim_counts(init, v, i);
        }
        lemma_single_claim(init, v, i, j);
    } else if i < last {
        lemma_claim_counts(init, v, i);
    } else if j < last {
        lemma_claim_counts(init, v, j);
    }
}

proof fn lemma_claimed_somewhere(readings: Seq<(nat, Seq<u32>)>, v: nat) -> (i: int)
    requires
        claims(readings, v) > 0,
    ensures
        0 <= i < readings.len(),
        readings[i].0 == v,
    decreases readings.len(),
{
    if readings.last().0 == v {
        readings.len() - 1
    } else {
        lemma_claimed_somewhere(readings.drop_last(), v)
    }
}

/// A copy of a vector.
pub fn copy_vector(vector: &Vec<u32>) -> (copy: Vec<u32>)
    ensures
        copy@ == vector@,
{
    let mut copy: Vec<u32> = Vec::new();
    let mut i: usize = 0;
    while i < vector.len()
        invariant
            i <= vector@.len(),
            copy@ == vector@.take(i as int),
        decreases vector@.len() - i,
    {
        copy.push(vector[i]);
        i += 1;
    }
    assert(copy@ =~= vector@);
    copy
}

fn vector_claiming(list: &Vec<(usize, Vec<u32>)>, v: usize) -> (vector: Vec<u32>)
    requires
        claims(reading_views(list@), v as nat) == 1,
    ensures
        forall|i: int|
            0 <= i < list@.len() && (#[trigger] reading_views(list@)[i]).0 == v ==> vector@
                == reading_views(list@)[i].1,
{
    let ghost views = reading_views(list@);
    let mut i: usize = 0;
    while i < list.len()
        invariant
            i <= list@.len() == views.len(),
            views == reading_views(list@),
            claims(views, v as nat) == 1,
            forall|k: int| 0 <= k < i ==> (#[trigger] views[k]).0 != v,
        decreases list@.len() - i,
    {
        if list[i].0 == v {
            let vector = copy_vector(&list[i].1);
            assert(views[i as int] == (v as nat, vector@));
            assert forall|k: int| 0 <= k < list@.len() && (#[trigger] views[k]).0 == v implies vector@
                == views[k].1 by {
                lemma_single_claim(views, v as nat, i as int, k);
            }
            return vector;
        }
        assert(views[i as int].0 == list@[i as int].0);
        i += 1;
    }
    proof {
        let k = lemma_claimed_somewhere(views, v as nat);
        assert(false);
    }
    Vec::new()
}

/// Reads the vectors of a reply to `expected_count` inputs.
///
/// Either every item has an index, and the indices are a complete unique set, or
/// none has one and the order of the items counts.
pub fn parse_embedding_response(reply: &EmbeddingReply, expected_count: usize) -> (result: Result<
    Vec<Vec<u32>>,
    VaultError,
>)
    ensures
        is_reading_of(
            *reply,
            expected_count as nat,
            match result {
                Ok(vectors) => Ok(vector_views(vectors@)),
                Err(error) => Err(error@),
            },
        ),
{
    let items = match &reply.data {
        Some(items) => items,
        None => {
            return Err(
                VaultError::Embedding("missing 'data' array in API response".to_owned()),
            );
        },
    };
    if items.len() != expected_count {
        let got = to_decimal(items.len() as u64);
        let expected = to_decimal(expected_count as u64);
        return Err(
            VaultError::Embedding(
                cat5(
                    "embedding API returned ",
                    got.as_str(),
                    " vectors for ",
                    expected.as_str(),
                    " inputs",
                ),
            ),
        );
    }
    let indexed = items.len() > 0 && match items[0].index {
        ReplyIndex::Missing => false,
        _ => true,
    };
    assert(indexed == starts_indexed(items@));
    let list = match read_items(items, indexed) {
        Ok(list) => list,
        Err(error) => {
            return Err(error);
        },
    };
    let ghost views = reading_views(list@);
    match find_order_fault(&list) {
        Some(pair) => {
            let expected = to_decimal(pair.0 as u64);
            let actual = to_decimal(pair.1 as u64);
            return Err(
                VaultError::Embedding(
                    cat4(
                        "embedding response indices are not unique and contiguous: expected ",
                        expected.as_str(),
                        ", got ",
                        actual.as_str(),
                    ),
                ),
            );
        },
        None => {},
    }
    let mut vectors: Vec<Vec<u32>> = Vec::new();
    let mut v: usize = 0;
    while v < list.len()
        invariant
            v <= list@.len() == views.len(),
            vectors@.len() == v,
            views == reading_views(list@),
            forall|w: nat| w < list@.len() ==> #[trigger] claims(views, w) == 1,
            forall|i: int|
                0 <= i < views.len() && (#[trigger] views[i]).0 < v ==> vectors@[views[i].0 as int]@
                    == views[i].1,
        decreases list@.len() - v,
    {
        assert(claims(views, v as nat) == 1);
        let vector = vector_claiming(&list, v);
        vectors.push(vector);
        v += 1;
    }
    proof {
        let out = vector_views(vectors@);
        assert forall|i: int| 0 <= i < views.len() implies out[(#[trigger] views[i]).0 as int]
            == views[i].1 by {
            assert(list@[i].0 < list@.len());
        }
    }
    Ok(vectors)
}

/// What became of an older embedding cache.
#[derive(Debug, Clone, PartialEq, Eq)]
pub enum LegacyCacheMigration {
    NotFound,
    AlreadyPresent(String),
    Migrated(String),
}

/// Where the daemon keeps the cache of a vault.
pub open spec fn daemon_cache_path(
    semantic_home: Seq<char>,
    vault_id: Seq<char>,
    windows: bool,
) -> Seq<char> {
    joined_path(
        joined_path(joined_path(semantic_home, "vaults"@, windows), vault_id, windows),
        "embeddings.bin"@,
        windows,
    )
}

/// Where a vault kept its cache at first.
pub open spec fn legacy_cache_path(vault_root: Seq<char>, windows: bool) -> Seq<char> {
    joined_path(
        joined_path(joined_path(vault_root, ".obsidian"@, windows), "obsidian-mcp"@, windows),
        "embeddings.bin"@,
        windows,
    )
}

/// Where a vault keeps its cache outside the daemon.
pub open spec fn vault_cache_path(vault_root: Seq<char>, windows: bool) -> Seq<char> {
    joined_path(
        joined_path(joined_path(vault_root, ".obsidian-mcp"@, windows), "embeddings"@, windows),
        "embeddings.bin"@,
        windows,
    )
}

/// The paths that a cache migration looks at.
pub struct CachePaths {
    pub target: String,
    pub legacy_source: String,
    pub new_source: String,
}

/// The paths that a cache migration looks at.
pub fn migration_paths(
    vault_root: &str,
    semantic_home: &str,
    vault_id: &str,
    windows: bool,
) -> (paths: CachePaths)
    ensures
        paths.target@ == daemon_cache_path(semantic_home@, vault_id@, windows),
        paths.legacy_source@ == legacy_cache_path(vault_root@, windows),
        paths.new_source@ == vault_cache_path(vault_root@, windows),
{
    let vaults = join_path(semantic_home, "vaults", windows);
    let vault = join_path(vaults.as_str(), vault_id, windows);
    let target = join_path(vault.as_str(), "embeddings.bin", windows);
    let obsidian = join_path(vault_root, ".obsidian", windows);
    let plugin = join_path(obsidian.as_str(), "obsidian-mcp", windows);
    let legacy_source = join_path(plugin.as_str(), "embeddings.bin", windows);
    let own = join_path(vault_root, ".obsidian-mcp", windows);
    let embeddings = join_path(own.as_str(), "embeddings", windows);
    let new_source = join_path(embeddings.as_str(), "embeddings.bin", windows);
    CachePaths { target, legacy_source, new_source }
}

/// What a cache migration does: the file to copy to the target, if any, and
/// what is reported then.
pub struct MigrationPlan {
    pub copy_from: Option<String>,
    pub outcome: LegacyCacheMigration,
}

/// Plans the copy of an older cache to the daemon. A present target is kept; the
/// legacy file is preferred to the newer one; no source is deleted.
pub fn migrate_legacy_cache_to_daemon_store(
    paths: CachePaths,
    target_exists: bool,
    legacy_is_file: bool,
    new_is_file: bool,
) -> (plan: MigrationPlan)
    ensures
        if target_exists {
            plan.copy_from is None && plan.outcome == LegacyCacheMigration::AlreadyPresent(
                paths.target,
            )
        } else if legacy_is_file {
            plan.copy_from == Some(paths.legacy_source) && plan.outcome
                == LegacyCacheMigration::Migrated(paths.target)
        } else if new_is_file {
            plan.copy_from == Some(paths.new_source) && plan.outcome
                == LegacyCacheMigration::Migrated(paths.target)
        } else {
            plan.copy_from is None && plan.outcome == LegacyCacheMigration::NotFound
        },
{
    if target_exists {
        MigrationPlan {
            copy_from: None,
            outcome: LegacyCacheMigration::AlreadyPresent(paths.target),
        }
    } else if legacy_is_file {
        MigrationPlan {
            copy_from: Some(paths.legacy_source),
            outcome: LegacyCacheMigration::Migrated(paths.target),
        }
    } else if new_is_file {
        MigrationPlan {
            copy_from: Some(paths.new_source),
            outcome: LegacyCacheMigration::Migrated(paths.target),
        }
    } else {
        MigrationPlan { copy_from: None, outcome: LegacyCacheMigration::NotFound }
    }
}

/// The first of the places that holds a file.
pub open spec fn first_present(places: Seq<Seq<char>>, present: Seq<bool>, i: int) -> Option<
    Seq<char>,
>
    decreases places.len() - i,
{
    if i < 0 || i >= places.len() {
        None
    } else if present[i] {
        Some(places[i])
    } else {
        first_present(places, present, i + 1)
    }
}

/// Plans the copy of an older cache to `target` from the first of `sources` that is a
/// file, as `present` tells. A present target is kept; no source is deleted.
pub fn plan_relocation(
    sources: &Vec<String>,
    present: &Vec<bool>,
    target: String,
    target_exists: bool,
) -> (plan: MigrationPlan)
    requires
        present@.len() == sources@.len(),
    ensures
        ({
            let found = first_present(texts(sources@), present@, 0);
            if target_exists {
                plan.copy_from is None && plan.outcome == LegacyCacheMigration::AlreadyPresent(
                    target,
                )
            } else if found is Some {
                opt_text(plan.copy_from) == found && plan.outcome
                    == LegacyCacheMigration::Migrated(target)
            } else {
                plan.copy_from is None && plan.outcome == LegacyCacheMigration::NotFound
            }
        }),
{
    if target_exists {
        return MigrationPlan {
            copy_from: None,
            outcome: LegacyCacheMigration::AlreadyPresent(target),
        };
    }
    let ghost all = texts(sources@);
    let mut i: usize = 0;
    while i < sources.len()
        invariant
            i <= sources@.len() == present@.len(),
            all == texts(sources@),
            !target_exists,
            first_present(all, present@, 0) == first_present(all, present@, i as int),
        decreases sources@.len() - i,
    {
        assert(all[i as int] == sources@[i as int]@);
        if present[i] {
            return MigrationPlan {
                copy_from: Some(sources[i].clone()),
                outcome: LegacyCacheMigration::Migrated(target),
            };
        }
        i += 1;
    }
    MigrationPlan { copy_from: None, outcome: LegacyCacheMigration::NotFound }
}

/// A setting counts as set where it holds more than white space, and the first of two
/// settings counts where it is set.
pub proof fn blank_settings_are_not_set(primary: Option<Seq<char>>, fallback: Option<Seq<char>>)
    ensures
        primary is Some && trimmed(primary->0).len() > 0 ==> first_set(primary, fallback) == Some(
            trimmed(primary->0),
        ),
        primary is None || trimmed(primary->0).len() == 0 ==> first_set(primary, fallback) == first_set(
            fallback,
            None,
        ),
        primary is None || trimmed(primary->0).len() == 0 ==> first_set(primary, None) is None,
{
}

/// The wait that an overloaded API asks for is kept, up to 30 seconds; without one that
/// can be read it is a second at first and doubles with each attempt, up to the same.
pub proof fn overloaded_apis_are_given_time(retry_after: Option<Seq<char>>, attempt: nat)
    ensures
        retry_seconds(retry_after, attempt) <= 30,
        retry_after matches Some(text) ==> (number_of(text, u64::MAX as nat) matches Some(n)
            ==> retry_seconds(retry_after, attempt) == if n < 30 {
            n
        } else {
            30
        }),
        retry_after is None || number_of(retry_after->0, u64::MAX as nat) is None ==> retry_seconds(
            retry_after,
            attempt,
        ) == retry_seconds(None, attempt),
        retry_seconds(None, 0) == 1,
        retry_seconds(None, attempt + 1) == if 2 * retry_seconds(None, attempt) < 30 {
            2 * retry_seconds(None, attempt)
        } else {
            30
        },
{
    vstd::arithmetic::power2::lemma2_to64();
    vstd::arithmetic::power2::lemma_pow2_unfold(attempt + 1);
}

/// A vector of a reply is read exactly where all its values are finite numbers, and then
/// it is those numbers in their order.
pub proof fn reply_vectors_are_read_number_by_number(values: Seq<ReplyNumber>)
    ensures
        reply_vector(values, 0, Seq::empty()) is Ok <==> forall|i: int|
            0 <= i < values.len() ==> (#[trigger] values[i] matches ReplyNumber::Bits(bits) && finite(
                bits,
            )),
        reply_vector(values, 0, Seq::empty()) matches Ok(vector) ==> vector.len() == values.len()
            && forall|i: int|
            0 <= i < values.len() ==> #[trigger] values[i] == ReplyNumber::Bits(vector[i]),
{
    lemma_reply_vector(values, 0, Seq::empty());
}

proof fn lemma_reply_vector(values: Seq<ReplyNumber>, from: int, done: Seq<u32>)
    requires
        0 <= from <= values.len(),
        done.len() == from,
        forall|i: int| 0 <= i < from ==> #[trigger] values[i] == ReplyNumber::Bits(done[i]),
    ensures
        reply_vector(values, from, done) is Ok <==> forall|i: int|
            from <= i < values.len() ==> (#[trigger] values[i] matches ReplyNumber::Bits(bits)
                && finite(bits)),
        reply_vector(values, from, done) matches Ok(vector) ==> vector.len() == values.len()
            && forall|i: int|
            0 <= i < values.len() ==> #[trigger] values[i] == ReplyNumber::Bits(vector[i]),
    decreases values.len() - from,
{
    if from < values.len() {
        match values[from] {
            ReplyNumber::NotNumber => {
                assert(!(values[from] matches ReplyNumber::Bits(bits) && finite(bits)));
            },
            ReplyNumber::Bits(bits) => {
                if finite(bits) {
                    let next = done.push(bits);
                    assert forall|i: int| 0 <= i < from + 1 implies #[trigger] values[i]
                        == ReplyNumber::Bits(next[i]) by {}
                    lemma_reply_vector(values, from + 1, next);
                } else {
                    assert(!(values[from] matches ReplyNumber::Bits(b) && finite(b)));
                }
            },
        }
    }
}

proof fn lemma_item_readings(
    items: Seq<ReplyItem>,
    from: int,
    indexed: bool,
    done: Seq<(nat, Seq<u32>)>,
)
    requires
        0 <= from <= items.len(),
        done.len() == from,
        forall|i: int|
            0 <= i < from ==> item_reading(#[trigger] items[i], i as nat, indexed, items.len()) == Ok::<
                (nat, Seq<u32>),
                VaultErrorView,
            >(done[i]),
    ensures
        item_readings(items, from, indexed, done) matches Ok(readings) ==> readings.len()
            == items.len() && forall|i: int|
            0 <= i < items.len() ==> item_reading(#[trigger] items[i], i as nat, indexed, items.len())
                == Ok::<(nat, Seq<u32>), VaultErrorView>(readings[i]),
        item_readings(items, from, indexed, done) is Err ==> exists|i: int|
            from <= i < items.len() && item_reading(
                #[trigger] items[i],
                i as nat,
                indexed,
                items.len(),
            ) is Err,
    decreases items.len() - from,
{
    if from < items.len() {
        match item_reading(items[from], from as nat, indexed, items.len()) {
            Err(_) => {},
            Ok(pair) => {
                let next = done.push(pair);
                assert forall|i: int| 0 <= i < from + 1 implies item_reading(
                    #[trigger] items[i],
                    i as nat,
                    indexed,
                    items.len(),
                ) == Ok::<(nat, Seq<u32>), VaultErrorView>(next[i]) by {}
                lemma_item_readings(items, from + 1, indexed, next);
            },
        }
    }
}

/// A reply that is accepted has one item for each input, and each vector stands at the
/// place that its item names, or at the place of the item where the items name none;
/// every value of it is that of the item.
pub proof fn vectors_stand_where_their_items_say(
    reply: EmbeddingReply,
    count: nat,
    vectors: Seq<Seq<u32>>,
    i: int,
)
    requires
        is_reading_of(reply, count, Ok(vectors)),
        0 <= i < count,
    ensures
        reply.data is Some,
        vectors.len() == reply.data->0@.len() == count,
        ({
            let item = reply.data->0@[i];
            let place = match item.index {
                ReplyIndex::Unsigned(raw) => raw as int,
                _ => i,
            };
            &&& !(item.index is Other)
            &&& item.index is Missing <==> reply.data->0@[0].index is Missing
            &&& 0 <= place < count
            &&& item.embedding matches Some(values)
            &&& values@.len() == vectors[place].len()
            &&& forall|k: int|
                0 <= k < values@.len() ==> #[trigger] values@[k] == ReplyNumber::Bits(vectors[place][k])
        }),
{
    let items = reply.data->0@;
    let indexed = starts_indexed(items);
    lemma_item_readings(items, 0, indexed, Seq::empty());
    let readings = item_readings(items, 0, indexed, Seq::empty())->Ok_0;
    assert(item_reading(items[i], i as nat, indexed, items.len()) == Ok::<
        (nat, Seq<u32>),
        VaultErrorView,
    >(readings[i]));
    let values = items[i].embedding->0;
    reply_vectors_are_read_number_by_number(values@);
    assert(vectors[readings[i].0 as int] == readings[i].1);
}

/// Each place has to be named exactly once.
pub proof fn every_place_is_named_once(readings: Seq<(nat, Seq<u32>)>, from: nat)
    requires
        from <= readings.len(),
    ensures
        order_fault(readings, from) is None <==> forall|v: nat|
            from <= v < readings.len() ==> #[trigger] claims(readings, v) == 1,
    decreases readings.len() - from,
{
    if from < readings.len() {
        every_place_is_named_once(readings, from + 1);
    }
}

/// How often a place is named is counted reading by reading.
pub proof fn names_are_counted(readings: Seq<(nat, Seq<u32>)>, reading: (nat, Seq<u32>), v: nat)
    ensures
        claims(Seq::<(nat, Seq<u32>)>::empty(), v) == 0,
        claims(readings.push(reading), v) == claims(readings, v) + if reading.0 == v {
            1nat
        } else {
            0
        },
{
    assert(readings.push(reading).drop_last() =~= readings);
}

/// Of several places the first that has something counts.
pub proof fn the_first_present_place_counts(places: Seq<Seq<char>>, present: Seq<bool>, from: int)
    requires
        0 <= from <= places.len() == present.len(),
    ensures
        first_present(places, present, from) is None <==> forall|i: int|
            from <= i < places.len() ==> !#[trigger] present[i],
        first_present(places, present, from) matches Some(place) ==> exists|i: int|
            from <= i < places.len() && #[trigger] present[i] && place == places[i] && forall|k: int|
                from <= k < i ==> !#[trigger] present[k],
    decreases places.len() - from,
{
    if from < places.len() && !present[from] {
        the_first_present_place_counts(places, present, from + 1);
    }
}

proof fn lemma_own_places(readings: Seq<(nat, Seq<u32>)>, v: nat)
    requires
        forall|i: int| 0 <= i < readings.len() ==> (#[trigger] readings[i]).0 == i,
    ensures
        claims(readings, v) == if v < readings.len() {
            1nat
        } else {
            0
        },
    decreases readings.len(),
{
    if readings.len() > 0 {
        let front = readings.drop_last();
        assert forall|i: int| 0 <= i < front.len() implies (#[trigger] front[i]).0 == i by {
            assert(front[i] == readings[i]);
        }
        lemma_own_places(front, v);
        assert(readings[readings.len() - 1].0 == readings.len() - 1);
    }
}

/// A reply with one item for each input, whose items all name their own place or all name
/// none, and whose vectors are finite numbers, is accepted.
pub proof fn complete_replies_are_accepted(
    reply: EmbeddingReply,
    count: nat,
    outcome: Result<Seq<Seq<u32>>, VaultErrorView>,
)
    requires
        is_reading_of(reply, count, outcome),
        reply.data is Some,
        reply.data->0@.len() == count <= usize::MAX,
        (forall|i: int| 0 <= i < count ==> (#[trigger] reply.data->0@[i]).index is Missing) || (
        forall|i: int|
            0 <= i < count ==> (#[trigger] reply.data->0@[i]).index == ReplyIndex::Unsigned(i as u64)),
        forall|i: int| 0 <= i < count ==> (#[trigger] reply.data->0@[i]).embedding is Some,
        forall|i: int, k: int|
            0 <= i < count && 0 <= k < reply.data->0@[i].embedding->0@.len() ==> (
            #[trigger] reply.data->0@[i].embedding->0@[k] matches ReplyNumber::Bits(bits) && finite(bits)),
    ensures
        outcome is Ok,
{
    let items = reply.data->0@;
    let indexed = starts_indexed(items);
    lemma_item_readings(items, 0, indexed, Seq::empty());
    assert forall|i: int| 0 <= i < items.len() implies item_reading(
        #[trigger] items[i],
        i as nat,
        indexed,
        items.len(),
    ) is Ok && item_reading(items[i], i as nat, indexed, items.len())->Ok_0.0 == i by {
        assert(items[0].index is Missing <==> items[i].index is Missing);
        let values = items[i].embedding->0@;
        reply_vectors_are_read_number_by_number(values);
        assert forall|k: int| 0 <= k < values.len() implies (#[trigger] values[k] matches
            ReplyNumber::Bits(bits) && finite(bits)) by {
            assert(reply.data->0@[i].embedding->0@[k] matches ReplyNumber::Bits(bits) && finite(bits));
        }
    }
    let readings = item_readings(items, 0, indexed, Seq::empty())->Ok_0;
    assert forall|i: int| 0 <= i < readings.len() implies (#[trigger] readings[i]).0 == i by {
        assert(item_reading(items[i], i as nat, indexed, items.len()) is Ok);
    }
    assert forall|v: nat| 0 <= v < readings.len() implies #[trigger] claims(readings, v) == 1 by {
        lemma_own_places(readings, v);
    }
    every_place_is_named_once(readings, 0);
}

/// The next named place is the first one, from a place on, that is named at all.
pub proof fn the_next_named_place_is_the_first(readings: Seq<(nat, Seq<u32>)>, from: nat)
    requires
        from <= readings.len(),
    ensures
        from <= next_claimed(readings, from) <= readings.len(),
        next_claimed(readings, from) < readings.len() ==> claims(readings, next_claimed(readings, from))
            > 0,
        forall|v: nat| from <= v < next_claimed(readings, from) ==> #[trigger] claims(readings, v) == 0,
    decreases readings.len() - from,
{
    if from < readings.len() && claims(readings, from) == 0 {
        the_next_named_place_is_the_first(readings, from + 1);
    }
}

} // verus!
