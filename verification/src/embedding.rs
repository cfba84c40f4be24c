//! Embeddings of query text: a cache in front of a remote service, and the
//! decisions of the retry loop around that service.
//!
//! The library makes no request itself. `generate` is one step of the loop:
//! it is told what happened and answers what to do next. Its caller waits,
//! makes the request and comes back with the outcome.
//!
//! Vector components are whole millionths.

use crate::math::{copy_vector, in_bounds, normalize_vector, normalized, within_bounds};
use vstd::prelude::*;

verus! {

/// Where embeddings are asked for.
pub const OPENAI_API_URL: &'static str = "https://api.openai.com/v1/embeddings";

/// The model that is asked.
pub const EMBEDDING_MODEL: &'static str = "text-embedding-3-small";

/// The number of components of every embedding.
pub const EMBEDDING_DIMENSION: usize = 768;

/// How long one attempt may take, in seconds.
pub const REQUEST_TIMEOUT_SECS: u64 = 5;

/// How many attempts are made for one text.
pub const MAX_RETRIES: u32 = 3;

/// The pause after the first failed attempt, in milliseconds.
pub const INITIAL_BACKOFF_MS: u64 = 100;

/// The body of a request to the embedding service.
#[derive(Debug, Clone)]
pub struct EmbeddingRequest {
    pub input: String,
    pub model: String,
    pub dimensions: Option<usize>,
}

/// One embedding in a reply.
#[derive(Debug, Clone)]
pub struct EmbeddingData {
    pub embedding: Vec<i64>,
    pub index: usize,
}

/// The error a reply carries when the service refuses.
#[derive(Debug, Clone)]
pub struct ApiError {
    pub message: String,
    pub error_type: String,
}

/// A reply of the embedding service, decoded.
#[derive(Debug, Clone)]
pub struct ApiReply {
    /// The HTTP status code.
    pub status: u16,
    /// The decoded error, where the body held one.
    pub error: Option<ApiError>,
    /// The body as text.
    pub body: String,
    /// The embeddings, where the body held any.
    pub data: Vec<EmbeddingData>,
}

/// Why one attempt gave no embedding.
#[derive(Debug, Clone, PartialEq, Eq)]
pub enum ApiFailure {
    /// The request did not complete, or its reply could not be decoded.
    Transport { detail: String },
    /// The service answered with a status outside 200 to 299 and an error
    /// it described.
    Refused { status: u16, error_type: String, message: String },
    /// The service answered with a status outside 200 to 299 and a body
    /// that is no error description.
    Status { status: u16, body: String },
    /// The reply held no embedding.
    EmptyResponse,
    /// The embedding has the wrong number of components, or a component
    /// beyond what the arithmetic accepts.
    InvalidVector,
}

/// Why no embedding could be had.
#[derive(Debug, Clone, PartialEq, Eq)]
pub enum EmbeddingError {
    /// Every attempt failed; `last` is why the last one did.
    EmbeddingUnavailable { attempts: u32, last: ApiFailure },
}

/// The number of an attempt, from 1 to `MAX_RETRIES`. Only the service
/// hands these out.
#[derive(Debug, Clone, Copy, PartialEq, Eq)]
pub struct Attempt {
    number: u32,
}

impl Attempt {
    #[verifier::type_invariant]
    spec fn in_range(self) -> bool {
        1 <= self.number <= MAX_RETRIES
    }

    /// Which attempt this is, counting from 1.
    pub closed spec fn ordinal(&self) -> nat {
        self.number as nat
    }

    /// Which attempt this is, counting from 1.
    pub fn number(&self) -> (n: u32)
        ensures
            n == self.ordinal(),
            1 <= n <= MAX_RETRIES,
    {
        proof {
            use_type_invariant(self);
        }
        self.number
    }
}

/// The pause after the failed attempt `attempt`, in milliseconds: 100 after
/// the first, and twice as long after each further one.
pub open spec fn backoff(attempt: nat) -> nat
    decreases attempt,
{
    if attempt <= 1 {
        INITIAL_BACKOFF_MS as nat
    } else {
        2 * backoff((attempt - 1) as nat)
    }
}

/// The pause after a failed attempt, in milliseconds.
pub fn backoff_delay_ms(attempt: u32) -> (delay: u64)
    requires
        1 <= attempt <= 32,
    ensures
        delay == backoff(attempt as nat),
{
    let mut delay: u64 = INITIAL_BACKOFF_MS;
    let mut done: u32 = 1;
    proof {
        vstd::arithmetic::power2::lemma2_to64();
    }
    while done < attempt
        invariant
            1 <= done <= attempt <= 32,
            delay == backoff(done as nat),
            delay <= 100 * vstd::arithmetic::power2::pow2((done - 1) as nat),
        decreases attempt - done,
    {
        proof {
            vstd::arithmetic::power2::lemma_pow2_unfold(done as nat);
            vstd::arithmetic::power2::lemma_pow2_strictly_increases((done - 1) as nat, 32);
            vstd::arithmetic::power2::lemma2_to64();
        }
        delay = delay * 2;
        done = done + 1;
    }
    delay
}

/// What happened, as `generate` is told it.
#[derive(Debug)]
pub enum GenerateEvent {
    /// An embedding is wanted; nothing was tried yet.
    Start,
    /// The attempt that `generate` asked for has ended.
    Replied { attempt: Attempt, outcome: Result<Vec<i64>, ApiFailure> },
}

/// What to do next, as `generate` answers.
#[derive(Debug, Clone, PartialEq, Eq)]
pub enum GenerateStep {
    /// The embedding is there.
    Done(Vec<i64>),
    /// Wait `delay_ms` milliseconds, make the request, and come back with
    /// the outcome and this `attempt`.
    Call { attempt: Attempt, delay_ms: u64 },
    /// Give up.
    Failed(EmbeddingError),
}

/// The entry of `text` in a cache, if it has one.
pub open spec fn lookup(entries: Seq<(Seq<char>, Seq<i64>)>, text: Seq<char>) -> Option<Seq<i64>>
    decreases entries.len(),
{
    if entries.len() == 0 {
        None
    } else if entries.last().0 == text {
        Some(entries.last().1)
    } else {
        lookup(entries.drop_last(), text)
    }
}

/// No text has two entries.
pub open spec fn distinct_texts(entries: Seq<(Seq<char>, Seq<i64>)>) -> bool {
    forall|i: int, j: int| 0 <= i < j < entries.len() ==> (#[trigger] entries[i]).0 != (#[trigger] entries[j]).0
}

/// Whether `after` is `before` with the entry of `text` set to `vector`:
/// replaced where it was, else added at the end.
pub open spec fn stored(
    before: Seq<(Seq<char>, Seq<i64>)>,
    text: Seq<char>,
    vector: Seq<i64>,
    after: Seq<(Seq<char>, Seq<i64>)>,
) -> bool {
    if lookup(before, text) is Some {
        exists|i: int| 0 <= i < before.len() && #[trigger] before[i].0 == text && after == before.update(i, (text, vector))
    } else {
        after == before.push((text, vector))
    }
}

struct CacheEntry {
    text: String,
    vector: Vec<i64>,
}

/// The embeddings that are already known, by text. Texts are compared
/// exactly, letter case included.
pub struct EmbeddingCache {
    entries: Vec<CacheEntry>,
}

impl View for EmbeddingCache {
    type V = Seq<(Seq<char>, Seq<i64>)>;

    closed spec fn view(&self) -> Seq<(Seq<char>, Seq<i64>)> {
        self.entries@.map_values(|e: CacheEntry| (e.text@, e.vector@))
    }
}

/// A miss stays a miss and a hit stays a hit of the same index when looked
/// up from the front.
proof fn lemma_lookup_at(entries: Seq<(Seq<char>, Seq<i64>)>, i: int)
    requires
        distinct_texts(entries),
        0 <= i < entries.len(),
    ensures
        lookup(entries, entries[i].0) == Some(entries[i].1),
    decreases entries.len(),
{
    if i < entries.len() - 1 {
        assert(entries[i].0 != entries[entries.len() - 1].0);
        let rest = entries.drop_last();
        assert(rest[i] == entries[i]);
        assert forall|a: int, b: int| 0 <= a < b < rest.len() implies (#[trigger] rest[a]).0 != (#[trigger] rest[b]).0 by {
            assert(rest[a] == entries[a]);
            assert(rest[b] == entries[b]);
        }
        lemma_lookup_at(rest, i);
    }
}

/// A text that no entry carries is not found.
proof fn lemma_lookup_absent(entries: Seq<(Seq<char>, Seq<i64>)>, text: Seq<char>)
    requires
        forall|i: int| 0 <= i < entries.len() ==> (#[trigger] entries[i]).0 != text,
    ensures
        lookup(entries, text) is None,
    decreases entries.len(),
{
    if entries.len() > 0 {
        let rest = entries.drop_last();
        assert(entries[entries.len() - 1].0 != text);
        assert forall|i: int| 0 <= i < rest.len() implies (#[trigger] rest[i]).0 != text by {
            assert(rest[i] == entries[i]);
        }
        lemma_lookup_absent(rest, text);
    }
}

impl EmbeddingCache {
    #[verifier::type_invariant]
    spec fn unique(self) -> bool {
        distinct_texts(self@)
    }

    /// An empty cache.
    pub fn new() -> (cache: Self)
        ensures
            cache@.len() == 0,
    {
        let cache = EmbeddingCache { entries: Vec::new() };
        assert(cache@ =~= Seq::empty());
        cache
    }

    fn position(&self, text: &str) -> (found: Option<usize>)
        ensures
            match found {
                Some(i) => i < self@.len() && self@[i as int].0 == text@ && lookup(self@, text@) == Some(
                    self@[i as int].1,
                ),
                None => lookup(self@, text@) is None && forall|i: int| 0 <= i < self@.len() ==> (#[trigger] self@[i]).0 != text@,
            },
            self@.len() == self.entries@.len(),
    {
        proof {
            use_type_invariant(self);
        }
        let mut i: usize = 0;
        while i < self.entries.len()
            invariant
                i <= self.entries.len(),
                self@.len() == self.entries@.len(),
                distinct_texts(self@),
                forall|j: int| 0 <= j < i ==> (#[trigger] self@[j]).0 != text@,
            decreases self.entries.len() - i,
        {
            assert(self@[i as int].0 == self.entries@[i as int].text@);
            if crate::text::str_equal(self.entries[i].text.as_str(), text) {
                proof {
                    lemma_lookup_at(self@, i as int);
                }
                return Some(i);
            }
            i += 1;
        }
        proof {
            lemma_lookup_absent(self@, text@);
        }
        None
    }

    /// The embedding of `text`, if the cache holds it.
    pub fn get(&self, text: &str) -> (hit: Option<Vec<i64>>)
        ensures
            match hit {
                Some(vector) => lookup(self@, text@) == Some(vector@),
                None => lookup(self@, text@) is None,
            },
    {
        match self.position(text) {
            Some(i) => {
                assert(self@[i as int].1 == self.entries@[i as int].vector@);
                Some(copy_vector(&self.entries[i].vector))
            },
            None => None,
        }
    }

    /// Sets the embedding of `text`: the whole entry is replaced or added.
    pub fn insert(&mut self, text: &str, vector: Vec<i64>)
        ensures
            stored(old(self)@, text@, vector@, final(self)@),
            lookup(final(self)@, text@) == Some(vector@),
            forall|other: Seq<char>| other != text@ ==> lookup(final(self)@, other) == lookup(old(self)@, other),
    {
        proof {
            use_type_invariant(&*self);
        }
        let found = self.position(text);
        let ghost before = self@;
        let ghost value = vector@;
        let mut entries: Vec<CacheEntry> = Vec::new();
        core::mem::swap(&mut entries, &mut self.entries);
        assert(entries@.map_values(|e: CacheEntry| (e.text@, e.vector@)) == before);
        let entry = CacheEntry { text: text.to_owned(), vector };
        match found {
            Some(i) => {
                entries.remove(i);
                entries.insert(i, entry);
            },
            None => {
                entries.push(entry);
            },
        }
        let ghost after = entries@.map_values(|e: CacheEntry| (e.text@, e.vector@));
        proof {
            match found {
                Some(i) => {
                    assert(after =~= before.update(i as int, (text@, value)));
                    assert(before[i as int].0 == text@);
                },
                None => {
                    assert(after =~= before.push((text@, value)));
                },
            }
            lemma_stored(before, text@, value, after);
        }
        self.entries = entries;
    }

    /// Forgets every entry.
    pub fn clear(&mut self)
        ensures
            final(self)@.len() == 0,
    {
        self.entries = Vec::new();
        assert(self@ =~= Seq::empty());
    }

    /// How many texts the cache holds; no text has two entries.
    pub fn len(&self) -> (n: usize)
        ensures
            n == self@.len(),
            distinct_texts(self@),
    {
        proof {
            use_type_invariant(self);
        }
        self.entries.len()
    }
}

/// Storing keeps the texts distinct, makes the stored text found with the
/// stored vector, and leaves every other text as it was.
pub proof fn lemma_stored(
    before: Seq<(Seq<char>, Seq<i64>)>,
    text: Seq<char>,
    vector: Seq<i64>,
    after: Seq<(Seq<char>, Seq<i64>)>,
)
    requires
        distinct_texts(before),
        stored(before, text, vector, after),
    ensures
        distinct_texts(after),
        lookup(after, text) == Some(vector),
        forall|other: Seq<char>| other != text ==> lookup(after, other) == lookup(before, other),
{
    if lookup(before, text) is Some {
        let i = choose|i: int| 0 <= i < before.len() && #[trigger] before[i].0 == text && after == before.update(i, (text, vector));
        assert forall|a: int, b: int| 0 <= a < b < after.len() implies (#[trigger] after[a]).0 != (#[trigger] after[b]).0 by {
            assert(after[a].0 == before[a].0);
            assert(after[b].0 == before[b].0);
        }
        lemma_lookup_at(after, i);
        assert forall|other: Seq<char>| other != text implies lookup(after, other) == lookup(before, other) by {
            lemma_lookup_same_texts(before, after, other, i);
        }
    } else {
        assert forall|a: int, b: int| 0 <= a < b < after.len() implies (#[trigger] after[a]).0 != (#[trigger] after[b]).0 by {
            if b == before.len() {
                if before[a].0 == text {
                    lemma_lookup_at(before, a);
                }
            }
        }
        assert(after.drop_last() =~= before);
    }
}

/// Replacing the entry at `i` changes no lookup of another text.
proof fn lemma_lookup_same_texts(
    before: Seq<(Seq<char>, Seq<i64>)>,
    after: Seq<(Seq<char>, Seq<i64>)>,
    other: Seq<char>,
    i: int,
)
    requires
        0 <= i < before.len(),
        after == before.update(i, (before[i].0, after[i].1)),
        other != before[i].0,
    ensures
        lookup(after, other) == lookup(before, other),
    decreases before.len(),
{
    let n = before.len() - 1;
    if i == n {
        assert(after.drop_last() =~= before.drop_last());
    } else {
        assert(after[n] == before[n]);
        if before[n].0 != other {
            assert(after.drop_last() =~= before.drop_last().update(i, (before[i].0, after[i].1)));
            lemma_lookup_same_texts(before.drop_last(), after.drop_last(), other, i);
        }
    }
}

/// What one reply amounts to: the first embedding of a reply with a status
/// from 200 to 299, else the reason there is none.
pub open spec fn interpretation(reply: Result<ApiReply, String>) -> Result<Vec<i64>, ApiFailure> {
    match reply {
        Err(detail) => Err(ApiFailure::Transport { detail }),
        Ok(r) => if !(200 <= r.status < 300) {
            match r.error {
                Some(e) => Err(
                    ApiFailure::Refused { status: r.status, error_type: e.error_type, message: e.message },
                ),
                None => Err(ApiFailure::Status { status: r.status, body: r.body }),
            }
        } else if r.data@.len() == 0 {
            Err(ApiFailure::EmptyResponse)
        } else {
            Ok(r.data@[0].embedding)
        },
    }
}

/// The client of the embedding service: what it asks, what it makes of the
/// replies, and what it remembers.
pub struct EmbeddingService {
    pub api_key: String,
    /// The number of components every embedding must have.
    pub dimension: usize,
    pub cache: EmbeddingCache,
}

impl EmbeddingService {
    /// A service with an empty cache, for embeddings of
    /// `EMBEDDING_DIMENSION` components.
    pub fn new(api_key: String) -> (service: Self)
        ensures
            service.api_key == api_key,
            service.dimension == EMBEDDING_DIMENSION,
            service.cache@.len() == 0,
    {
        EmbeddingService { api_key, dimension: EMBEDDING_DIMENSION, cache: EmbeddingCache::new() }
    }

    /// The number of components of every embedding.
    pub fn dimension(&self) -> (dimension: usize)
        ensures
            dimension == self.dimension,
    {
        self.dimension
    }

    /// Whether a vector can be normalized and stored: it has the service's
    /// dimension and the arithmetic accepts it.
    pub open spec fn usable(&self, raw: Seq<i64>) -> bool {
        raw.len() == self.dimension && in_bounds(raw)
    }

    /// The body of the request for the embedding of `text`.
    pub fn build_request(&self, text: &str) -> (request: EmbeddingRequest)
        ensures
            request.input@ == text@,
            request.model@ == EMBEDDING_MODEL@,
            request.dimensions == Some(self.dimension),
    {
        EmbeddingRequest {
            input: text.to_owned(),
            model: EMBEDDING_MODEL.to_owned(),
            dimensions: Some(self.dimension),
        }
    }

    /// What one reply amounts to. `Err` stands for a request that did not
    /// complete or a reply that could not be decoded.
    pub fn call_api(&self, reply: Result<ApiReply, String>) -> (outcome: Result<Vec<i64>, ApiFailure>)
        ensures
            outcome == interpretation(reply),
    {
        match reply {
            Err(detail) => Err(ApiFailure::Transport { detail }),
            Ok(r) => {
                if !(200 <= r.status && r.status < 300) {
                    match r.error {
                        Some(e) => Err(
                            ApiFailure::Refused {
                                status: r.status,
                                error_type: e.error_type,
                                message: e.message,
                            },
                        ),
                        None => Err(ApiFailure::Status { status: r.status, body: r.body }),
                    }
                } else if r.data.len() == 0 {
                    Err(ApiFailure::EmptyResponse)
                } else {
                    let mut data = r.data;
                    let first = data.remove(0);
                    Ok(first.embedding)
                }
            },
        }
    }

    /// One step of getting the embedding of `text`.
    ///
    /// At the start: a text the cache holds is answered from it, with no
    /// request; for any other the first attempt is asked for, without delay.
    /// After a reply: a usable vector is normalized, stored and returned;
    /// anything else counts as a failed attempt, which is followed by the
    /// next attempt after the backoff delay, or after the last attempt by
    /// giving up. A failure changes nothing in the cache.
    pub fn generate(&mut self, text: &str, event: GenerateEvent) -> (step: GenerateStep)
        ensures
            final(self).api_key == old(self).api_key,
            final(self).dimension == old(self).dimension,
            match event {
                GenerateEvent::Start => {
                    &&& final(self).cache@ == old(self).cache@
                    &&& match lookup(old(self).cache@, text@) {
                        Some(known) => step matches GenerateStep::Done(vector) && vector@ == known,
                        None => step matches GenerateStep::Call { attempt, delay_ms }
                            && attempt.ordinal() == 1 && delay_ms == 0,
                    }
                },
                GenerateEvent::Replied { attempt, outcome: Ok(raw) } if old(self).usable(raw@) => {
                    &&& step matches GenerateStep::Done(vector) && vector@ == normalized(raw@)
                    &&& stored(old(self).cache@, text@, normalized(raw@), final(self).cache@)
                    &&& lookup(final(self).cache@, text@) == Some(normalized(raw@))
                },
                GenerateEvent::Replied { attempt, outcome } => {
                    &&& final(self).cache@ == old(self).cache@
                    &&& if attempt.ordinal() < MAX_RETRIES {
                        step matches GenerateStep::Call { attempt: next, delay_ms }
                            && next.ordinal() == attempt.ordinal() + 1 && delay_ms == backoff(
                            attempt.ordinal(),
                        )
                    } else {
                        step matches GenerateStep::Failed(
                            EmbeddingError::EmbeddingUnavailable { attempts, last },
                        ) && attempts == MAX_RETRIES && last == match outcome {
                            Ok(_) => ApiFailure::InvalidVector,
                            Err(failure) => failure,
                        }
                    }
                },
            },
    {
        let (attempt, failure) = match event {
            GenerateEvent::Start => {
                return match self.cache.get(text) {
                    Some(vector) => GenerateStep::Done(vector),
                    None => GenerateStep::Call { attempt: Attempt { number: 1 }, delay_ms: 0 },
                };
            },
            GenerateEvent::Replied { attempt, outcome } => match outcome {
                Ok(raw) => {
                    if raw.len() == self.dimension && within_bounds(&raw) {
                        let vector = normalize_vector(&raw);
                        let kept = copy_vector(&vector);
                        self.cache.insert(text, kept);
                        return GenerateStep::Done(vector);
                    }
                    (attempt, ApiFailure::InvalidVector)
                },
                Err(failure) => (attempt, failure),
            },
        };
        let number = attempt.number();
        if number < MAX_RETRIES {
            GenerateStep::Call {
                attempt: Attempt { number: number + 1 },
                delay_ms: backoff_delay_ms(number),
            }
        } else {
            GenerateStep::Failed(
                EmbeddingError::EmbeddingUnavailable { attempts: MAX_RETRIES, last: failure },
            )
        }
    }

    /// Forgets every cached embedding.
    pub fn clear_cache(&mut self)
        ensures
            final(self).cache@.len() == 0,
            final(self).api_key == old(self).api_key,
            final(self).dimension == old(self).dimension,
    {
        self.cache.clear();
    }

    /// How many texts the cache holds.
    pub fn cache_size(&self) -> (n: usize)
        ensures
            n == self.cache@.len(),
    {
        self.cache.len()
    }
}

/// Where a batch stands.
#[derive(Debug, Clone, PartialEq, Eq)]
pub enum BatchStep {
    /// Embed the text whose index is the number of embeddings collected.
    Next(Vec<Vec<i64>>),
    /// Every text has its embedding, in the order of the texts.
    Done(Vec<Vec<i64>>),
    /// A text could not be embedded; the batch ends with its error.
    Aborted(EmbeddingError),
}

impl EmbeddingService {
    /// The first step of a batch of `wanted` texts.
    pub fn start_batch(wanted: usize) -> (step: BatchStep)
        ensures
            match step {
                BatchStep::Next(collected) => wanted > 0 && collected@.len() == 0,
                BatchStep::Done(collected) => wanted == 0 && collected@.len() == 0,
                BatchStep::Aborted(_) => false,
            },
    {
        if wanted == 0 {
            BatchStep::Done(Vec::new())
        } else {
            BatchStep::Next(Vec::new())
        }
    }

    /// One step of a batch of `wanted` texts, which are embedded one after
    /// the other: the first failure ends the batch with its error, and the
    /// last success ends it with all embeddings.
    pub fn generate_batch(
        collected: Vec<Vec<i64>>,
        outcome: Result<Vec<i64>, EmbeddingError>,
        wanted: usize,
    ) -> (step: BatchStep)
        ensures
            match outcome {
                Err(error) => step == BatchStep::Aborted(error),
                Ok(vector) => match step {
                    BatchStep::Next(all) => all@ == collected@.push(vector) && all@.len() < wanted,
                    BatchStep::Done(all) => all@ == collected@.push(vector) && all@.len() >= wanted,
                    BatchStep::Aborted(_) => false,
                },
            },
    {
        match outcome {
            Err(error) => BatchStep::Aborted(error),
            Ok(vector) => {
                let mut all = collected;
                all.push(vector);
                if all.len() >= wanted {
                    BatchStep::Done(all)
                } else {
                    BatchStep::Next(all)
                }
            },
        }
    }
}

} // verus!
