//! Matching content that arrives from a platform against the entities
//! already known: by EIDR, by IMDb or TMDb identifier, by title and year,
//! and by embedding, in this order.
//!
//! Similarities and confidences are whole millionths.

use crate::math::{cosine, cosine_similarity, in_bounds, within_bounds};
use crate::text::{
    chars_of, join_strings, joined, split_words, str_equal, strings_of, unicode_alphanumeric,
    unicode_lowercase, unicode_whitespace, words,
};
use vstd::prelude::*;

verus! {

/// One whole, in millionths.
pub const UNIT: i64 = 1_000_000;

/// The confidence of a match by EIDR: 1.0.
pub const EIDR_CONFIDENCE: i64 = 1_000_000;

/// The confidence of a match by IMDb or TMDb identifier: 0.99.
pub const EXTERNAL_ID_CONFIDENCE: i64 = 990_000;

/// The confidence a match by title and year must reach: 0.85.
pub const FUZZY_THRESHOLD: i64 = 850_000;

/// The confidence a match by embedding must reach: 0.92.
pub const EMBEDDING_THRESHOLD: i64 = 920_000;

/// How a match was found.
#[derive(Debug, Clone, PartialEq, Eq)]
pub enum MatchMethod {
    /// The EIDR is the same.
    EidrExact,
    /// An identifier of the named source is the same.
    ExternalId { source: String },
    /// The titles are alike and the years agree.
    FuzzyTitleYear,
    /// The embeddings are alike.
    EmbeddingSimilarity,
    /// Nothing matched.
    NoMatch,
}

/// The outcome of a resolution.
#[derive(Debug, Clone, PartialEq, Eq)]
pub struct EntityMatch {
    /// The entity that matched, if one did.
    pub entity_id: Option<String>,
    /// How sure the match is, in millionths.
    pub confidence: i64,
    pub method: MatchMethod,
}

/// The least number of insertions, deletions and substitutions of single
/// characters that turn `a` into `b`.
pub open spec fn edit_distance(a: Seq<char>, b: Seq<char>) -> nat
    decreases a.len() + b.len(),
{
    if a.len() == 0 {
        b.len()
    } else if b.len() == 0 {
        a.len()
    } else {
        let delete = edit_distance(a.drop_last(), b) + 1;
        let insert = edit_distance(a, b.drop_last()) + 1;
        let replace = edit_distance(a.drop_last(), b.drop_last()) + if a.last() == b.last() {
            0nat
        } else {
            1nat
        };
        if delete <= insert && delete <= replace {
            delete
        } else if insert <= replace {
            insert
        } else {
            replace
        }
    }
}

/// No more edits are needed than the longer text has characters.
pub proof fn lemma_edit_distance_bound(a: Seq<char>, b: Seq<char>)
    ensures
        edit_distance(a, b) <= if a.len() >= b.len() { a.len() } else { b.len() },
    decreases a.len() + b.len(),
{
    if a.len() > 0 && b.len() > 0 {
        lemma_edit_distance_bound(a.drop_last(), b.drop_last());
    }
}

/// `strsim::levenshtein` counts the insertions, deletions and
/// substitutions of characters that change one string into the other, and
/// returns the least such count.
#[verifier::external_body]
fn levenshtein(a: &str, b: &str) -> (distance: usize)
    ensures
        distance == edit_distance(a@, b@),
{
    strsim::levenshtein(a, b)
}

/// How alike two texts are, in millionths: the share of the characters of
/// the longer text that need no edit, rounded down; 1.0 for two empty
/// texts.
pub open spec fn similarity(a: Seq<char>, b: Seq<char>) -> int {
    let longer = if a.len() >= b.len() { a.len() } else { b.len() };
    if longer == 0 {
        UNIT as int
    } else {
        ((longer - edit_distance(a, b)) * UNIT) / (longer as int)
    }
}

/// How alike two texts are, in millionths, from 0 to 1.
pub fn normalized_levenshtein(a: &str, b: &str) -> (alike: i64)
    ensures
        alike == similarity(a@, b@),
        0 <= alike <= UNIT,
{
    let la: usize = chars_of(a).len();
    let lb: usize = chars_of(b).len();
    let longer: usize = if la >= lb { la } else { lb };
    if longer == 0 {
        return UNIT;
    }
    let distance = levenshtein(a, b);
    proof {
        lemma_edit_distance_bound(a@, b@);
    }
    let same: u128 = (longer - distance) as u128;
    assert(same * 1_000_000 <= longer * 1_000_000) by (nonlinear_arith)
        requires
            same <= longer,
    ;
    let scaled: u128 = same * 1_000_000;
    let alike: u128 = scaled / (longer as u128);
    assert(alike <= 1_000_000) by (nonlinear_arith)
        requires
            alike == scaled / (longer as u128),
            scaled <= longer * 1_000_000,
            longer > 0,
    ;
    alike as i64
}

/// `x` kept between `low` and `high`.
pub open spec fn clamped(x: int, low: int, high: int) -> int {
    if x < low {
        low
    } else if x > high {
        high
    } else {
        x
    }
}

/// The confidence of a match by title: similarities from 0.85 to 1.0 are
/// spread evenly over confidences from 0.90 to 0.98, rounded down.
pub open spec fn fuzzy_confidence(alike: int) -> int {
    900_000 + clamped(alike - 850_000, 0, 150_000) * 8 / 15
}

/// The confidence of a match by embedding: similarities from 0.92 to 1.0
/// are spread evenly over confidences from 0.85 to 0.95, rounded down.
pub open spec fn embedding_confidence(alike: int) -> int {
    850_000 + clamped(alike - 920_000, 0, 80_000) * 5 / 4
}

/// The confidence of a match by title with the given similarity.
pub fn calculate_fuzzy_confidence(alike: i64) -> (confidence: i64)
    ensures
        confidence == fuzzy_confidence(alike as int),
        900_000 <= confidence <= 980_000,
{
    let above: i64 = if alike < 850_000 {
        0
    } else if alike > 1_000_000 {
        150_000
    } else {
        alike - 850_000
    };
    900_000 + above * 8 / 15
}

/// The confidence of a match by embedding with the given similarity.
pub fn calculate_embedding_confidence(alike: i64) -> (confidence: i64)
    ensures
        confidence == embedding_confidence(alike as int),
        850_000 <= confidence <= 950_000,
{
    let above: i64 = if alike < 920_000 {
        0
    } else if alike > 1_000_000 {
        80_000
    } else {
        alike - 920_000
    };
    850_000 + above * 5 / 4
}

/// Whether a character stays in a normalized title.
pub open spec fn title_char(c: char) -> bool {
    unicode_alphanumeric(c) || unicode_whitespace(c)
}

/// The normalized form of a title: in lowercase, letters, digits and
/// whitespace only, the words separated by single spaces.
pub open spec fn normalized_title(title: Seq<char>) -> Seq<char> {
    joined(words(unicode_lowercase(title).filter(|c: char| title_char(c))), " "@)
}

/// Normalizes a title for comparison.
pub fn normalize_title(title: &str) -> (normal: String)
    ensures
        normal@ == normalized_title(title@),
{
    let lowered = title.to_lowercase();
    let chars = chars_of(lowered.as_str());
    let ghost keep = |c: char| title_char(c);
    let mut kept: Vec<char> = Vec::new();
    let mut i: usize = 0;
    proof {
        reveal(Seq::filter);
        assert(chars@.take(0).filter(keep) =~= Seq::<char>::empty());
    }
    while i < chars.len()
        invariant
            i <= chars.len(),
            keep == |c: char| title_char(c),
            kept@ == chars@.take(i as int).filter(keep),
        decreases chars.len() - i,
    {
        let c = chars[i];
        proof {
            reveal(Seq::filter);
            assert(chars@.take(i + 1).drop_last() =~= chars@.take(i as int));
            assert(chars@.take(i + 1).last() == c);
            assert(keep(c) == title_char(c));
        }
        if c.is_alphanumeric() || c.is_whitespace() {
            kept.push(c);
        }
        i += 1;
    }
    proof {
        assert(chars@.take(chars.len() as int) =~= chars@);
    }
    let split = split_words(&kept);
    let parts = strings_of(&split);
    join_strings(&parts, " ")
}

/// What is known of an entity.
#[derive(Debug, Clone)]
pub struct EntityRecord {
    pub entity_id: String,
    pub title: String,
    /// The title as `normalize_title` gives it.
    pub normalized_title: String,
    pub release_year: Option<i32>,
    pub eidr: Option<String>,
    pub imdb_id: Option<String>,
    pub tmdb_id: Option<String>,
    pub embedding: Option<Vec<i64>>,
}

/// What is known of content that is to be resolved.
#[derive(Debug, Clone)]
pub struct IngestedContent {
    pub title: String,
    pub release_year: Option<i32>,
    pub eidr: Option<String>,
    pub imdb_id: Option<String>,
    pub tmdb_id: Option<String>,
    pub embedding: Option<Vec<i64>>,
}

/// The entity that an index gives for a key: that of the latest entry with
/// the key.
pub open spec fn index_get(index: Seq<(String, String)>, key: Seq<char>) -> Option<String>
    decreases index.len(),
{
    if index.len() == 0 {
        None
    } else if index.last().0@ == key {
        Some(index.last().1)
    } else {
        index_get(index.drop_last(), key)
    }
}

/// Whether two release years are at most one apart; an unknown year agrees
/// with every year.
pub open spec fn years_agree(a: Option<i32>, b: Option<i32>) -> bool {
    match (a, b) {
        (Some(x), Some(y)) => -1 <= x - y <= 1,
        _ => true,
    }
}

/// How alike the normalized title `title` and the title of the record at
/// `i` are; -1 where the years rule the record out.
pub open spec fn fuzzy_score(records: Seq<EntityRecord>, title: Seq<char>, year: Option<i32>, i: int) -> int {
    if years_agree(year, records[i].release_year) {
        similarity(title, records[i].normalized_title@)
    } else {
        -1
    }
}

/// The cosine of `embedding` and the embedding of the record at `i`; -1
/// where the record has none that the arithmetic accepts.
pub open spec fn embedding_score(records: Seq<EntityRecord>, embedding: Seq<i64>, i: int) -> int {
    match records[i].embedding {
        Some(known) => if in_bounds(known@) {
            cosine(embedding, known@)
        } else {
            -1
        },
        None => -1,
    }
}

/// `fuzzy_score` as a function of the index.
pub open spec fn fuzzy_scores(records: Seq<EntityRecord>, title: Seq<char>, year: Option<i32>) -> spec_fn(int) -> int {
    |i: int| fuzzy_score(records, title, year, i)
}

/// `embedding_score` as a function of the index.
pub open spec fn embedding_scores(records: Seq<EntityRecord>, embedding: Seq<i64>) -> spec_fn(int) -> int {
    |i: int| embedding_score(records, embedding, i)
}

/// Whether `i` is the first index at which `score` is highest, and the
/// score there is above zero.
pub open spec fn is_first_best(score: spec_fn(int) -> int, len: int, i: int) -> bool {
    &&& 0 <= i < len
    &&& score(i) > 0
    &&& forall|j: int| 0 <= j < len ==> #[trigger] score(j) <= score(i)
    &&& forall|j: int| 0 <= j < i ==> #[trigger] score(j) < score(i)
}

/// Whether no index has a score above zero.
pub open spec fn none_scores(score: spec_fn(int) -> int, len: int) -> bool {
    forall|j: int| 0 <= j < len ==> #[trigger] score(j) <= 0
}

fn get_from_index(index: &Vec<(String, String)>, key: &str) -> (found: Option<String>)
    ensures
        found == index_get(index@, key@),
{
    let mut i: usize = index.len();
    proof {
        assert(index@.take(i as int) =~= index@);
    }
    while i > 0
        invariant
            i <= index.len(),
            index_get(index@, key@) == index_get(index@.take(i as int), key@),
        decreases i,
    {
        proof {
            assert(index@.take(i as int).last() == index@[i - 1]);
            assert(index@.take(i as int).drop_last() =~= index@.take(i - 1));
        }
        if str_equal(index[i - 1].0.as_str(), key) {
            return Some(index[i - 1].1.clone());
        }
        i -= 1;
    }
    None
}

/// Whether an entity has a record.
pub open spec fn has_record(records: Seq<EntityRecord>, entity_id: Seq<char>) -> bool {
    exists|i: int| 0 <= i < records.len() && #[trigger] records[i].entity_id@ == entity_id
}

/// The index of the record of an entity, or the number of records where it
/// has none.
pub open spec fn record_place(records: Seq<EntityRecord>, entity_id: Seq<char>) -> int {
    if has_record(records, entity_id) {
        choose|i: int| 0 <= i < records.len() && #[trigger] records[i].entity_id@ == entity_id
    } else {
        records.len() as int
    }
}

/// A copy of an optional string.
pub fn copy_of(text: &Option<String>) -> (copy: Option<String>)
    ensures
        copy == *text,
{
    match text {
        Some(s) => Some(s.clone()),
        None => None,
    }
}

/// The entities that content is matched against.
pub struct EntityResolver {
    entity_index: Vec<EntityRecord>,
    eidr_index: Vec<(String, String)>,
    imdb_index: Vec<(String, String)>,
    tmdb_index: Vec<(String, String)>,
}

impl EntityResolver {
    #[verifier::type_invariant]
    spec fn one_record_per_entity(self) -> bool {
        forall|i: int, j: int| 0 <= i < j < self.entity_index@.len() ==> (#[trigger] self.entity_index@[i]).entity_id@ != (#[trigger] self.entity_index@[j]).entity_id@
    }

    /// The records, in the order their entities were first added.
    pub closed spec fn records(&self) -> Seq<EntityRecord> {
        self.entity_index@
    }

    /// The EIDR index, oldest entry first.
    pub closed spec fn eidrs(&self) -> Seq<(String, String)> {
        self.eidr_index@
    }

    /// The IMDb index, oldest entry first.
    pub closed spec fn imdb_ids(&self) -> Seq<(String, String)> {
        self.imdb_index@
    }

    /// The TMDb index, oldest entry first.
    pub closed spec fn tmdb_ids(&self) -> Seq<(String, String)> {
        self.tmdb_index@
    }

    /// A resolver that knows no entity.
    pub fn new() -> (resolver: Self)
        ensures
            resolver.records().len() == 0,
            resolver.eidrs().len() == 0,
            resolver.imdb_ids().len() == 0,
            resolver.tmdb_ids().len() == 0,
    {
        EntityResolver {
            entity_index: Vec::new(),
            eidr_index: Vec::new(),
            imdb_index: Vec::new(),
            tmdb_index: Vec::new(),
        }
    }

    /// How many entities are known.
    pub fn len(&self) -> (n: usize)
        ensures
            n == self.records().len(),
    {
        self.entity_index.len()
    }

    /// Adds an entity, or replaces the record of an entity that is known.
    /// Each identifier given is entered into its index.
    pub fn add_entity(
        &mut self,
        entity_id: String,
        title: String,
        release_year: Option<i32>,
        eidr: Option<String>,
        imdb_id: Option<String>,
        tmdb_id: Option<String>,
        embedding: Option<Vec<i64>>,
    )
        ensures
            final(self).eidrs() == match eidr {
                Some(key) => old(self).eidrs().push((key, entity_id)),
                None => old(self).eidrs(),
            },
            final(self).imdb_ids() == match imdb_id {
                Some(key) => old(self).imdb_ids().push((key, entity_id)),
                None => old(self).imdb_ids(),
            },
            final(self).tmdb_ids() == match tmdb_id {
                Some(key) => old(self).tmdb_ids().push((key, entity_id)),
                None => old(self).tmdb_ids(),
            },
            final(self).records().len() == if has_record(old(self).records(), entity_id@) {
                old(self).records().len()
            } else {
                old(self).records().len() + 1
            },
            forall|j: int| 0 <= j < old(self).records().len() && j != record_place(old(self).records(), entity_id@)
                ==> #[trigger] final(self).records()[j] == old(self).records()[j],
            ({
                let record = final(self).records()[record_place(old(self).records(), entity_id@)];
                &&& record.entity_id == entity_id
                &&& record.title == title
                &&& record.normalized_title@ == normalized_title(title@)
                &&& record.release_year == release_year
                &&& record.eidr == eidr
                &&& record.imdb_id == imdb_id
                &&& record.tmdb_id == tmdb_id
                &&& record.embedding == embedding
            }),
    {
        proof {
            use_type_invariant(&*self);
        }
        let normalized = normalize_title(title.as_str());
        let record = EntityRecord {
            entity_id: entity_id.clone(),
            title,
            normalized_title: normalized,
            release_year,
            eidr: copy_of(&eidr),
            imdb_id: copy_of(&imdb_id),
            tmdb_id: copy_of(&tmdb_id),
            embedding,
        };
        if let Some(key) = eidr {
            let mut index: Vec<(String, String)> = Vec::new();
            core::mem::swap(&mut index, &mut self.eidr_index);
            index.push((key, entity_id.clone()));
            self.eidr_index = index;
        }
        if let Some(key) = imdb_id {
            let mut index: Vec<(String, String)> = Vec::new();
            core::mem::swap(&mut index, &mut self.imdb_index);
            index.push((key, entity_id.clone()));
            self.imdb_index = index;
        }
        if let Some(key) = tmdb_id {
            let mut index: Vec<(String, String)> = Vec::new();
            core::mem::swap(&mut index, &mut self.tmdb_index);
            index.push((key, entity_id.clone()));
            self.tmdb_index = index;
        }
        let ghost before = self.entity_index@;
        let mut place: usize = 0;
        while place < self.entity_index.len() && !str_equal(
            self.entity_index[place].entity_id.as_str(),
            entity_id.as_str(),
        )
            invariant
                place <= self.entity_index.len(),
                self.entity_index@ == before,
                forall|j: int| 0 <= j < place ==> (#[trigger] before[j]).entity_id@ != entity_id@,
            decreases self.entity_index.len() - place,
        {
            place += 1;
        }
        let mut records: Vec<EntityRecord> = Vec::new();
        core::mem::swap(&mut records, &mut self.entity_index);
        if place < records.len() {
            records.remove(place);
            records.insert(place, record);
            proof {
                assert(records@ =~= before.update(place as int, record));
                assert forall|i: int, j: int| 0 <= i < j < records@.len() implies (#[trigger] records@[i]).entity_id@ != (#[trigger] records@[j]).entity_id@ by {
                    assert(records@[i].entity_id@ == before[i].entity_id@);
                    assert(records@[j].entity_id@ == before[j].entity_id@);
                }
                assert(before[place as int].entity_id@ == entity_id@);
                let k = record_place(before, entity_id@);
                if k < place {
                    assert(before[k].entity_id@ != before[place as int].entity_id@);
                } else if k > place {
                    assert(before[place as int].entity_id@ != before[k].entity_id@);
                }
            }
        } else {
            records.push(record);
            proof {
                assert forall|i: int, j: int| 0 <= i < j < records@.len() implies (#[trigger] records@[i]).entity_id@ != (#[trigger] records@[j]).entity_id@ by {
                    if j == before.len() {
                        assert(before[i].entity_id@ != entity_id@);
                    }
                }
            }
        }
        self.entity_index = records;
    }

    /// The record whose title is most like `title`, among those whose year
    /// agrees: its index and the similarity; the first of several equally
    /// alike; none where no title is alike at all.
    pub fn best_by_title(&self, title: &str, year: Option<i32>) -> (best: Option<(usize, i64)>)
        ensures
            match best {
                Some((i, alike)) => is_first_best(
                    fuzzy_scores(self.records(), title@, year),
                    self.records().len() as int,
                    i as int,
                ) && alike == fuzzy_score(self.records(), title@, year, i as int),
                None => none_scores(
                    fuzzy_scores(self.records(), title@, year),
                    self.records().len() as int,
                ),
            },
    {
        let ghost score = fuzzy_scores(self.entity_index@, title@, year);
        let mut best: Option<(usize, i64)> = None;
        let mut best_score: i64 = 0;
        let mut i: usize = 0;
        while i < self.entity_index.len()
            invariant
                i <= self.entity_index.len(),
                score == fuzzy_scores(self.entity_index@, title@, year),
                0 <= best_score <= UNIT,
                match best {
                    Some((b, alike)) => is_first_best(score, i as int, b as int) && alike == score(
                        b as int,
                    ) && alike == best_score,
                    None => none_scores(score, i as int) && best_score == 0,
                },
            decreases self.entity_index.len() - i,
        {
            let record = &self.entity_index[i];
            let agree = match (year, record.release_year) {
                (Some(x), Some(y)) => {
                    let apart: i64 = x as i64 - y as i64;
                    -1 <= apart && apart <= 1
                },
                _ => true,
            };
            if agree {
                let alike = normalized_levenshtein(title, record.normalized_title.as_str());
                assert(alike == score(i as int));
                if alike > best_score {
                    best_score = alike;
                    best = Some((i, alike));
                }
            } else {
                assert(score(i as int) == -1);
            }
            i += 1;
        }
        best
    }

    /// The record whose embedding is most like `embedding`: its index and
    /// the similarity; the first of several equally alike; none where no
    /// embedding is alike at all.
    pub fn best_by_embedding(&self, embedding: &Vec<i64>) -> (best: Option<(usize, i64)>)
        requires
            in_bounds(embedding@),
        ensures
            match best {
                Some((i, alike)) => is_first_best(
                    embedding_scores(self.records(), embedding@),
                    self.records().len() as int,
                    i as int,
                ) && alike == embedding_score(self.records(), embedding@, i as int),
                None => none_scores(
                    embedding_scores(self.records(), embedding@),
                    self.records().len() as int,
                ),
            },
    {
        let ghost score = embedding_scores(self.entity_index@, embedding@);
        let mut best: Option<(usize, i64)> = None;
        let mut best_score: i64 = 0;
        let mut i: usize = 0;
        while i < self.entity_index.len()
            invariant
                i <= self.entity_index.len(),
                in_bounds(embedding@),
                score == embedding_scores(self.entity_index@, embedding@),
                0 <= best_score <= UNIT,
                match best {
                    Some((b, alike)) => is_first_best(score, i as int, b as int) && alike == score(
                        b as int,
                    ) && alike == best_score,
                    None => none_scores(score, i as int) && best_score == 0,
                },
            decreases self.entity_index.len() - i,
        {
            match &self.entity_index[i].embedding {
                Some(known) => {
                    if within_bounds(known) {
                        let alike = cosine_similarity(embedding, known);
                        assert(alike == score(i as int));
                        if alike > best_score {
                            best_score = alike;
                            best = Some((i, alike));
                        }
                    } else {
                        assert(score(i as int) == -1);
                    }
                },
                None => {
                    assert(score(i as int) == -1);
                },
            }
            i += 1;
        }
        best
    }

    /// The match by title and year: the entity whose normalized title is
    /// most like that of the content, with the confidence of that
    /// similarity.
    pub fn fuzzy_title_year_match(&self, content: &IngestedContent) -> (found: EntityMatch)
        ensures
            match found.method {
                MatchMethod::FuzzyTitleYear => exists|i: int|
                    {
                        &&& #[trigger] is_first_best(
                            fuzzy_scores(self.records(), normalized_title(content.title@), content.release_year),
                            self.records().len() as int,
                            i,
                        )
                        &&& found.entity_id == Some(self.records()[i].entity_id)
                        &&& found.confidence == fuzzy_confidence(
                            fuzzy_score(
                                self.records(),
                                normalized_title(content.title@),
                                content.release_year,
                                i,
                            ),
                        )
                    },
                MatchMethod::NoMatch => found.entity_id is None && found.confidence == 0
                    && none_scores(
                    fuzzy_scores(self.records(), normalized_title(content.title@), content.release_year),
                    self.records().len() as int,
                ),
                _ => false,
            },
    {
        let title = normalize_title(content.title.as_str());
        match self.best_by_title(title.as_str(), content.release_year) {
            Some((i, alike)) => {
                let found = EntityMatch {
                    entity_id: Some(self.entity_index[i].entity_id.clone()),
                    confidence: calculate_fuzzy_confidence(alike),
                    method: MatchMethod::FuzzyTitleYear,
                };
                proof {
                    assert(is_first_best(
                        fuzzy_scores(self.records(), normalized_title(content.title@), content.release_year),
                        self.records().len() as int,
                        i as int,
                    ));
                }
                found
            },
            None => EntityMatch { entity_id: None, confidence: 0, method: MatchMethod::NoMatch },
        }
    }

    /// The match by embedding: the entity whose embedding is most like
    /// `embedding`, with the confidence of that similarity.
    pub fn embedding_similarity_match(&self, embedding: &Vec<i64>) -> (found: EntityMatch)
        requires
            in_bounds(embedding@),
        ensures
            match found.method {
                MatchMethod::EmbeddingSimilarity => exists|i: int|
                    {
                        &&& #[trigger] is_first_best(
                            embedding_scores(self.records(), embedding@),
                            self.records().len() as int,
                            i,
                        )
                        &&& found.entity_id == Some(self.records()[i].entity_id)
                        &&& found.confidence == embedding_confidence(
                            embedding_score(self.records(), embedding@, i),
                        )
                    },
                MatchMethod::NoMatch => found.entity_id is None && found.confidence == 0
                    && none_scores(
                    embedding_scores(self.records(), embedding@),
                    self.records().len() as int,
                ),
                _ => false,
            },
    {
        match self.best_by_embedding(embedding) {
            Some((i, alike)) => {
                let found = EntityMatch {
                    entity_id: Some(self.entity_index[i].entity_id.clone()),
                    confidence: calculate_embedding_confidence(alike),
                    method: MatchMethod::EmbeddingSimilarity,
                };
                proof {
                    assert(is_first_best(
                        embedding_scores(self.records(), embedding@),
                        self.records().len() as int,
                        i as int,
                    ));
                }
                found
            },
            None => EntityMatch { entity_id: None, confidence: 0, method: MatchMethod::NoMatch },
        }
    }

    /// The entity that an identifier of the content names, if any: by EIDR
    /// first, then by IMDb, then by TMDb identifier.
    pub open spec fn exact(&self, content: IngestedContent) -> Option<(String, i64, Seq<char>)> {
        if content.eidr is Some && index_get(self.eidrs(), content.eidr->0@) is Some {
            Some((index_get(self.eidrs(), content.eidr->0@)->0, EIDR_CONFIDENCE, "eidr"@))
        } else if content.imdb_id is Some && index_get(self.imdb_ids(), content.imdb_id->0@) is Some {
            Some(
                (
                    index_get(self.imdb_ids(), content.imdb_id->0@)->0,
                    EXTERNAL_ID_CONFIDENCE,
                    "imdb"@,
                ),
            )
        } else if content.tmdb_id is Some && index_get(self.tmdb_ids(), content.tmdb_id->0@) is Some {
            Some(
                (
                    index_get(self.tmdb_ids(), content.tmdb_id->0@)->0,
                    EXTERNAL_ID_CONFIDENCE,
                    "tmdb"@,
                ),
            )
        } else {
            None
        }
    }

    /// The match by identifier, if an identifier of the content names an
    /// entity.
    pub fn exact_match(&self, content: &IngestedContent) -> (found: Option<EntityMatch>)
        ensures
            match self.exact(*content) {
                Some((entity, confidence, source)) => found matches Some(m) && m.entity_id == Some(
                    entity,
                ) && m.confidence == confidence && match m.method {
                    MatchMethod::EidrExact => source == "eidr"@,
                    MatchMethod::ExternalId { source: named } => named@ == source && source
                        != "eidr"@,
                    _ => false,
                },
                None => found is None,
            },
    {
        proof {
            reveal_strlit("eidr");
            reveal_strlit("imdb");
            reveal_strlit("tmdb");
            assert("eidr"@[0] != "imdb"@[0]);
            assert("eidr"@[0] != "tmdb"@[0]);
        }
        if let Some(eidr) = &content.eidr {
            if let Some(entity) = get_from_index(&self.eidr_index, eidr.as_str()) {
                return Some(
                    EntityMatch {
                        entity_id: Some(entity),
                        confidence: EIDR_CONFIDENCE,
                        method: MatchMethod::EidrExact,
                    },
                );
            }
        }
        if let Some(imdb) = &content.imdb_id {
            if let Some(entity) = get_from_index(&self.imdb_index, imdb.as_str()) {
                return Some(
                    EntityMatch {
                        entity_id: Some(entity),
                        confidence: EXTERNAL_ID_CONFIDENCE,
                        method: MatchMethod::ExternalId { source: "imdb".to_owned() },
                    },
                );
            }
        }
        if let Some(tmdb) = &content.tmdb_id {
            if let Some(entity) = get_from_index(&self.tmdb_index, tmdb.as_str()) {
                return Some(
                    EntityMatch {
                        entity_id: Some(entity),
                        confidence: EXTERNAL_ID_CONFIDENCE,
                        method: MatchMethod::ExternalId { source: "tmdb".to_owned() },
                    },
                );
            }
        }
        None
    }

    /// Resolves content to an entity. An identifier decides where one
    /// names an entity. Else the match by title and year is taken where it
    /// reaches `FUZZY_THRESHOLD`; else the match by embedding where the
    /// content has an embedding that the arithmetic accepts and the match
    /// reaches `EMBEDDING_THRESHOLD`; else nothing matches.
    pub fn resolve(&self, content: &IngestedContent) -> (found: EntityMatch)
        ensures
            self.exact(*content) matches Some((entity, confidence, _)) ==> found.entity_id == Some(
                entity,
            ) && found.confidence == confidence,
            self.exact(*content) is None ==> match found.method {
                MatchMethod::FuzzyTitleYear => found.confidence >= FUZZY_THRESHOLD
                    && found.entity_id is Some,
                MatchMethod::EmbeddingSimilarity => found.confidence >= EMBEDDING_THRESHOLD
                    && found.entity_id is Some && content.embedding is Some && none_scores(
                    fuzzy_scores(self.records(), normalized_title(content.title@), content.release_year),
                    self.records().len() as int,
                ),
                MatchMethod::NoMatch => found.entity_id is None && found.confidence == 0
                    && none_scores(
                    fuzzy_scores(self.records(), normalized_title(content.title@), content.release_year),
                    self.records().len() as int,
                ),
                _ => false,
            },
    {
        if let Some(found) = self.exact_match(content) {
            return found;
        }
        let fuzzy = self.fuzzy_title_year_match(content);
        if fuzzy.confidence >= FUZZY_THRESHOLD {
            return fuzzy;
        }
        if let Some(embedding) = &content.embedding {
            if within_bounds(embedding) {
                let by_embedding = self.embedding_similarity_match(embedding);
                if by_embedding.confidence >= EMBEDDING_THRESHOLD {
                    return by_embedding;
                }
            }
        }
        EntityMatch { entity_id: None, confidence: 0, method: MatchMethod::NoMatch }
    }
}

impl Default for EntityResolver {
    fn default() -> (resolver: Self)
        ensures
            resolver.records().len() == 0,
    {
        EntityResolver::new()
    }
}

} // verus!
