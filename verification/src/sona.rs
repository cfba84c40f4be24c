//! Scores that the recommendation filters derive from what two pieces of
//! content share and from the habits of a viewer.
//!
//! Scores are whole millionths, rounded toward zero.

use crate::math::{cosine, cosine_similarity, in_bounds, within_bounds};
use crate::text::views;
use vstd::prelude::*;

verus! {

/// One whole, in millionths.
pub const UNIT: i64 = 1_000_000;

/// The score of an hour or weekday for which no habit is known: 0.5.
pub const NEUTRAL_SCORE: i64 = 500_000;

/// The set of the strings in a list.
pub open spec fn string_set(list: Seq<String>) -> Set<Seq<char>> {
    views(list).to_set()
}

/// The Jaccard similarity of two lists as sets, in millionths: the size of
/// the intersection over the size of the union; 0 where a list is empty.
pub open spec fn jaccard(a: Seq<String>, b: Seq<String>) -> int {
    if a.len() == 0 || b.len() == 0 {
        0
    } else {
        (string_set(a).intersect(string_set(b)).len() * UNIT) / (string_set(a).union(
            string_set(b),
        ).len() as int)
    }
}

/// The overlap of two lists as sets, in millionths: the size of the
/// intersection over the size of the larger set; 0 where a list is empty.
pub open spec fn overlap(a: Seq<String>, b: Seq<String>) -> int {
    if a.len() == 0 || b.len() == 0 {
        0
    } else {
        let larger = if string_set(a).len() >= string_set(b).len() {
            string_set(a).len()
        } else {
            string_set(b).len()
        };
        (string_set(a).intersect(string_set(b)).len() * UNIT) / (larger as int)
    }
}

/// Whether a list holds a string.
pub fn holds(list: &Vec<String>, item: &String) -> (found: bool)
    ensures
        found == views(list@).contains(item@),
{
    let mut i: usize = 0;
    while i < list.len()
        invariant
            i <= list.len(),
            forall|j: int| 0 <= j < i ==> views(list@)[j] != item@,
        decreases list.len() - i,
    {
        if list[i] == *item {
            assert(views(list@)[i as int] == item@);
            return true;
        }
        i += 1;
    }
    false
}

/// The strings of a list, each once, in the order of their first
/// occurrence.
pub fn distinct(list: &Vec<String>) -> (out: Vec<String>)
    ensures
        views(out@).no_duplicates(),
        string_set(out@) == string_set(list@),
        out.len() <= list.len(),
        list.len() > 0 ==> out.len() > 0,
{
    let mut out: Vec<String> = Vec::new();
    let ghost all = views(list@);
    let mut i: usize = 0;
    proof {
        assert(views(out@).to_set() =~= all.take(0).to_set());
    }
    while i < list.len()
        invariant
            i <= list.len(),
            all == views(list@),
            out.len() <= i,
            i > 0 ==> out.len() > 0,
            views(out@).no_duplicates(),
            views(out@).to_set() == all.take(i as int).to_set(),
        decreases list.len() - i,
    {
        let ghost before = views(out@);
        let ghost item = list@[i as int]@;
        proof {
            assert(all.take(i + 1) =~= all.take(i as int).push(item));
            all.take(i as int).lemma_push_to_set_commute(item);
        }
        if !holds(&out, &list[i]) {
            out.push(list[i].clone());
            proof {
                assert(views(out@) =~= before.push(item));
                before.lemma_push_to_set_commute(item);
            }
        } else {
            proof {
                assert(before.to_set().contains(item));
                assert(before.to_set().insert(item) =~= before.to_set());
            }
        }
        i += 1;
    }
    proof {
        assert(all.take(list.len() as int) =~= all);
    }
    out
}

/// How many strings of a list without repeats occur in another list.
pub fn count_common(a: &Vec<String>, b: &Vec<String>) -> (n: usize)
    requires
        views(a@).no_duplicates(),
    ensures
        n == string_set(a@).intersect(string_set(b@)).len(),
        n <= a.len(),
{
    let ghost va = views(a@);
    let ghost other = string_set(b@);
    let mut n: usize = 0;
    let mut i: usize = 0;
    proof {
        assert(va.take(0).to_set().intersect(other) =~= Set::<Seq<char>>::empty());
    }
    while i < a.len()
        invariant
            i <= a.len(),
            n <= i,
            va == views(a@),
            va.no_duplicates(),
            other == string_set(b@),
            n == va.take(i as int).to_set().intersect(other).len(),
        decreases a.len() - i,
    {
        let ghost item = a@[i as int]@;
        let ghost seen = va.take(i as int).to_set();
        proof {
            assert(va.take(i + 1) =~= va.take(i as int).push(item));
            va.take(i as int).lemma_push_to_set_commute(item);
            vstd::seq_lib::seq_to_set_is_finite(va.take(i as int));
            vstd::seq_lib::seq_to_set_is_finite(views(b@));
            vstd::set::axiom_set_intersect_finite(seen, other);
            if seen.contains(item) {
                let j = choose|j: int| 0 <= j < i && va.take(i as int)[j] == item;
                assert(va[j] == va[i as int]);
            }
        }
        if holds(b, &a[i]) {
            proof {
                assert(seen.insert(item).intersect(other) =~= seen.intersect(other).insert(item));
                vstd::set::axiom_set_insert_len(seen.intersect(other), item);
            }
            n += 1;
        } else {
            proof {
                assert(seen.insert(item).intersect(other) =~= seen.intersect(other));
            }
        }
        i += 1;
    }
    proof {
        assert(va.take(a.len() as int) =~= va);
    }
    n
}

/// The sizes of two lists as sets and of their intersection.
pub fn set_sizes(a: &Vec<String>, b: &Vec<String>) -> (sizes: (usize, usize, usize))
    ensures
        sizes.0 == string_set(a@).len(),
        sizes.1 == string_set(b@).len(),
        sizes.2 == string_set(a@).intersect(string_set(b@)).len(),
        sizes.2 <= sizes.0 <= a.len(),
        sizes.2 <= sizes.1 <= b.len(),
        a.len() > 0 ==> sizes.0 > 0,
        b.len() > 0 ==> sizes.1 > 0,
        string_set(a@).union(string_set(b@)).len() == sizes.0 + sizes.1 - sizes.2,
{
    let da = distinct(a);
    let db = distinct(b);
    let common = count_common(&da, b);
    proof {
        views(da@).unique_seq_to_set();
        views(db@).unique_seq_to_set();
        vstd::seq_lib::seq_to_set_is_finite(views(a@));
        vstd::seq_lib::seq_to_set_is_finite(views(b@));
        vstd::set_lib::lemma_set_intersect_union_lens(string_set(a@), string_set(b@));
        vstd::set_lib::lemma_len_intersect(string_set(a@), string_set(b@));
        assert(string_set(a@).intersect(string_set(b@)) =~= string_set(b@).intersect(
            string_set(a@),
        ));
        vstd::set_lib::lemma_len_intersect(string_set(b@), string_set(a@));
    }
    (da.len(), db.len(), common)
}

/// `part / whole` in millionths, rounded down.
pub fn ratio(part: u128, whole: u128) -> (share: i64)
    requires
        part <= whole,
        0 < whole <= 0x2_0000_0000_0000_0000,
    ensures
        share == (part * UNIT) / (whole as int),
        0 <= share <= UNIT,
{
    assert(part * 1_000_000 <= whole * 1_000_000) by (nonlinear_arith)
        requires
            part <= whole,
    ;
    assert(whole * 1_000_000 <= 0x2_0000_0000_0000_0000 * 1_000_000) by (nonlinear_arith)
        requires
            whole <= 0x2_0000_0000_0000_0000,
    ;
    let scaled: u128 = part * 1_000_000;
    let share: u128 = scaled / whole;
    assert(share <= 1_000_000) by (nonlinear_arith)
        requires
            share == scaled / whole,
            scaled <= whole * 1_000_000,
            whole > 0,
    ;
    share as i64
}

/// Recommends content like what a viewer has watched.
#[derive(Debug, Clone, Copy, PartialEq, Eq, Structural)]
pub struct ContentBasedFilter;

impl ContentBasedFilter {
    /// How much two genre lists overlap: their Jaccard similarity.
    pub fn genre_overlap_score(genres_a: &Vec<String>, genres_b: &Vec<String>) -> (score: i64)
        ensures
            score == jaccard(genres_a@, genres_b@),
            0 <= score <= UNIT,
    {
        if genres_a.len() == 0 || genres_b.len() == 0 {
            return 0;
        }
        let (size_a, size_b, common) = set_sizes(genres_a, genres_b);
        ratio(common as u128, size_a as u128 + (size_b - common) as u128)
    }

    /// How much two credit lists overlap: the credits they share over the
    /// size of the larger list as a set.
    pub fn credits_similarity(credits_a: &Vec<String>, credits_b: &Vec<String>) -> (score: i64)
        ensures
            score == overlap(credits_a@, credits_b@),
            0 <= score <= UNIT,
    {
        if credits_a.len() == 0 || credits_b.len() == 0 {
            return 0;
        }
        let (size_a, size_b, common) = set_sizes(credits_a, credits_b);
        let larger: usize = if size_a >= size_b { size_a } else { size_b };
        ratio(common as u128, larger as u128)
    }
}

/// The habits of a viewer, each as a score in millionths.
#[derive(Debug, Clone)]
pub struct TemporalContext {
    /// One score for each hour of the day.
    pub hourly_patterns: Vec<i64>,
    /// One score for each day of the week.
    pub weekday_patterns: Vec<i64>,
    /// One score for each season.
    pub seasonal_patterns: Vec<i64>,
    pub recent_bias: i64,
}

/// The score at `index`, or the neutral score beyond the end.
pub open spec fn pattern_at(patterns: Seq<i64>, index: int) -> int {
    if 0 <= index < patterns.len() {
        patterns[index] as int
    } else {
        NEUTRAL_SCORE as int
    }
}

/// A tenth of `x`, rounded toward zero.
pub open spec fn tenth(x: int) -> int {
    if x >= 0 {
        x / 10
    } else {
        -((-x) / 10)
    }
}

/// The temporal score: six tenths of the hour's score and four tenths of
/// the weekday's.
pub open spec fn temporal_score(patterns: TemporalContext, hour: int, weekday: int) -> int {
    tenth(
        6 * pattern_at(patterns.hourly_patterns@, hour) + 4 * pattern_at(
            patterns.weekday_patterns@,
            weekday,
        ),
    )
}

/// Filters recommendations by time, device and mood.
#[derive(Debug, Clone, Copy, PartialEq, Eq, Structural)]
pub struct ContextAwareFilter;

impl ContextAwareFilter {
    /// How well the current hour and weekday fit the habits of a viewer.
    pub fn calculate_temporal_score(
        temporal_patterns: &TemporalContext,
        current_hour: usize,
        current_weekday: usize,
    ) -> (score: i64)
        ensures
            score == temporal_score(*temporal_patterns, current_hour as int, current_weekday as int),
    {
        let hourly: i64 = if current_hour < temporal_patterns.hourly_patterns.len() {
            temporal_patterns.hourly_patterns[current_hour]
        } else {
            NEUTRAL_SCORE
        };
        let weekday: i64 = if current_weekday < temporal_patterns.weekday_patterns.len() {
            temporal_patterns.weekday_patterns[current_weekday]
        } else {
            NEUTRAL_SCORE
        };
        let weighted: i128 = 6 * (hourly as i128) + 4 * (weekday as i128);
        if weighted >= 0 {
            let tenth: i128 = weighted / 10;
            tenth as i64
        } else {
            let size: i128 = -weighted;
            let tenth: i128 = size / 10;
            (-tenth) as i64
        }
    }
}

/// The score at which another viewer counts as similar where nothing else
/// is asked for: 0.3.
pub const DEFAULT_MIN_SIMILARITY: i64 = 300_000;

/// A piece of content with the score a filter gave it, in millionths.
#[derive(Debug, Clone, Copy, PartialEq, Eq, Structural)]
pub struct ScoredContent {
    pub content_id: u128,
    pub score: i64,
}

/// `sorted` holds the items of `items`, each once, from the highest score
/// down, items of equal score in the order `items` had them. `origin[p]` is
/// the index in `items` of the item at `p` of `sorted`.
pub open spec fn is_stable_descending(items: Seq<ScoredContent>, sorted: Seq<ScoredContent>, origin: Seq<int>) -> bool {
    &&& sorted.len() == items.len()
    &&& origin.len() == items.len()
    &&& forall|p: int| 0 <= p < origin.len() ==> 0 <= #[trigger] origin[p] < items.len()
    &&& forall|p: int| 0 <= p < origin.len() ==> sorted[p] == items[#[trigger] origin[p]]
    &&& forall|p: int, q: int| 0 <= p < q < origin.len() ==> items[#[trigger] origin[p]].score > items[#[trigger] origin[q]].score
        || (items[origin[p]].score == items[origin[q]].score && origin[p] < origin[q])
    &&& forall|a: int| 0 <= a < items.len() ==> origin.contains(a)
}

/// A list without the items that carry the identifier of the item just
/// before them.
pub open spec fn deduped(items: Seq<ScoredContent>) -> Seq<ScoredContent>
    decreases items.len(),
{
    if items.len() <= 1 {
        items
    } else {
        let rest = deduped(items.drop_last());
        if items.last().content_id == items[items.len() - 2].content_id {
            rest
        } else {
            rest.push(items.last())
        }
    }
}

/// The first `limit` items of a list, or all of it where it has fewer.
pub open spec fn at_most<T>(items: Seq<T>, limit: int) -> Seq<T> {
    if limit < items.len() {
        items.take(limit)
    } else {
        items
    }
}

fn sort_with_origin(items: &Vec<ScoredContent>) -> (out: (Vec<ScoredContent>, Ghost<Seq<int>>))
    ensures
        is_stable_descending(items@, out.0@, out.1@),
{
    let ghost origin: Seq<int> = Seq::empty();
    let mut sorted: Vec<ScoredContent> = Vec::new();
    let mut i: usize = 0;
    while i < items.len()
        invariant
            i <= items.len(),
            sorted.len() == i,
            origin.len() == i,
            forall|p: int| 0 <= p < origin.len() ==> 0 <= #[trigger] origin[p] < i,
            forall|p: int| 0 <= p < origin.len() ==> sorted@[p] == items@[#[trigger] origin[p]],
            forall|p: int, q: int| 0 <= p < q < origin.len() ==> items@[#[trigger] origin[p]].score > items@[#[trigger] origin[q]].score
                || (items@[origin[p]].score == items@[origin[q]].score && origin[p] < origin[q]),
            forall|a: int| 0 <= a < i ==> origin.contains(a),
        decreases items.len() - i,
    {
        let item = items[i];
        let mut pos: usize = 0;
        while pos < sorted.len() && sorted[pos].score >= item.score
            invariant
                pos <= sorted.len(),
                sorted.len() == i,
                origin.len() == i,
                forall|p: int| 0 <= p < origin.len() ==> sorted@[p] == items@[#[trigger] origin[p]],
                forall|p: int| 0 <= p < pos ==> items@[#[trigger] origin[p]].score >= item.score,
            decreases sorted.len() - pos,
        {
            proof {
                assert(sorted@[pos as int] == items@[origin[pos as int]]);
            }
            pos += 1;
        }
        let ghost old_origin = origin;
        proof {
            if pos < sorted.len() {
                assert(sorted@[pos as int] == items@[old_origin[pos as int]]);
            }
        }
        sorted.insert(pos, item);
        proof {
            origin = old_origin.insert(pos as int, i as int);
            assert forall|p: int, q: int| 0 <= p < q < origin.len() implies items@[#[trigger] origin[p]].score > items@[#[trigger] origin[q]].score
                || (items@[origin[p]].score == items@[origin[q]].score && origin[p] < origin[q]) by {
                if q == pos {
                    assert(origin[p] == old_origin[p]);
                } else if p == pos {
                    assert(origin[q] == old_origin[q - 1]);
                    if q - 1 > pos {
                        let first = old_origin[pos as int];
                        let other = old_origin[q - 1];
                        assert(items@[first].score > items@[other].score || (items@[first].score
                            == items@[other].score && first < other));
                    }
                } else {
                    let from_p = if p < pos { p } else { p - 1 };
                    let from_q = if q < pos { q } else { q - 1 };
                    assert(origin[p] == old_origin[from_p]);
                    assert(origin[q] == old_origin[from_q]);
                }
            }
            assert forall|a: int| 0 <= a < i + 1 implies origin.contains(a) by {
                if a < i {
                    assert(old_origin.contains(a));
                    let p = choose|p: int| 0 <= p < old_origin.len() && old_origin[p] == a;
                    if p < pos {
                        assert(origin[p] == a);
                    } else {
                        assert(origin[p + 1] == a);
                    }
                } else {
                    assert(origin[pos as int] == a);
                }
            }
            assert forall|p: int| 0 <= p < origin.len() implies sorted@[p] == items@[#[trigger] origin[p]] by {
                if p < pos {
                    assert(origin[p] == old_origin[p]);
                } else if p > pos {
                    assert(origin[p] == old_origin[p - 1]);
                }
            }
            assert forall|p: int| 0 <= p < origin.len() implies 0 <= #[trigger] origin[p] < i + 1 by {
                if p < pos {
                    assert(origin[p] == old_origin[p]);
                } else if p > pos {
                    assert(origin[p] == old_origin[p - 1]);
                }
            }
        }
        i += 1;
    }
    (sorted, Ghost(origin))
}

/// Sorts by score, highest first; items of equal score keep their order.
pub fn sort_by_score(items: &Vec<ScoredContent>) -> (sorted: Vec<ScoredContent>)
    ensures
        exists|origin: Seq<int>| #[trigger] is_stable_descending(items@, sorted@, origin),
{
    let (sorted, Ghost(origin)) = sort_with_origin(items);
    proof {
        assert(is_stable_descending(items@, sorted@, origin));
    }
    sorted
}

/// Drops every item that carries the identifier of the item just before
/// it.
pub fn dedup_by_content(items: &Vec<ScoredContent>) -> (out: Vec<ScoredContent>)
    ensures
        out@ == deduped(items@),
{
    let mut out: Vec<ScoredContent> = Vec::new();
    let mut i: usize = 0;
    proof {
        assert(items@.take(0) =~= Seq::<ScoredContent>::empty());
    }
    while i < items.len()
        invariant
            i <= items.len(),
            out@ == deduped(items@.take(i as int)),
        decreases items.len() - i,
    {
        proof {
            let next = items@.take(i + 1);
            assert(next.drop_last() =~= items@.take(i as int));
            assert(next.last() == items@[i as int]);
            if i > 0 {
                assert(next[next.len() - 2] == items@[i - 1]);
            } else {
                assert(next =~= seq![items@[0]]);
                assert(out@ =~= Seq::<ScoredContent>::empty());
                assert(Seq::<ScoredContent>::empty().push(items@[0]) =~= next);
            }
        }
        if i == 0 || items[i].content_id != items[i - 1].content_id {
            out.push(items[i]);
        }
        i += 1;
    }
    proof {
        assert(items@.take(items.len() as int) =~= items@);
    }
    out
}

/// The candidates a filter returns: sorted by score from the highest down,
/// without neighbours of one identifier, and at most `limit` of them.
pub fn rank_candidates(candidates: &Vec<ScoredContent>, limit: usize) -> (ranked: Vec<ScoredContent>)
    ensures
        exists|sorted: Seq<ScoredContent>, origin: Seq<int>| #[trigger]
            is_stable_descending(candidates@, sorted, origin) && ranked@ == at_most(
                deduped(sorted),
                limit as int,
            ),
        ranked.len() <= limit,
{
    let (sorted, Ghost(origin)) = sort_with_origin(candidates);
    let mut ranked = dedup_by_content(&sorted);
    let ghost all = ranked@;
    if ranked.len() > limit {
        ranked.truncate(limit);
    }
    proof {
        assert(ranked@ =~= at_most(all, limit as int));
        assert(is_stable_descending(candidates@, sorted@, origin));
    }
    ranked
}

/// A sparse vector: what a viewer made of each piece of content, by
/// content identifier.
pub struct Interactions {
    pub entries: Vec<(u128, i64)>,
}

/// The value a sparse vector has for a key: that of its first entry for
/// the key, or 0.
pub open spec fn value_of(entries: Seq<(u128, i64)>, key: u128) -> i64
    decreases entries.len(),
{
    if entries.len() == 0 {
        0
    } else if entries[0].0 == key {
        entries[0].1
    } else {
        value_of(entries.drop_first(), key)
    }
}

/// The keys of a sparse vector, in order.
pub open spec fn keys_of(entries: Seq<(u128, i64)>) -> Seq<u128> {
    entries.map_values(|e: (u128, i64)| e.0)
}

/// The keys of a list, each once, in the order of their first occurrence.
pub open spec fn once(keys: Seq<u128>) -> Seq<u128>
    decreases keys.len(),
{
    if keys.len() == 0 {
        keys
    } else {
        let rest = once(keys.drop_last());
        if keys.drop_last().contains(keys.last()) {
            rest
        } else {
            rest.push(keys.last())
        }
    }
}

/// The keys that either of two sparse vectors has, each once: those of `a`
/// first, then those only `b` has.
pub open spec fn all_keys(a: Seq<(u128, i64)>, b: Seq<(u128, i64)>) -> Seq<u128> {
    once(keys_of(a) + keys_of(b))
}

/// A sparse vector spread out over a list of keys.
pub open spec fn spread(entries: Seq<(u128, i64)>, keys: Seq<u128>) -> Seq<i64> {
    keys.map_values(|k: u128| value_of(entries, k))
}

fn value_at(entries: &Vec<(u128, i64)>, key: u128) -> (value: i64)
    ensures
        value == value_of(entries@, key),
{
    let mut i: usize = 0;
    proof {
        assert(entries@.skip(0) =~= entries@);
    }
    while i < entries.len()
        invariant
            i <= entries.len(),
            value_of(entries@, key) == value_of(entries@.skip(i as int), key),
        decreases entries.len() - i,
    {
        proof {
            assert(entries@.skip(i as int)[0] == entries@[i as int]);
            assert(entries@.skip(i as int).drop_first() =~= entries@.skip(i + 1));
        }
        if entries[i].0 == key {
            return entries[i].1;
        }
        i += 1;
    }
    0
}

fn has_key(keys: &Vec<u128>, key: u128) -> (found: bool)
    ensures
        found == keys@.contains(key),
{
    let mut i: usize = 0;
    while i < keys.len()
        invariant
            i <= keys.len(),
            forall|j: int| 0 <= j < i ==> keys@[j] != key,
        decreases keys.len() - i,
    {
        if keys[i] == key {
            return true;
        }
        i += 1;
    }
    false
}

/// A key occurs in a list exactly if it occurs in the list of its keys
/// taken once.
proof fn lemma_once_contains(keys: Seq<u128>, key: u128)
    ensures
        once(keys).contains(key) == keys.contains(key),
        once(keys).len() <= keys.len(),
    decreases keys.len(),
{
    if keys.len() > 0 {
        let front = keys.drop_last();
        lemma_once_contains(front, key);
        lemma_once_contains(front, keys.last());
        if keys.contains(key) {
            let i = choose|i: int| 0 <= i < keys.len() && keys[i] == key;
            if i < front.len() {
                assert(front[i] == key);
            }
        }
        if front.contains(key) {
            let i = choose|i: int| 0 <= i < front.len() && front[i] == key;
            assert(keys[i] == key);
        }
        if !front.contains(keys.last()) {
            let rest = once(front);
            assert(rest.push(keys.last())[rest.len() as int] == keys.last());
            if rest.contains(key) {
                let i = choose|i: int| 0 <= i < rest.len() && rest[i] == key;
                assert(rest.push(keys.last())[i] == key);
            }
        }
        assert(keys[keys.len() - 1] == keys.last());
    }
}

fn union_keys(a: &Vec<(u128, i64)>, b: &Vec<(u128, i64)>) -> (keys: Vec<u128>)
    ensures
        keys@ == all_keys(a@, b@),
{
    let ghost all = keys_of(a@) + keys_of(b@);
    let mut keys: Vec<u128> = Vec::new();
    let mut i: usize = 0;
    proof {
        assert(all.take(0) =~= Seq::<u128>::empty());
    }
    while i < a.len()
        invariant
            i <= a.len(),
            all == keys_of(a@) + keys_of(b@),
            keys@ == once(all.take(i as int)),
        decreases a.len() - i,
    {
        let key = a[i].0;
        proof {
            assert(all.take(i + 1).drop_last() =~= all.take(i as int));
            assert(all.take(i + 1).last() == key);
            lemma_once_contains(all.take(i as int), key);
        }
        if !has_key(&keys, key) {
            keys.push(key);
        }
        i += 1;
    }
    let mut j: usize = 0;
    while j < b.len()
        invariant
            j <= b.len(),
            all == keys_of(a@) + keys_of(b@),
            keys@ == once(all.take(a.len() + j)),
        decreases b.len() - j,
    {
        let key = b[j].0;
        proof {
            assert(all.take(a.len() + j + 1).drop_last() =~= all.take(a.len() + j));
            assert(all.take(a.len() + j + 1).last() == key);
            lemma_once_contains(all.take(a.len() + j), key);
        }
        if !has_key(&keys, key) {
            keys.push(key);
        }
        j += 1;
    }
    proof {
        assert(all.take(a.len() + b.len()) =~= all);
    }
    keys
}

fn spread_over(entries: &Vec<(u128, i64)>, keys: &Vec<u128>) -> (out: Vec<i64>)
    ensures
        out@ == spread(entries@, keys@),
{
    let mut out: Vec<i64> = Vec::new();
    let mut i: usize = 0;
    while i < keys.len()
        invariant
            i <= keys.len(),
            out@ == spread(entries@, keys@).take(i as int),
        decreases keys.len() - i,
    {
        let value = value_at(entries, keys[i]);
        out.push(value);
        proof {
            assert(spread(entries@, keys@).take(i + 1) =~= spread(entries@, keys@).take(
                i as int,
            ).push(value));
        }
        i += 1;
    }
    proof {
        assert(spread(entries@, keys@).take(keys.len() as int) =~= spread(entries@, keys@));
    }
    out
}

/// Whether a score reaches `min`, as a predicate.
pub open spec fn reaches(min: i64) -> spec_fn(ScoredContent) -> bool {
    |c: ScoredContent| c.score >= min
}

/// Finds viewers with alike tastes.
#[derive(Debug, Clone, Copy, PartialEq, Eq, Structural)]
pub struct CollaborativeEngine {
    /// The similarity from which another viewer counts, in millionths.
    pub min_similarity: i64,
}

impl CollaborativeEngine {
    /// An engine with `DEFAULT_MIN_SIMILARITY`.
    pub fn new() -> (engine: Self)
        ensures
            engine.min_similarity == DEFAULT_MIN_SIMILARITY,
    {
        CollaborativeEngine { min_similarity: DEFAULT_MIN_SIMILARITY }
    }

    /// The engine with another least similarity.
    pub fn with_min_similarity(self, min: i64) -> (engine: Self)
        ensures
            engine.min_similarity == min,
    {
        CollaborativeEngine { min_similarity: min }
    }

    /// The cosine of two sparse vectors, in millionths: that of the two
    /// spread out over the keys of both. `None` where the vectors are
    /// beyond what the arithmetic accepts.
    pub fn compute_cosine_similarity(&self, a: &Interactions, b: &Interactions) -> (alike: Option<i64>)
        ensures
            match alike {
                Some(value) => in_bounds(spread(a.entries@, all_keys(a.entries@, b.entries@)))
                    && in_bounds(spread(b.entries@, all_keys(a.entries@, b.entries@))) && value
                    == cosine(
                    spread(a.entries@, all_keys(a.entries@, b.entries@)),
                    spread(b.entries@, all_keys(a.entries@, b.entries@)),
                ),
                None => !in_bounds(spread(a.entries@, all_keys(a.entries@, b.entries@)))
                    || !in_bounds(spread(b.entries@, all_keys(a.entries@, b.entries@))),
            },
    {
        let keys = union_keys(&a.entries, &b.entries);
        let dense_a = spread_over(&a.entries, &keys);
        let dense_b = spread_over(&b.entries, &keys);
        if within_bounds(&dense_a) && within_bounds(&dense_b) {
            Some(cosine_similarity(&dense_a, &dense_b))
        } else {
            None
        }
    }

    /// The viewers that are similar enough, from the most similar down, at
    /// most `k` of them. A candidate is a viewer with a similarity.
    pub fn rank_similar_users(&self, candidates: &Vec<ScoredContent>, k: usize) -> (similar: Vec<ScoredContent>)
        ensures
            exists|sorted: Seq<ScoredContent>, origin: Seq<int>| #[trigger]
                is_stable_descending(
                    candidates@.filter(reaches(self.min_similarity)),
                    sorted,
                    origin,
                ) && similar@ == at_most(sorted, k as int),
            similar.len() <= k,
    {
        let ghost enough = reaches(self.min_similarity);
        let mut kept: Vec<ScoredContent> = Vec::new();
        let mut i: usize = 0;
        proof {
            reveal(Seq::filter);
            assert(candidates@.take(0).filter(enough) =~= Seq::<ScoredContent>::empty());
        }
        while i < candidates.len()
            invariant
                i <= candidates.len(),
                enough == reaches(self.min_similarity),
                kept@ == candidates@.take(i as int).filter(enough),
            decreases candidates.len() - i,
        {
            proof {
                reveal(Seq::filter);
                assert(candidates@.take(i + 1).drop_last() =~= candidates@.take(i as int));
                assert(candidates@.take(i + 1).last() == candidates@[i as int]);
                assert(enough(candidates@[i as int]) == (candidates@[i as int].score
                    >= self.min_similarity));
            }
            if candidates[i].score >= self.min_similarity {
                kept.push(candidates[i]);
            }
            i += 1;
        }
        proof {
            assert(candidates@.take(candidates.len() as int) =~= candidates@);
        }
        let (mut similar, Ghost(origin)) = sort_with_origin(&kept);
        let ghost sorted = similar@;
        if similar.len() > k {
            similar.truncate(k);
        }
        proof {
            assert(similar@ =~= at_most(sorted, k as int));
            assert(is_stable_descending(
                candidates@.filter(reaches(self.min_similarity)),
                sorted,
                origin,
            ));
        }
        similar
    }
}

impl ContentBasedFilter {
    /// The candidates of the filter, from what was found to be like the
    /// content a viewer watched: ranked, and at most `limit`.
    pub fn generate_candidates(found: &Vec<ScoredContent>, limit: usize) -> (candidates: Vec<ScoredContent>)
        ensures
            exists|sorted: Seq<ScoredContent>, origin: Seq<int>| #[trigger]
                is_stable_descending(found@, sorted, origin) && candidates@ == at_most(
                    deduped(sorted),
                    limit as int,
                ),
            candidates.len() <= limit,
    {
        rank_candidates(found, limit)
    }
}

impl ContextAwareFilter {
    /// The candidates of the filter, from what fits the time of day, the
    /// device and the mood, in this order: ranked, and at most `limit`.
    pub fn generate_candidates(
        by_time: Vec<ScoredContent>,
        by_device: Vec<ScoredContent>,
        by_mood: Vec<ScoredContent>,
        limit: usize,
    ) -> (candidates: Vec<ScoredContent>)
        ensures
            exists|sorted: Seq<ScoredContent>, origin: Seq<int>| #[trigger]
                is_stable_descending(by_time@ + by_device@ + by_mood@, sorted, origin)
                    && candidates@ == at_most(deduped(sorted), limit as int),
            candidates.len() <= limit,
    {
        let mut all = by_time;
        let mut second = by_device;
        let mut third = by_mood;
        all.append(&mut second);
        all.append(&mut third);
        rank_candidates(&all, limit)
    }
}

} // verus!
