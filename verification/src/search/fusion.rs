//! Reciprocal rank fusion: every list gives an item the share
//! `weight / (k + rank)`; an item's fused score is the sum of its shares, and
//! the fused list is ordered by score, ties by who was seen first.
//!
//! Scores are exact fractions, counted in millionths like the weights.

use crate::search::{ids, rescored, SearchResult};
use vstd::prelude::*;

verus! {

/// The largest smoothing constant `k` a configuration may carry.
pub const MAX_RRF_K: u32 = 0x4000_0000;

/// The longest ranked list that can be fused.
pub const MAX_LIST_LEN: usize = 0x4000_0000;

/// A fraction of millionths, as mathematics sees it.
pub struct Ratio {
    pub numerator: int,
    pub denominator: int,
}

/// `a` is strictly greater than `b`; both denominators are positive.
pub open spec fn outranks(a: Ratio, b: Ratio) -> bool {
    a.numerator * b.denominator > b.numerator * a.denominator
}

/// `a` and `b` are the same number; both denominators are positive.
pub open spec fn ties(a: Ratio, b: Ratio) -> bool {
    a.numerator * b.denominator == b.numerator * a.denominator
}

/// A relevance score: `numerator / denominator` millionths. The fraction is
/// kept as it was computed, not reduced.
#[derive(Debug, Clone, Copy, PartialEq, Eq, Structural)]
pub struct Score {
    pub numerator: u128,
    pub denominator: u128,
}

impl View for Score {
    type V = Ratio;

    open spec fn view(&self) -> Ratio {
        Ratio { numerator: self.numerator as int, denominator: self.denominator as int }
    }
}

impl Score {
    /// Small enough that two scores can be compared by cross multiplication
    /// in 128 bits.
    pub open spec fn bounded(&self) -> bool {
        &&& self.numerator <= 0x1_0000_0000_0000_0000
        &&& 0 < self.denominator <= 0x4000_0000_0000_0000
    }

    /// The score of an item that no list ranked: zero.
    pub fn zero() -> (score: Score)
        ensures
            score@ == (Ratio { numerator: 0, denominator: 1 }),
            score.bounded(),
    {
        Score { numerator: 0, denominator: 1 }
    }

    /// A whole number of millionths.
    pub fn from_millionths(millionths: u32) -> (score: Score)
        ensures
            score@ == (Ratio { numerator: millionths as int, denominator: 1 }),
            score.bounded(),
    {
        Score { numerator: millionths as u128, denominator: 1 }
    }

    /// Whether `self` is strictly greater than `other`.
    pub fn exceeds(&self, other: &Score) -> (greater: bool)
        requires
            self.bounded(),
            other.bounded(),
        ensures
            greater == outranks(self@, other@),
    {
        assert(self.numerator * other.denominator <= 0x4000_0000_0000_0000_0000_0000_0000_0000)
            by (nonlinear_arith)
            requires
                self.numerator <= 0x1_0000_0000_0000_0000,
                other.denominator <= 0x4000_0000_0000_0000,
        ;
        assert(other.numerator * self.denominator <= 0x4000_0000_0000_0000_0000_0000_0000_0000)
            by (nonlinear_arith)
            requires
                other.numerator <= 0x1_0000_0000_0000_0000,
                self.denominator <= 0x4000_0000_0000_0000,
        ;
        self.numerator * other.denominator > other.numerator * self.denominator
    }

    /// The score in whole millionths, rounded down.
    pub fn to_millionths(&self) -> (millionths: u128)
        requires
            self.denominator > 0,
        ensures
            millionths == self.numerator as int / self.denominator as int,
    {
        self.numerator / self.denominator
    }
}

/// How much each strategy's ranking counts, in millionths.
#[derive(Debug, Clone, Copy, PartialEq, Eq, Structural)]
pub struct StrategyWeights {
    pub vector: u32,
    pub keyword: u32,
}

/// The fusion parameters.
#[derive(Debug, Clone, Copy, PartialEq, Eq, Structural)]
pub struct SearchConfig {
    /// The constant `k` added to every rank.
    pub rrf_k: u32,
    pub weights: StrategyWeights,
}

/// Why a configuration is refused.
#[derive(Debug, Clone, Copy, PartialEq, Eq, Structural)]
pub enum ConfigError {
    /// The vector weight is zero.
    VectorWeightNotPositive,
    /// The keyword weight is zero.
    KeywordWeightNotPositive,
    /// `k` is above `MAX_RRF_K`.
    SmoothingTooLarge,
}

impl SearchConfig {
    /// Both weights are positive and `k` is within its limit.
    pub open spec fn valid(&self) -> bool {
        &&& self.weights.vector > 0
        &&& self.weights.keyword > 0
        &&& self.rrf_k <= MAX_RRF_K
    }

    /// The first rule the configuration breaks, if any.
    pub open spec fn defect(&self) -> Option<ConfigError> {
        if self.weights.vector == 0 {
            Some(ConfigError::VectorWeightNotPositive)
        } else if self.weights.keyword == 0 {
            Some(ConfigError::KeywordWeightNotPositive)
        } else if self.rrf_k > MAX_RRF_K {
            Some(ConfigError::SmoothingTooLarge)
        } else {
            None
        }
    }

    /// Accepts exactly the valid configurations.
    pub fn validate(&self) -> (checked: Result<(), ConfigError>)
        ensures
            checked is Ok <==> self.valid(),
            checked matches Err(e) ==> self.defect() == Some(e),
    {
        if self.weights.vector == 0 {
            Err(ConfigError::VectorWeightNotPositive)
        } else if self.weights.keyword == 0 {
            Err(ConfigError::KeywordWeightNotPositive)
        } else if self.rrf_k > MAX_RRF_K {
            Err(ConfigError::SmoothingTooLarge)
        } else {
            Ok(())
        }
    }
}

impl Default for SearchConfig {
    /// `k` = 60 and both weights 1.0.
    fn default() -> (config: Self)
        ensures
            config.rrf_k == 60,
            config.weights.vector == 1_000_000,
            config.weights.keyword == 1_000_000,
            config.valid(),
    {
        SearchConfig { rrf_k: 60, weights: StrategyWeights { vector: 1_000_000, keyword: 1_000_000 } }
    }
}

/// The 1-based rank of `id` in a list, or `None` when the list lacks it.
pub open spec fn rank_of(ids: Seq<u128>, id: u128) -> Option<int> {
    if ids.contains(id) {
        Some(ids.index_of(id) + 1)
    } else {
        None
    }
}

/// The sum of the shares `weight / (k + rank)` of the lists that rank an item.
pub open spec fn combined(config: SearchConfig, vector_rank: Option<int>, keyword_rank: Option<int>) -> Ratio {
    let k = config.rrf_k as int;
    let wv = config.weights.vector as int;
    let wk = config.weights.keyword as int;
    match (vector_rank, keyword_rank) {
        (Some(rv), Some(rk)) => Ratio {
            numerator: wv * (k + rk) + wk * (k + rv),
            denominator: (k + rv) * (k + rk),
        },
        (Some(rv), None) => Ratio { numerator: wv, denominator: k + rv },
        (None, Some(rk)) => Ratio { numerator: wk, denominator: k + rk },
        (None, None) => Ratio { numerator: 0, denominator: 1 },
    }
}

/// The fused score of `id`, given the identifiers of both lists in rank order.
pub open spec fn fused_score(config: SearchConfig, vector: Seq<u128>, keyword: Seq<u128>, id: u128) -> Ratio {
    combined(config, rank_of(vector, id), rank_of(keyword, id))
}

/// Whether `a` was seen before `b`: the vector list is read first, then the
/// keyword list, each in rank order.
pub open spec fn seen_before(vector: Seq<u128>, keyword: Seq<u128>, a: u128, b: u128) -> bool {
    match (rank_of(vector, a), rank_of(vector, b)) {
        (Some(ra), Some(rb)) => ra < rb,
        (Some(_), None) => true,
        (None, Some(_)) => false,
        (None, None) => match (rank_of(keyword, a), rank_of(keyword, b)) {
            (Some(ra), Some(rb)) => ra < rb,
            _ => false,
        },
    }
}

/// Whether `a` stands before `b` in the fused list: by higher score, and
/// between equal scores by who was seen first.
pub open spec fn precedes(config: SearchConfig, vector: Seq<u128>, keyword: Seq<u128>, a: u128, b: u128) -> bool {
    let sa = fused_score(config, vector, keyword, a);
    let sb = fused_score(config, vector, keyword, b);
    outranks(sa, sb) || (ties(sa, sb) && seen_before(vector, keyword, a, b))
}

/// In a list without repeats, the item at index `i` has rank `i + 1`.
pub proof fn lemma_rank_at(ids: Seq<u128>, i: int)
    requires
        ids.no_duplicates(),
        0 <= i < ids.len(),
    ensures
        rank_of(ids, ids[i]) == Some(i + 1),
{
    assert(ids.contains(ids[i]));
    let j = ids.index_of(ids[i]);
    assert(0 <= j < ids.len() && ids[j] == ids[i]);
}

/// Order on fractions with positive denominators passes through a tie or
/// a greater middle term.
pub proof fn lemma_outranks_chain(a: Ratio, b: Ratio, c: Ratio)
    requires
        a.denominator > 0,
        b.denominator > 0,
        c.denominator > 0,
        outranks(a, b),
        outranks(b, c) || ties(b, c),
    ensures
        outranks(a, c),
{
    let (an, ad) = (a.numerator, a.denominator);
    let (bn, bd) = (b.numerator, b.denominator);
    let (cn, cd) = (c.numerator, c.denominator);
    assert((an * bd) * cd > (bn * ad) * cd) by (nonlinear_arith)
        requires
            an * bd > bn * ad,
            cd > 0,
    ;
    assert((bn * cd) * ad >= (cn * bd) * ad) by (nonlinear_arith)
        requires
            bn * cd >= cn * bd,
            ad > 0,
    ;
    assert((an * bd) * cd == (an * cd) * bd) by (nonlinear_arith);
    assert((bn * ad) * cd == (bn * cd) * ad) by (nonlinear_arith);
    assert((cn * bd) * ad == (cn * ad) * bd) by (nonlinear_arith);
    assert(an * cd > cn * ad) by (nonlinear_arith)
        requires
            (an * cd) * bd > (cn * ad) * bd,
            bd > 0,
    ;
}

/// The fused score of an item from its 0-based places in the two lists.
pub fn fuse_score(config: &SearchConfig, vector_index: Option<usize>, keyword_index: Option<usize>) -> (score: Score)
    requires
        config.valid(),
        vector_index matches Some(i) ==> i < MAX_LIST_LEN,
        keyword_index matches Some(i) ==> i < MAX_LIST_LEN,
    ensures
        score@ == combined(
            *config,
            match vector_index {
                Some(i) => Some(i + 1),
                None => None,
            },
            match keyword_index {
                Some(i) => Some(i + 1),
                None => None,
            },
        ),
        score.bounded(),
{
    let k: u128 = config.rrf_k as u128;
    let wv: u128 = config.weights.vector as u128;
    let wk: u128 = config.weights.keyword as u128;
    match (vector_index, keyword_index) {
        (Some(i), Some(j)) => {
            let dv: u128 = k + (i as u128 + 1);
            let dk: u128 = k + (j as u128 + 1);
            assert(wv * dk <= 0x8000_0000_0000_0000) by (nonlinear_arith)
                requires
                    wv <= 0xffff_ffff,
                    dk <= 0x8000_0000,
            ;
            assert(wk * dv <= 0x8000_0000_0000_0000) by (nonlinear_arith)
                requires
                    wk <= 0xffff_ffff,
                    dv <= 0x8000_0000,
            ;
            assert(0 < dv * dk <= 0x4000_0000_0000_0000) by (nonlinear_arith)
                requires
                    0 < dv <= 0x8000_0000,
                    0 < dk <= 0x8000_0000,
            ;
            Score { numerator: wv * dk + wk * dv, denominator: dv * dk }
        },
        (Some(i), None) => Score { numerator: wv, denominator: k + (i as u128 + 1) },
        (None, Some(j)) => Score { numerator: wk, denominator: k + (j as u128 + 1) },
        (None, None) => Score { numerator: 0, denominator: 1 },
    }
}

/// The place of `id` in `ids`, if it is there.
pub fn position(ids: &Vec<u128>, id: u128) -> (found: Option<usize>)
    ensures
        found matches Some(i) ==> i < ids.len() && ids@[i as int] == id,
        found is Some <==> ids@.contains(id),
        ids@.no_duplicates() ==> rank_of(ids@, id) == match found {
            Some(i) => Some(i + 1),
            None => None,
        },
{
    let mut i: usize = 0;
    while i < ids.len()
        invariant
            i <= ids.len(),
            forall|j: int| 0 <= j < i ==> ids@[j] != id,
        decreases ids.len() - i,
    {
        if ids[i] == id {
            proof {
                if ids@.no_duplicates() {
                    lemma_rank_at(ids@, i as int);
                }
            }
            return Some(i);
        }
        i += 1;
    }
    None
}

/// The entry that stands for `id` in the fused list: the one met first, in
/// the vector list if it is there, else in the keyword list.
pub open spec fn first_seen_entry(vector: Seq<SearchResult>, keyword: Seq<SearchResult>, id: u128) -> SearchResult {
    if ids(vector).contains(id) {
        vector[ids(vector).index_of(id)]
    } else {
        keyword[ids(keyword).index_of(id)]
    }
}

/// `result` is the first-seen entry of its identifier, carrying that
/// identifier's fused score.
pub open spec fn fused_as(config: SearchConfig, vector: Seq<SearchResult>, keyword: Seq<SearchResult>, result: SearchResult) -> bool {
    &&& result.relevance_score@ == fused_score(config, ids(vector), ids(keyword), result.content.id)
    &&& result.relevance_score.bounded()
    &&& rescored(result, first_seen_entry(vector, keyword, result.content.id))
}

/// The identifiers of a list, in rank order.
pub fn collect_ids(list: &Vec<SearchResult>) -> (out: Vec<u128>)
    ensures
        out@ == ids(list@),
{
    let mut out: Vec<u128> = Vec::new();
    let mut i: usize = 0;
    while i < list.len()
        invariant
            i <= list.len(),
            out@ == ids(list@).take(i as int),
        decreases list.len() - i,
    {
        out.push(list[i].content.id);
        proof {
            assert(ids(list@).take(i + 1) =~= ids(list@).take(i as int).push(ids(list@)[i as int]));
        }
        i += 1;
    }
    proof {
        assert(ids(list@).take(list.len() as int) =~= ids(list@));
    }
    out
}

/// Whether no identifier occurs twice in the list.
pub fn has_distinct_ids(list: &Vec<SearchResult>) -> (distinct: bool)
    ensures
        distinct == ids(list@).no_duplicates(),
{
    let all = collect_ids(list);
    let mut i: usize = 0;
    while i < all.len()
        invariant
            i <= all.len(),
            all@ == ids(list@),
            forall|a: int, b: int| 0 <= a < b < all.len() && a < i ==> all@[a] != all@[b],
        decreases all.len() - i,
    {
        let mut j: usize = i + 1;
        while j < all.len()
            invariant
                i < j <= all.len(),
                all@ == ids(list@),
                forall|b: int| i < b < j ==> all@[i as int] != all@[b],
            decreases all.len() - j,
        {
            if all[i] == all[j] {
                return false;
            }
            j += 1;
        }
        i += 1;
    }
    proof {
        assert forall|a: int, b: int| 0 <= a < all.len() && 0 <= b < all.len() && a != b implies all@[a] != all@[b] by {
            if a < b {
                assert(all@[a] != all@[b]);
            } else {
                assert(all@[b] != all@[a]);
            }
        }
    }
    true
}

/// Walks the vector list, then the keyword list, and keeps the first entry
/// met for every identifier, with its fused score.
pub fn merge_ranked(config: &SearchConfig, vector: Vec<SearchResult>, keyword: Vec<SearchResult>) -> (merged: Vec<SearchResult>)
    requires
        config.valid(),
        vector.len() <= MAX_LIST_LEN,
        keyword.len() <= MAX_LIST_LEN,
        ids(vector@).no_duplicates(),
        ids(keyword@).no_duplicates(),
    ensures
        merged.len() <= vector.len() + keyword.len(),
        forall|id: u128| ids(merged@).contains(id) <==> ids(vector@).contains(id) || ids(keyword@).contains(id),
        forall|i: int| 0 <= i < merged.len() ==> fused_as(*config, vector@, keyword@, #[trigger] merged@[i]),
        forall|i: int, j: int| 0 <= i < j < merged.len() ==> seen_before(
            ids(vector@),
            ids(keyword@),
            (#[trigger] merged@[i]).content.id,
            (#[trigger] merged@[j]).content.id,
        ),
{
    let vector_ids = collect_ids(&vector);
    let keyword_ids = collect_ids(&keyword);
    let ghost vs = vector@;
    let ghost ks = keyword@;
    let ghost vi = ids(vs);
    let ghost ki = ids(ks);
    let mut merged: Vec<SearchResult> = Vec::new();
    let mut i: usize = 0;
    for entry in it: vector.into_iter()
        invariant
            it.seq() == vs,
            i == it.index(),
            config.valid(),
            vs.len() <= MAX_LIST_LEN,
            ks.len() <= MAX_LIST_LEN,
            vi == ids(vs),
            ki == ids(ks),
            vi.no_duplicates(),
            ki.no_duplicates(),
            keyword_ids@ == ki,
            merged.len() == i,
            forall|a: int| 0 <= a < i ==> (#[trigger] merged@[a]).content.id == vi[a],
            forall|a: int| 0 <= a < i ==> fused_as(*config, vs, ks, #[trigger] merged@[a]),
    {
        let id = entry.content.id;
        let in_keyword = position(&keyword_ids, id);
        let score = fuse_score(config, Some(i), in_keyword);
        let ghost base = entry;
        let mut entry = entry;
        entry.relevance_score = score;
        proof {
            assert(base == vs[i as int]);
            assert(vi[i as int] == id);
            lemma_rank_at(vi, i as int);
        }
        merged.push(entry);
        i += 1;
    }
    let ghost nv = vs.len() as int;
    let ghost taken: Seq<int> = Seq::empty();
    let mut j: usize = 0;
    for entry in it: keyword.into_iter()
        invariant
            it.seq() == ks,
            j == it.index(),
            config.valid(),
            nv == vs.len(),
            vs.len() <= MAX_LIST_LEN,
            ks.len() <= MAX_LIST_LEN,
            vi == ids(vs),
            ki == ids(ks),
            vi.no_duplicates(),
            ki.no_duplicates(),
            vector_ids@ == vi,
            merged.len() == nv + taken.len(),
            taken.len() <= j,
            forall|a: int| 0 <= a < nv ==> (#[trigger] merged@[a]).content.id == vi[a],
            forall|t: int| 0 <= t < taken.len() ==> 0 <= #[trigger] taken[t] < j,
            forall|t: int| 0 <= t < taken.len() ==> merged@[nv + t].content.id == ki[#[trigger] taken[t]],
            forall|t: int| 0 <= t < taken.len() ==> !vi.contains(ki[#[trigger] taken[t]]),
            forall|t: int, u: int| 0 <= t < u < taken.len() ==> #[trigger] taken[t] < #[trigger] taken[u],
            forall|x: int| 0 <= x < j ==> vi.contains(#[trigger] ki[x]) || taken.contains(x),
            forall|a: int| 0 <= a < merged.len() ==> fused_as(*config, vs, ks, #[trigger] merged@[a]),
    {
        let id = entry.content.id;
        let in_vector = position(&vector_ids, id);
        proof {
            assert(entry == ks[j as int]);
            assert(ki[j as int] == id);
            lemma_rank_at(ki, j as int);
        }
        if in_vector.is_none() {
            let score = fuse_score(config, None, Some(j));
            let ghost old_taken = taken;
            let mut entry = entry;
            entry.relevance_score = score;
            merged.push(entry);
            proof {
                taken = old_taken.push(j as int);
                assert(taken[old_taken.len() as int] == j);
                assert forall|x: int| 0 <= x < j + 1 implies vi.contains(#[trigger] ki[x]) || taken.contains(x) by {
                    if x < j {
                        if !vi.contains(ki[x]) {
                            let t = choose|t: int| 0 <= t < old_taken.len() && old_taken[t] == x;
                            assert(taken[t] == x);
                        }
                    }
                }
            }
        }
        j += 1;
    }
    proof {
        let ms = ids(merged@);
        assert forall|id: u128| ms.contains(id) <==> vi.contains(id) || ki.contains(id) by {
            if ms.contains(id) {
                let a = choose|a: int| 0 <= a < ms.len() && ms[a] == id;
                if a < nv {
                    assert(merged@[a].content.id == vi[a]);
                } else {
                    let t = a - nv;
                    assert(merged@[nv + t].content.id == ki[taken[t]]);
                }
            }
            if vi.contains(id) {
                let a = choose|a: int| 0 <= a < vi.len() && vi[a] == id;
                assert(ms[a] == merged@[a].content.id);
            } else if ki.contains(id) {
                let x = choose|x: int| 0 <= x < ki.len() && ki[x] == id;
                assert(vi.contains(ki[x]) || taken.contains(x));
                let t = choose|t: int| 0 <= t < taken.len() && taken[t] == x;
                assert(merged@[nv + t].content.id == ki[taken[t]]);
                assert(ms[nv + t] == id);
            }
        }
        assert forall|a: int, b: int| 0 <= a < b < merged.len() implies seen_before(
            vi,
            ki,
            (#[trigger] merged@[a]).content.id,
            (#[trigger] merged@[b]).content.id,
        ) by {
            if a < nv {
                lemma_rank_at(vi, a);
            } else {
                assert(merged@[nv + (a - nv)].content.id == ki[taken[a - nv]]);
                lemma_rank_at(ki, taken[a - nv]);
            }
            if b < nv {
                lemma_rank_at(vi, b);
            } else {
                assert(merged@[nv + (b - nv)].content.id == ki[taken[b - nv]]);
                lemma_rank_at(ki, taken[b - nv]);
            }
        }
    }
    merged
}

/// Whether the entry at index `a` of `list` sorts before the one at `b`:
/// by higher score, and between equal scores by lower index.
pub open spec fn sorts_before(list: Seq<SearchResult>, a: int, b: int) -> bool {
    let sa = list[a].relevance_score@;
    let sb = list[b].relevance_score@;
    outranks(sa, sb) || (ties(sa, sb) && a < b)
}

/// `sorted` holds the entries of `list`, each once, ordered by score from
/// the highest down, entries of equal score in the order `list` had them.
/// `origin[p]` is the index in `list` of the entry at `p` of `sorted`.
pub open spec fn stably_sorted(list: Seq<SearchResult>, sorted: Seq<SearchResult>, origin: Seq<int>) -> bool {
    &&& sorted.len() == list.len()
    &&& origin.len() == list.len()
    &&& forall|p: int| 0 <= p < origin.len() ==> 0 <= #[trigger] origin[p] < list.len()
    &&& forall|p: int| 0 <= p < origin.len() ==> sorted[p] == list[#[trigger] origin[p]]
    &&& forall|p: int, q: int| 0 <= p < q < origin.len() ==> sorts_before(list, #[trigger] origin[p], #[trigger] origin[q])
    &&& forall|a: int| 0 <= a < list.len() ==> origin.contains(a)
}

/// Sorts by relevance, highest first, by stable insertion.
fn sort_by_score(list: Vec<SearchResult>) -> (out: (Vec<SearchResult>, Ghost<Seq<int>>))
    requires
        forall|i: int| 0 <= i < list.len() ==> (#[trigger] list@[i]).relevance_score.bounded(),
    ensures
        stably_sorted(list@, out.0@, out.1@),
{
    let ghost ls = list@;
    let ghost origin: Seq<int> = Seq::empty();
    let mut sorted: Vec<SearchResult> = Vec::new();
    let mut i: usize = 0;
    for entry in it: list.into_iter()
        invariant
            it.seq() == ls,
            i == it.index(),
            forall|x: int| 0 <= x < ls.len() ==> (#[trigger] ls[x]).relevance_score.bounded(),
            sorted.len() == i,
            origin.len() == i,
            forall|p: int| 0 <= p < sorted.len() ==> (#[trigger] sorted@[p]).relevance_score.bounded(),
            forall|p: int| 0 <= p < origin.len() ==> 0 <= #[trigger] origin[p] < i,
            forall|p: int| 0 <= p < origin.len() ==> sorted@[p] == ls[#[trigger] origin[p]],
            forall|p: int, q: int| 0 <= p < q < origin.len() ==> sorts_before(ls, #[trigger] origin[p], #[trigger] origin[q]),
            forall|a: int| 0 <= a < i ==> origin.contains(a),
    {
        assert(entry == ls[i as int]);
        let mut pos: usize = 0;
        while pos < sorted.len() && !entry.relevance_score.exceeds(&sorted[pos].relevance_score)
            invariant
                pos <= sorted.len(),
                sorted.len() == i,
                origin.len() == i,
                i < ls.len(),
                entry == ls[i as int],
                forall|p: int| 0 <= p < sorted.len() ==> (#[trigger] sorted@[p]).relevance_score.bounded(),
                forall|x: int| 0 <= x < ls.len() ==> (#[trigger] ls[x]).relevance_score.bounded(),
                forall|p: int| 0 <= p < origin.len() ==> 0 <= #[trigger] origin[p] < i,
                forall|p: int| 0 <= p < origin.len() ==> sorted@[p] == ls[#[trigger] origin[p]],
                forall|p: int| 0 <= p < pos ==> !outranks(entry.relevance_score@, ls[#[trigger] origin[p]].relevance_score@),
            decreases sorted.len() - pos,
        {
            proof {
                assert(sorted@[pos as int] == ls[origin[pos as int]]);
            }
            pos += 1;
        }
        let ghost old_origin = origin;
        proof {
            if pos < sorted.len() {
                assert(sorted@[pos as int] == ls[old_origin[pos as int]]);
            }
        }
        sorted.insert(pos, entry);
        assert(sorted.len() == i + 1);
        proof {
            origin = old_origin.insert(pos as int, i as int);
            let e = ls[i as int].relevance_score@;
            assert forall|p: int, q: int| 0 <= p < q < origin.len() implies sorts_before(
                ls,
                #[trigger] origin[p],
                #[trigger] origin[q],
            ) by {
                if q == pos {
                    assert(origin[p] == old_origin[p]);
                    assert(!outranks(e, ls[old_origin[p]].relevance_score@));
                } else if p == pos {
                    assert(origin[q] == old_origin[q - 1]);
                    let first = ls[old_origin[pos as int]].relevance_score@;
                    let other = ls[old_origin[q - 1]].relevance_score@;
                    assert(outranks(e, first));
                    if q - 1 > pos {
                        assert(sorts_before(ls, old_origin[pos as int], old_origin[q - 1]));
                        assert(ls[old_origin[pos as int]].relevance_score.bounded());
                        assert(ls[old_origin[q - 1]].relevance_score.bounded());
                        assert(ls[i as int].relevance_score.bounded());
                        lemma_outranks_chain(e, first, other);
                    }
                } else {
                    let from_p = if p < pos { p } else { p - 1 };
                    let from_q = if q < pos { q } else { q - 1 };
                    assert(origin[p] == old_origin[from_p]);
                    assert(origin[q] == old_origin[from_q]);
                    assert(sorts_before(ls, old_origin[from_p], old_origin[from_q]));
                }
            }
            assert forall|a: int| 0 <= a < i + 1 implies origin.contains(a) by {
                if a < i {
                    assert(old_origin.contains(a));
                    let p = choose|p: int| 0 <= p < old_origin.len() && old_origin[p] == a;
                    if p < pos {
                        assert(origin[p] == a);
                    } else {
                        assert(origin[p + 1] == a);
                    }
                } else {
                    assert(origin[pos as int] == a);
                }
            }
            assert forall|p: int| 0 <= p < origin.len() implies sorted@[p] == ls[#[trigger] origin[p]] by {
                if p < pos {
                    assert(origin[p] == old_origin[p]);
                } else if p > pos {
                    assert(origin[p] == old_origin[p - 1]);
                }
            }
            assert forall|p: int| 0 <= p < origin.len() implies 0 <= #[trigger] origin[p] < i + 1 by {
                if p < pos {
                    assert(origin[p] == old_origin[p]);
                } else if p > pos {
                    assert(origin[p] == old_origin[p - 1]);
                }
            }
        }
        i += 1;
    }
    (sorted, Ghost(origin))
}

/// What the fused list is, given both ranked lists: every identifier of
/// either list once, as its first-seen entry with its fused score, ordered
/// by `precedes`. Exactly one list meets this.
pub open spec fn is_fusion(config: SearchConfig, vector: Seq<SearchResult>, keyword: Seq<SearchResult>, fused: Seq<SearchResult>) -> bool {
    &&& forall|id: u128| ids(fused).contains(id) <==> ids(vector).contains(id) || ids(keyword).contains(id)
    &&& forall|i: int| 0 <= i < fused.len() ==> fused_as(config, vector, keyword, #[trigger] fused[i])
    &&& forall|i: int, j: int| 0 <= i < j < fused.len() ==> precedes(
        config,
        ids(vector),
        ids(keyword),
        (#[trigger] fused[i]).content.id,
        (#[trigger] fused[j]).content.id,
    )
}

/// Fuses two ranked lists by reciprocal rank.
pub fn fuse(config: &SearchConfig, vector: Vec<SearchResult>, keyword: Vec<SearchResult>) -> (fused: Vec<SearchResult>)
    requires
        config.valid(),
        vector.len() <= MAX_LIST_LEN,
        keyword.len() <= MAX_LIST_LEN,
        ids(vector@).no_duplicates(),
        ids(keyword@).no_duplicates(),
    ensures
        is_fusion(*config, vector@, keyword@, fused@),
        fused.len() <= vector.len() + keyword.len(),
{
    let ghost vs = vector@;
    let ghost ks = keyword@;
    let merged = merge_ranked(config, vector, keyword);
    let ghost ms = merged@;
    let (fused, Ghost(origin)) = sort_by_score(merged);
    proof {
        let fs = fused@;
        assert forall|id: u128| ids(fs).contains(id) <==> ids(vs).contains(id) || ids(ks).contains(id) by {
            if ids(fs).contains(id) {
                let p = choose|p: int| 0 <= p < fs.len() && ids(fs)[p] == id;
                assert(fs[p] == ms[origin[p]]);
                assert(ids(ms)[origin[p]] == id);
            }
            if ids(ms).contains(id) {
                let a = choose|a: int| 0 <= a < ms.len() && ids(ms)[a] == id;
                assert(origin.contains(a));
                let p = choose|p: int| 0 <= p < origin.len() && origin[p] == a;
                assert(fs[p] == ms[origin[p]]);
                assert(ids(fs)[p] == id);
            }
        }
        assert forall|i: int| 0 <= i < fs.len() implies fused_as(*config, vs, ks, #[trigger] fs[i]) by {
            assert(fs[i] == ms[origin[i]]);
        }
        assert forall|i: int, j: int| 0 <= i < j < fs.len() implies precedes(
            *config,
            ids(vs),
            ids(ks),
            (#[trigger] fs[i]).content.id,
            (#[trigger] fs[j]).content.id,
        ) by {
            let a = origin[i];
            let b = origin[j];
            assert(fs[i] == ms[a]);
            assert(fs[j] == ms[b]);
            assert(sorts_before(ms, a, b));
            assert(fused_as(*config, vs, ks, ms[a]));
            assert(fused_as(*config, vs, ks, ms[b]));
            if !outranks(ms[a].relevance_score@, ms[b].relevance_score@) {
                assert(a < b);
                assert(seen_before(ids(vs), ids(ks), ms[a].content.id, ms[b].content.id));
            }
        }
    }
    fused
}

/// Of two identifiers at most one stands before the other, and none stands
/// before itself.
pub proof fn lemma_precedes_asymmetric(config: SearchConfig, vector: Seq<u128>, keyword: Seq<u128>, a: u128, b: u128)
    ensures
        !(precedes(config, vector, keyword, a, b) && precedes(config, vector, keyword, b, a)),
        !precedes(config, vector, keyword, a, a),
{
}

/// Two lists of the same identifiers, each ordered by `precedes`, are the
/// same list.
pub proof fn lemma_order_unique(config: SearchConfig, vector: Seq<u128>, keyword: Seq<u128>, x: Seq<u128>, y: Seq<u128>)
    requires
        forall|i: int, j: int| 0 <= i < j < x.len() ==> precedes(config, vector, keyword, #[trigger] x[i], #[trigger] x[j]),
        forall|i: int, j: int| 0 <= i < j < y.len() ==> precedes(config, vector, keyword, #[trigger] y[i], #[trigger] y[j]),
        forall|id: u128| x.contains(id) <==> y.contains(id),
    ensures
        x == y,
    decreases x.len(),
{
    if x.len() == 0 {
        if y.len() > 0 {
            assert(y.contains(y[0]));
            assert(x.contains(y[0]));
        }
        assert(x =~= y);
    } else {
        assert(x.contains(x[0]));
        assert(y.contains(x[0]));
        assert(y.contains(y[0]));
        assert(x.contains(y[0]));
        if x[0] != y[0] {
            let i = choose|i: int| 0 <= i < x.len() && x[i] == y[0];
            let j = choose|j: int| 0 <= j < y.len() && y[j] == x[0];
            assert(precedes(config, vector, keyword, x[0], x[i]));
            assert(precedes(config, vector, keyword, y[0], y[j]));
            lemma_precedes_asymmetric(config, vector, keyword, x[0], y[0]);
        }
        let xs = x.drop_first();
        let ys = y.drop_first();
        assert forall|id: u128| xs.contains(id) <==> ys.contains(id) by {
            if xs.contains(id) {
                let i = choose|i: int| 0 <= i < xs.len() && xs[i] == id;
                assert(x[i + 1] == id);
                assert(precedes(config, vector, keyword, x[0], x[i + 1]));
                lemma_precedes_asymmetric(config, vector, keyword, x[0], x[0]);
                assert(y.contains(id));
                let j = choose|j: int| 0 <= j < y.len() && y[j] == id;
                assert(ys[j - 1] == id);
            }
            if ys.contains(id) {
                let j = choose|j: int| 0 <= j < ys.len() && ys[j] == id;
                assert(y[j + 1] == id);
                assert(precedes(config, vector, keyword, y[0], y[j + 1]));
                lemma_precedes_asymmetric(config, vector, keyword, y[0], y[0]);
                assert(x.contains(id));
                let i = choose|i: int| 0 <= i < x.len() && x[i] == id;
                assert(xs[i - 1] == id);
            }
        }
        assert forall|i: int, j: int| 0 <= i < j < xs.len() implies precedes(
            config,
            vector,
            keyword,
            #[trigger] xs[i],
            #[trigger] xs[j],
        ) by {
            assert(xs[i] == x[i + 1] && xs[j] == x[j + 1]);
        }
        assert forall|i: int, j: int| 0 <= i < j < ys.len() implies precedes(
            config,
            vector,
            keyword,
            #[trigger] ys[i],
            #[trigger] ys[j],
        ) by {
            assert(ys[i] == y[i + 1] && ys[j] == y[j + 1]);
        }
        lemma_order_unique(config, vector, keyword, xs, ys);
        assert(x =~= seq![x[0]] + xs);
        assert(y =~= seq![y[0]] + ys);
    }
}

/// Fusion is deterministic: the two ranked lists and the configuration
/// leave room for one fused list only. Whatever meets `is_fusion` for the
/// same inputs is the same list, entry by entry.
pub proof fn lemma_fusion_unique(
    config: SearchConfig,
    vector: Seq<SearchResult>,
    keyword: Seq<SearchResult>,
    first: Seq<SearchResult>,
    second: Seq<SearchResult>,
)
    requires
        is_fusion(config, vector, keyword, first),
        is_fusion(config, vector, keyword, second),
    ensures
        first == second,
{
    let x = ids(first);
    let y = ids(second);
    assert forall|i: int, j: int| 0 <= i < j < x.len() implies precedes(
        config,
        ids(vector),
        ids(keyword),
        #[trigger] x[i],
        #[trigger] x[j],
    ) by {
        assert(x[i] == first[i].content.id && x[j] == first[j].content.id);
    }
    assert forall|i: int, j: int| 0 <= i < j < y.len() implies precedes(
        config,
        ids(vector),
        ids(keyword),
        #[trigger] y[i],
        #[trigger] y[j],
    ) by {
        assert(y[i] == second[i].content.id && y[j] == second[j].content.id);
    }
    lemma_order_unique(config, ids(vector), ids(keyword), x, y);
    assert(first.len() == second.len());
    assert forall|i: int| 0 <= i < first.len() implies first[i] == second[i] by {
        assert(x[i] == first[i].content.id);
        assert(y[i] == second[i].content.id);
        assert(fused_as(config, vector, keyword, first[i]));
        assert(fused_as(config, vector, keyword, second[i]));
        assert(first[i].relevance_score.numerator == second[i].relevance_score.numerator);
        assert(first[i].relevance_score.denominator == second[i].relevance_score.denominator);
    }
    assert(first =~= second);
}

} // verus!
