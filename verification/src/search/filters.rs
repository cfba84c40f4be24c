//! Constraints a query places on the catalogue, and the estimate of how much
//! of the catalogue they keep.
//!
//! Fractions are carried as whole millionths: `1_000_000` stands for 1.0.

use crate::text::{
    format_millionths, format_signed, join_strings, joined, millionths_decimal, signed_decimal,
    string_of, views,
};
use vstd::prelude::*;
use vstd::string::StringExecFns;

verus! {

/// One whole, in millionths.
pub const MILLION: i64 = 1_000_000;

/// The estimate below which filters are better applied before retrieval: 0.1.
pub const PRE_FILTER_THRESHOLD: i64 = 100_000;

/// The highest rating, in millionths: 10.0.
pub const MAX_RATING: i64 = 10_000_000;

/// Filters supplied with a search. A list that is empty and a range that is
/// `None` constrain nothing.
#[derive(Debug, Clone)]
pub struct SearchFilters {
    /// Genres, any of which may match.
    pub genres: Vec<String>,
    /// Platforms the content must be available on.
    pub platforms: Vec<String>,
    /// Inclusive release-year range `(min, max)`.
    pub year_range: Option<(i32, i32)>,
    /// Inclusive rating range `(min, max)`, in millionths.
    pub rating_range: Option<(i64, i64)>,
}

impl Default for SearchFilters {
    fn default() -> (filters: Self)
        ensures
            filters.genres@.len() == 0,
            filters.platforms@.len() == 0,
            filters.year_range is None,
            filters.rating_range is None,
    {
        SearchFilters {
            genres: Vec::new(),
            platforms: Vec::new(),
            year_range: None,
            rating_range: None,
        }
    }
}

impl SearchFilters {
    /// Every range runs from its minimum up to its maximum, and ratings lie
    /// between 0 and 10.
    pub open spec fn well_formed(&self) -> bool {
        &&& self.year_range matches Some(years) ==> years.0 <= years.1
        &&& self.rating_range matches Some(ratings) ==> 0 <= ratings.0 <= ratings.1 <= MAX_RATING
    }

    /// No field constrains anything.
    pub open spec fn spec_is_empty(&self) -> bool {
        &&& self.genres@.len() == 0
        &&& self.platforms@.len() == 0
        &&& self.year_range is None
        &&& self.rating_range is None
    }

    /// The share of a hundred-year catalogue that the year range keeps, in
    /// hundredths: the span in years, capped at 100; 100 without a range.
    pub open spec fn year_share(&self) -> int {
        match self.year_range {
            Some(years) => if years.1 - years.0 < 100 {
                years.1 - years.0
            } else {
                100
            },
            None => 100,
        }
    }

    /// The estimated share of the catalogue that passes, in millionths:
    /// 3/10 for a genre filter, times 4/10 for a platform filter, times the
    /// year share, times 1/2 for a rating filter.
    pub open spec fn selectivity(&self) -> int {
        (if self.genres@.len() > 0 { 3int } else { 10int })
            * (if self.platforms@.len() > 0 { 4int } else { 10int })
            * self.year_share()
            * (if self.rating_range is Some { 5int } else { 10int })
            * 10
    }

    /// Checks `well_formed`.
    pub fn is_well_formed(&self) -> (ok: bool)
        ensures
            ok == self.well_formed(),
    {
        let years_ok = match self.year_range {
            Some((min, max)) => min <= max,
            None => true,
        };
        let ratings_ok = match self.rating_range {
            Some((min, max)) => 0 <= min && min <= max && max <= MAX_RATING,
            None => true,
        };
        years_ok && ratings_ok
    }

    /// True when no filter is active.
    pub fn is_empty(&self) -> (empty: bool)
        ensures
            empty == self.spec_is_empty(),
    {
        self.genres.len() == 0 && self.platforms.len() == 0 && self.year_range.is_none()
            && self.rating_range.is_none()
    }

    /// Estimates the share of the catalogue that passes the filters, in
    /// millionths. Active filters compound by multiplication.
    pub fn estimate_selectivity(&self) -> (estimate: i64)
        ensures
            estimate == self.selectivity(),
            self.spec_is_empty() ==> estimate == MILLION,
            self.well_formed() ==> 0 <= estimate <= MILLION,
    {
        let genre: i64 = if self.genres.len() > 0 { 3 } else { 10 };
        let platform: i64 = if self.platforms.len() > 0 { 4 } else { 10 };
        let years: i64 = match self.year_range {
            Some((min, max)) => {
                let span: i64 = max as i64 - min as i64;
                if span < 100 { span } else { 100 }
            },
            None => 100,
        };
        let rating: i64 = if self.rating_range.is_some() { 5 } else { 10 };
        let head: i64 = genre * platform;
        assert(-0x1_0000_0000 <= years <= 100);
        assert(9 <= head <= 100);
        assert(-0x64_0000_0000 <= head * years <= 10_000) by (nonlinear_arith)
            requires
                9 <= head <= 100,
                -0x1_0000_0000 <= years <= 100,
        ;
        let body: i64 = head * years;
        assert(-0x3e8_0000_0000 <= body * rating <= 100_000) by (nonlinear_arith)
            requires
                -0x64_0000_0000 <= body <= 10_000,
                5 <= rating <= 10,
        ;
        let scaled: i64 = body * rating;
        let estimate: i64 = scaled * 10;
        proof {
            assert(self.well_formed() ==> years >= 0);
            assert(years >= 0 ==> head * years >= 0) by (nonlinear_arith)
                requires
                    head >= 9,
            ;
            assert(body >= 0 ==> body * rating >= 0) by (nonlinear_arith)
                requires
                    rating >= 5,
            ;
        }
        estimate
    }

    /// Whether the filters are selective enough to apply before retrieval:
    /// the estimate is under 0.1. Advisory only.
    pub fn should_pre_filter(&self) -> (pre: bool)
        ensures
            pre == (self.selectivity() < PRE_FILTER_THRESHOLD),
    {
        self.estimate_selectivity() < PRE_FILTER_THRESHOLD
    }
}

/// The items of a list, each between single quotes, separated by `, `.
pub open spec fn quoted_list(items: Seq<Seq<char>>) -> Seq<char>
    decreases items.len(),
{
    if items.len() == 0 {
        Seq::empty()
    } else if items.len() == 1 {
        "'"@ + items[0] + "'"@
    } else {
        quoted_list(items.drop_last()) + ", "@ + ("'"@ + items.last() + "'"@)
    }
}

/// The condition that a text-array column shares an item with a list.
pub open spec fn overlap_condition(column: Seq<char>, items: Seq<Seq<char>>) -> Seq<char> {
    column + " && ARRAY["@ + quoted_list(items) + "]::text[]"@
}

/// The condition that a column lies between two bounds, both included.
pub open spec fn between_condition(column: Seq<char>, low: Seq<char>, high: Seq<char>) -> Seq<char> {
    column + " BETWEEN "@ + low + " AND "@ + high
}

/// The `WHERE` clause of a list of conditions: all of them joined by
/// `AND`, or `1=1` where there is none.
pub open spec fn where_clause(conditions: Seq<Seq<char>>) -> Seq<char> {
    if conditions.len() == 0 {
        "1=1"@
    } else {
        joined(conditions, " AND "@)
    }
}

/// Writes `quoted_list`.
pub fn quote_list(items: &Vec<String>) -> (out: String)
    ensures
        out@ == quoted_list(views(items@)),
{
    let mut out = String::new();
    let ghost all = views(items@);
    let mut i: usize = 0;
    while i < items.len()
        invariant
            i <= items.len(),
            all == views(items@),
            out@ == quoted_list(all.take(i as int)),
        decreases items.len() - i,
    {
        let ghost before = out@;
        proof {
            assert(all.take(i + 1).drop_last() =~= all.take(i as int));
            assert(all.take(i + 1).last() == items@[i as int]@);
            if i == 0 {
                assert(all.take(1)[0] == items@[0]@);
            }
        }
        if i > 0 {
            out.append(", ");
        }
        out.append("'");
        out.append(items[i].as_str());
        out.append("'");
        proof {
            let item = items@[i as int]@;
            if i == 0 {
                assert(before + "'"@ + item + "'"@ =~= "'"@ + item + "'"@);
            } else {
                assert(before + ", "@ + "'"@ + item + "'"@ =~= before + ", "@ + ("'"@ + item + "'"@));
            }
        }
        i += 1;
    }
    proof {
        assert(all.take(items.len() as int) =~= all);
    }
    out
}

impl SearchFilters {
    /// The conditions of the active filters: genres, platforms, years,
    /// ratings, in this order.
    pub open spec fn conditions(&self) -> Seq<Seq<char>> {
        (if self.genres@.len() > 0 {
            seq![overlap_condition("genres"@, views(self.genres@))]
        } else {
            Seq::empty()
        }) + (if self.platforms@.len() > 0 {
            seq![overlap_condition("platforms"@, views(self.platforms@))]
        } else {
            Seq::empty()
        }) + (match self.year_range {
            Some(years) => seq![
                between_condition(
                    "release_year"@,
                    signed_decimal(years.0 as int),
                    signed_decimal(years.1 as int),
                ),
            ],
            None => Seq::empty(),
        }) + (match self.rating_range {
            Some(ratings) => seq![
                between_condition(
                    "average_rating"@,
                    millionths_decimal(ratings.0 as int),
                    millionths_decimal(ratings.1 as int),
                ),
            ],
            None => Seq::empty(),
        })
    }

    /// The SQL `WHERE` clause of the filters and its parameters. Items are
    /// written into the clause as they are; there are no parameters.
    pub fn to_sql_where_clause(&self) -> (sql: (String, Vec<String>))
        ensures
            sql.0@ == where_clause(self.conditions()),
            sql.1@.len() == 0,
    {
        let mut conditions: Vec<String> = Vec::new();
        let params: Vec<String> = Vec::new();
        proof {
            assert(views(conditions@) =~= Seq::<Seq<char>>::empty());
        }
        if self.genres.len() > 0 {
            let ghost before = views(conditions@);
            let mut condition = String::from_str("genres");
            condition.append(" && ARRAY[");
            condition.append(quote_list(&self.genres).as_str());
            condition.append("]::text[]");
            let ghost text = condition@;
            conditions.push(condition);
            proof {
                assert(views(conditions@) =~= before + seq![text]);
            }
        }
        let ghost after_genres = views(conditions@);
        if self.platforms.len() > 0 {
            let mut condition = String::from_str("platforms");
            condition.append(" && ARRAY[");
            condition.append(quote_list(&self.platforms).as_str());
            condition.append("]::text[]");
            let ghost text = condition@;
            conditions.push(condition);
            proof {
                assert(views(conditions@) =~= after_genres + seq![text]);
            }
        } else {
            proof {
                assert(after_genres + Seq::<Seq<char>>::empty() =~= after_genres);
            }
        }
        let ghost after_platforms = views(conditions@);
        match self.year_range {
            Some((min_year, max_year)) => {
                let mut condition = String::from_str("release_year");
                condition.append(" BETWEEN ");
                condition.append(string_of(&format_signed(min_year as i64)).as_str());
                condition.append(" AND ");
                condition.append(string_of(&format_signed(max_year as i64)).as_str());
                let ghost text = condition@;
                conditions.push(condition);
                proof {
                    assert(views(conditions@) =~= after_platforms + seq![text]);
                }
            },
            None => {
                proof {
                    assert(after_platforms + Seq::<Seq<char>>::empty() =~= after_platforms);
                }
            },
        }
        let ghost after_years = views(conditions@);
        match self.rating_range {
            Some((min_rating, max_rating)) => {
                let mut condition = String::from_str("average_rating");
                condition.append(" BETWEEN ");
                condition.append(string_of(&format_millionths(min_rating)).as_str());
                condition.append(" AND ");
                condition.append(string_of(&format_millionths(max_rating)).as_str());
                let ghost text = condition@;
                conditions.push(condition);
                proof {
                    assert(views(conditions@) =~= after_years + seq![text]);
                }
            },
            None => {
                proof {
                    assert(after_years + Seq::<Seq<char>>::empty() =~= after_years);
                }
            },
        }
        proof {
            assert(views(conditions@) == self.conditions());
        }
        let clause = if conditions.len() == 0 {
            String::from_str("1=1")
        } else {
            join_strings(&conditions, " AND ")
        };
        (clause, params)
    }
}

} // verus!
