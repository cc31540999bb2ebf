//! The per-column streaming aggregator: consumes one value at a time,
//! classifies it, widens the running type over the lattice, and accumulates
//! null, length, order, sample and cardinality statistics under fixed caps.

use vstd::prelude::*;

use crate::classify::{spec_byte_len, spec_classify, ClassifierView, TypeInferencer};
use crate::strutil::{contains_str, spec_str_lt, spec_trim, str_lt, trim};
use crate::strutil::lemma_trim_idempotent;
use crate::types::{spec_display_name, spec_promote, SqlType};

verus! {

/// Caps that bound per-column memory independent of row count.
pub const MAX_SAMPLE_VALUES: usize = 10;

/// Caps that bound per-column memory independent of row count.
pub const MAX_UNIQUE_VALUES: usize = 1000;

/// Threshold above which a bounded character column widens to unbounded at
/// finalize, the "large text" heuristic.
pub const LARGE_TEXT_THRESHOLD: usize = 4000;

/// One recorded widening: the prior type, the new type, and the trimmed
/// value that triggered it.
#[derive(Debug, Clone)]
pub struct PromotionEvent {
    pub from: SqlType,
    pub to: SqlType,
    pub value: String,
}

/// A promotion event as mathematical values.
#[verifier::ext_equal]
pub ghost struct PromotionRecord {
    pub from: SqlType,
    pub to: SqlType,
    pub value: Seq<char>,
}

impl PromotionEvent {
    /// The log line for this event, naming the prior type, the new type and
    /// the value that forced the widening.
    pub fn message(&self) -> (r: String)
        ensures
            r@ == "Promoted from "@ + spec_display_name(self.from) + " to "@ + spec_display_name(
                self.to,
            ) + " due to value: '"@ + self.value@ + "'"@,
    {
        let mut m = "Promoted from ".to_owned();
        m.append(self.from.display_name().as_str());
        m.append(" to ");
        m.append(self.to.display_name().as_str());
        m.append(" due to value: '");
        m.append(self.value.as_str());
        m.append("'");
        m
    }
}

impl View for PromotionEvent {
    type V = PromotionRecord;

    open spec fn view(&self) -> PromotionRecord {
        PromotionRecord { from: self.from, to: self.to, value: self.value@ }
    }
}

impl DeepView for PromotionEvent {
    type V = PromotionRecord;

    open spec fn deep_view(&self) -> PromotionRecord {
        self.view()
    }
}

/// The statistics a column aggregator accumulates and hands out at
/// finalize: name, running type, counts, observed length, byte-wise
/// minimum and maximum value, a capped sample list and the promotion log.
#[derive(Debug, Clone)]
pub struct ColumnStats {
    pub name: String,
    pub sql_type: SqlType,
    pub null_count: usize,
    pub total_count: usize,
    pub max_length: usize,
    pub min_value: Option<String>,
    pub max_value: Option<String>,
    pub sample_values: Vec<String>,
    pub type_promotions: Vec<PromotionEvent>,
}

impl ColumnStats {
    /// Fresh statistics for a named column: the most restrictive type,
    /// zero counts, and empty value records.
    pub fn new(name: String) -> (r: Self)
        ensures
            r.name == name,
            r.sql_type == SqlType::Boolean,
            r.null_count == 0,
            r.total_count == 0,
            r.max_length == 0,
            r.min_value is None,
            r.max_value is None,
            r.sample_values@.len() == 0,
            r.type_promotions@.len() == 0,
    {
        ColumnStats {
            name,
            sql_type: SqlType::Boolean,
            null_count: 0,
            total_count: 0,
            max_length: 0,
            min_value: None,
            max_value: None,
            sample_values: Vec::new(),
            type_promotions: Vec::new(),
        }
    }

    /// Whether any null was seen, which decides `NOT NULL` in emitted DDL.
    pub fn is_nullable(&self) -> (r: bool)
        ensures
            r == (self.null_count > 0),
    {
        self.null_count > 0
    }

    /// The share of nulls among all values, in hundredths of a percent;
    /// zero when no value was seen.
    pub fn null_percentage_hundredths(&self) -> (r: usize)
        requires
            self.null_count <= self.total_count,
        ensures
            self.total_count == 0 ==> r == 0,
            self.total_count > 0 ==> r as int == (self.null_count as int) * 10000 / (
            self.total_count as int),
    {
        if self.total_count == 0 {
            0
        } else {
            let n = self.null_count as u128;
            let t = self.total_count as u128;
            proof {
                let ni = n as int;
                let ti = t as int;
                assert(ni * 10000 <= ti * 10000) by (nonlinear_arith)
                    requires
                        0 <= ni <= ti,
                ;
                assert(ti * 10000 / ti == 10000) by (nonlinear_arith)
                    requires
                        ti > 0,
                ;
                assert(ni * 10000 / ti <= ti * 10000 / ti) by (nonlinear_arith)
                    requires
                        ni * 10000 <= ti * 10000,
                        ti > 0,
                ;
                assert(ni * 10000 / ti >= 0) by (nonlinear_arith)
                    requires
                        ni >= 0,
                        ti > 0,
                ;
            }
            (n * 10000 / t) as usize
        }
    }
}

/// The whole state of one column aggregator as mathematical values.
#[verifier::ext_equal]
pub ghost struct ColumnState {
    pub name: Seq<char>,
    pub sql_type: SqlType,
    pub null_count: int,
    pub total_count: int,
    pub max_length: int,
    pub min_value: Option<Seq<char>>,
    pub max_value: Option<Seq<char>>,
    pub samples: Seq<Seq<char>>,
    pub promotions: Seq<PromotionRecord>,
    pub classifier: ClassifierView,
    pub null_tokens: Seq<Seq<char>>,
    pub uniques: Seq<Seq<char>>,
    pub first_type: Option<SqlType>,
}

/// Internal consistency of an aggregator state: counts ordered, caps
/// respected, tracked value lists duplicate-free, and the running order
/// extrema either both absent or both present.
pub open spec fn spec_column_wf(s: ColumnState) -> bool {
    &&& 0 <= s.null_count <= s.total_count
    &&& 0 <= s.max_length
    &&& s.samples.len() <= MAX_SAMPLE_VALUES
    &&& s.uniques.len() <= MAX_UNIQUE_VALUES
    &&& (forall|i: int, j: int| 0 <= i < j < s.samples.len() ==> s.samples[i] != s.samples[j])
    &&& (forall|i: int, j: int| 0 <= i < j < s.uniques.len() ==> s.uniques[i] != s.uniques[j])
    &&& (s.min_value is Some <==> s.max_value is Some)
}

/// The fresh state of a column aggregator bound to a name, a classifier and
/// a null sentinel set that always holds the empty string, `NULL` and
/// `null`.
pub open spec fn spec_column_new(
    name: Seq<char>,
    classifier: ClassifierView,
    extra_nulls: Seq<Seq<char>>,
) -> ColumnState {
    ColumnState {
        name: name,
        sql_type: SqlType::Boolean,
        null_count: 0,
        total_count: 0,
        max_length: 0,
        min_value: None,
        max_value: None,
        samples: Seq::empty(),
        promotions: Seq::empty(),
        classifier: classifier,
        null_tokens: seq![""@, "NULL"@, "null"@] + extra_nulls,
        uniques: Seq::empty(),
        first_type: None,
    }
}

/// The type transition for one classified leaf: the first non-null value
/// fixes the type without an event; later, an unequal leaf widens the type
/// over the lattice, and a real change appends one promotion event naming
/// the triggering trimmed value.
pub open spec fn spec_apply_type(s: ColumnState, leaf: SqlType, t: Seq<char>) -> ColumnState {
    match s.first_type {
        None => ColumnState { first_type: Some(leaf), sql_type: leaf, ..s },
        Some(_) => {
            if s.sql_type != leaf {
                let p = spec_promote(s.sql_type, leaf);
                if p != s.sql_type {
                    ColumnState {
                        sql_type: p,
                        promotions: s.promotions.push(
                            PromotionRecord { from: s.sql_type, to: p, value: t },
                        ),
                        ..s
                    }
                } else {
                    s
                }
            } else {
                s
            }
        },
    }
}

/// The aggregator's transition for one raw value. The value is trimmed; a
/// null sentinel only counts, touching nothing else; a non-null value feeds
/// every statistic and then the type transition.
pub open spec fn spec_column_step(s: ColumnState, raw: Seq<char>) -> ColumnState {
    let t = spec_trim(raw);
    let s1 = ColumnState { total_count: s.total_count + 1, ..s };
    if s.null_tokens.contains(t) {
        ColumnState { null_count: s.null_count + 1, ..s1 }
    } else {
        let s2 = ColumnState {
            uniques: if s.uniques.len() < MAX_UNIQUE_VALUES && !s.uniques.contains(t) {
                s.uniques.push(t)
            } else {
                s.uniques
            },
            max_length: if spec_byte_len(t) as usize > s.max_length {
                spec_byte_len(t) as usize as int
            } else {
                s.max_length
            },
            min_value: match s.min_value {
                None => Some(t),
                Some(m) => if spec_str_lt(t, m) {
                    Some(t)
                } else {
                    Some(m)
                },
            },
            max_value: match s.max_value {
                None => Some(t),
                Some(m) => if spec_str_lt(m, t) {
                    Some(t)
                } else {
                    Some(m)
                },
            },
            samples: if s.samples.len() < MAX_SAMPLE_VALUES && !s.samples.contains(t) {
                s.samples.push(t)
            } else {
                s.samples
            },
            ..s1
        };
        spec_apply_type(s2, spec_classify(s.classifier, t), t)
    }
}

/// The finalize adjustment of the running type: bounded character data over
/// the large-text threshold widens to unbounded, and a zero bound is raised
/// to one so a column of only zero-length values stays representable.
pub open spec fn spec_finalize_type(t: SqlType) -> SqlType {
    match t {
        SqlType::Varchar(Some(n)) => if n > LARGE_TEXT_THRESHOLD {
            SqlType::Varchar(None)
        } else if n == 0 {
            SqlType::Varchar(Some(1usize))
        } else {
            t
        },
        _ => t,
    }
}

/// Agreement between exported statistics and an aggregator state.
pub open spec fn spec_stats_match(st: ColumnStats, s: ColumnState) -> bool {
    &&& st.name@ == s.name
    &&& st.sql_type == s.sql_type
    &&& st.null_count as int == s.null_count
    &&& st.total_count as int == s.total_count
    &&& st.max_length as int == s.max_length
    &&& (match (st.min_value, s.min_value) {
        (None, None) => true,
        (Some(a), Some(b)) => a@ == b,
        _ => false,
    })
    &&& (match (st.max_value, s.max_value) {
        (None, None) => true,
        (Some(a), Some(b)) => a@ == b,
        _ => false,
    })
    &&& st.sample_values.deep_view() == s.samples
    &&& st.type_promotions.deep_view() == s.promotions
}

/// One column's streaming aggregator: owns its statistics, its classifier
/// and its null sentinel set, and consumes values one at a time.
#[derive(Debug)]
pub struct ColumnAnalyzer {
    stats: ColumnStats,
    inferencer: TypeInferencer,
    null_values: Vec<String>,
    unique_values: Vec<String>,
    first_non_null_type: Option<SqlType>,
}

impl View for ColumnAnalyzer {
    type V = ColumnState;

    closed spec fn view(&self) -> ColumnState {
        ColumnState {
            name: self.stats.name@,
            sql_type: self.stats.sql_type,
            null_count: self.stats.null_count as int,
            total_count: self.stats.total_count as int,
            max_length: self.stats.max_length as int,
            min_value: match self.stats.min_value {
                None => None,
                Some(m) => Some(m@),
            },
            max_value: match self.stats.max_value {
                None => None,
                Some(m) => Some(m@),
            },
            samples: self.stats.sample_values.deep_view(),
            promotions: self.stats.type_promotions.deep_view(),
            classifier: self.inferencer@,
            null_tokens: self.null_values.deep_view(),
            uniques: self.unique_values.deep_view(),
            first_type: self.first_non_null_type,
        }
    }
}

impl ColumnAnalyzer {
    /// A fresh aggregator for a named column. The null sentinel set always
    /// holds the empty string, `NULL` and `null`, plus the caller's
    /// additions.
    pub fn new(name: String, inferencer: TypeInferencer, null_values: Vec<String>) -> (r: Self)
        ensures
            r@ == spec_column_new(name@, inferencer@, null_values.deep_view()),
            spec_column_wf(r@),
    {
        let mut null_set: Vec<String> = Vec::new();
        null_set.push("".to_owned());
        null_set.push("NULL".to_owned());
        null_set.push("null".to_owned());
        let n = null_values.len();
        let mut i: usize = 0;
        while i < n
            invariant
                n == null_values@.len(),
                i <= n,
                null_set@.len() == 3 + i,
                null_set.deep_view()[0] == ""@,
                null_set.deep_view()[1] == "NULL"@,
                null_set.deep_view()[2] == "null"@,
                forall|j: int|
                    0 <= j < i ==> null_set.deep_view()[3 + j] == null_values.deep_view()[j],
            decreases n - i,
        {
            null_set.push(null_values[i].clone());
            i = i + 1;
        }
        let r = ColumnAnalyzer {
            stats: ColumnStats::new(name),
            inferencer,
            null_values: null_set,
            unique_values: Vec::new(),
            first_non_null_type: None,
        };
        proof {
            assert(r.null_values.deep_view() =~= seq![""@, "NULL"@, "null"@]
                + null_values.deep_view());
            assert(r@ =~= spec_column_new(name@, r.inferencer@, null_values.deep_view()));
        }
        r
    }

    /// Whether the (already trimmed) value is one of the null sentinels.
    fn is_null_value(&self, value: &str) -> (r: bool)
        ensures
            r == self@.null_tokens.contains(value@),
    {
        contains_str(&self.null_values, value)
    }

    fn update_min_max(&mut self, value: &str)
        requires
            old(self)@.min_value is Some <==> old(self)@.max_value is Some,
        ensures
            final(self)@ == (ColumnState {
                min_value: match old(self)@.min_value {
                    None => Some(value@),
                    Some(m) => if spec_str_lt(value@, m) {
                        Some(value@)
                    } else {
                        Some(m)
                    },
                },
                max_value: match old(self)@.max_value {
                    None => Some(value@),
                    Some(m) => if spec_str_lt(m, value@) {
                        Some(value@)
                    } else {
                        Some(m)
                    },
                },
                ..old(self)@
            }),
    {
        if self.stats.min_value.is_none() {
            self.stats.min_value = Some(value.to_owned());
            self.stats.max_value = Some(value.to_owned());
        } else {
            let below_min = match &self.stats.min_value {
                Some(m) => str_lt(value, m.as_str()),
                None => false,
            };
            if below_min {
                self.stats.min_value = Some(value.to_owned());
            }
            let above_max = match &self.stats.max_value {
                Some(m) => str_lt(m.as_str(), value),
                None => false,
            };
            if above_max {
                self.stats.max_value = Some(value.to_owned());
            }
        }
    }

    fn update_type(&mut self, new_type: SqlType, value: &str)
        ensures
            final(self)@ == spec_apply_type(old(self)@, new_type, value@),
    {
        if self.first_non_null_type.is_none() {
            self.first_non_null_type = Some(new_type);
            self.stats.sql_type = new_type;
            return;
        }
        if self.stats.sql_type != new_type {
            let promoted = self.stats.sql_type.promote(&new_type);
            if promoted != self.stats.sql_type {
                let event = PromotionEvent {
                    from: self.stats.sql_type,
                    to: promoted,
                    value: value.to_owned(),
                };
                self.stats.type_promotions.push(event);
                self.stats.sql_type = promoted;
            }
        }
    }

    /// Consumes one raw value: trims it, counts a null sentinel and stops,
    /// or feeds every statistic and the type transition.
    pub fn analyze_value(&mut self, value: &str)
        requires
            spec_column_wf(old(self)@),
            old(self)@.total_count < usize::MAX as int,
        ensures
            final(self)@ == spec_column_step(old(self)@, value@),
            spec_column_wf(final(self)@),
    {
        self.stats.total_count = self.stats.total_count + 1;
        let trimmed = trim(value);
        if self.is_null_value(trimmed) {
            self.stats.null_count = self.stats.null_count + 1;
            return;
        }
        if self.unique_values.len() < MAX_UNIQUE_VALUES {
            if !contains_str(&self.unique_values, trimmed) {
                self.unique_values.push(trimmed.to_owned());
                proof {
                    assert(self.unique_values.deep_view() =~= old(self)@.uniques.push(trimmed@));
                }
            }
        }
        let len = trimmed.len();
        if len > self.stats.max_length {
            self.stats.max_length = len;
        }
        self.update_min_max(trimmed);
        if self.stats.sample_values.len() < MAX_SAMPLE_VALUES {
            if !contains_str(&self.stats.sample_values, trimmed) {
                self.stats.sample_values.push(trimmed.to_owned());
                proof {
                    assert(self.stats.sample_values.deep_view() =~= old(self)@.samples.push(
                        trimmed@,
                    ));
                }
            }
        }
        let inferred = self.inferencer.infer_type(trimmed);
        proof {
            lemma_trim_idempotent(value@);
        }
        let ghost mid = self@;
        self.update_type(inferred, trimmed);
        proof {
            let s = old(self)@;
            let t = spec_trim(value@);
            assert(self@ == spec_apply_type(mid, inferred, t));
            assert(self@ =~= spec_column_step(s, value@));
        }
    }

    /// The final type adjustment, run exactly once at stream end: the
    /// large-text widening and the zero-bound floor.
    pub fn finalize(&mut self)
        ensures
            final(self)@ == (ColumnState {
                sql_type: spec_finalize_type(old(self)@.sql_type),
                ..old(self)@
            }),
    {
        let adjusted = match self.stats.sql_type {
            SqlType::Varchar(Some(size)) => {
                if size > LARGE_TEXT_THRESHOLD {
                    SqlType::Varchar(None)
                } else if size == 0 {
                    SqlType::Varchar(Some(1))
                } else {
                    SqlType::Varchar(Some(size))
                }
            },
            other => other,
        };
        self.stats.sql_type = adjusted;
    }

    /// The accumulated statistics, read without finishing the pass.
    pub fn get_stats(&self) -> (r: &ColumnStats)
        ensures
            spec_stats_match(*r, self@),
    {
        &self.stats
    }

    /// Hands the statistics out, consuming the aggregator.
    pub fn into_stats(self) -> (r: ColumnStats)
        ensures
            spec_stats_match(r, self@),
    {
        self.stats
    }

    /// How many distinct non-null values were tracked; exact up to the cap,
    /// frozen there once the cap is reached.
    pub fn unique_value_count(&self) -> (r: usize)
        ensures
            r as int == self@.uniques.len(),
    {
        self.unique_values.len()
    }

    /// The categorical heuristic: a low distinct-to-non-null ratio over more
    /// than ten non-null values, or fewer than twenty distinct values seen.
    pub fn is_likely_categorical(&self) -> (r: bool)
        requires
            spec_column_wf(self@),
        ensures
            r == spec_is_likely_categorical(self@),
    {
        let non_null_count = self.stats.total_count - self.stats.null_count;
        let unique_count = self.unique_values.len();
        ((unique_count as u64) * 10 < (non_null_count as u64) && non_null_count > 10)
            || unique_count < 20
    }
}

/// The categorical heuristic over an aggregator state: a distinct-count
/// below a tenth of the non-null count over more than ten non-null values,
/// or a distinct count under twenty, reads as categorical. The comparison
/// `10 * distinct < non-null` is the exact integer form of a cardinality
/// ratio below one tenth; with no non-null values the ratio counts as zero,
/// and the column still reads as categorical through its distinct count of
/// zero.
pub open spec fn spec_is_likely_categorical(s: ColumnState) -> bool {
    let non_null = s.total_count - s.null_count;
    (s.uniques.len() * 10 < non_null && non_null > 10) || s.uniques.len() < 20
}

} // verus!
