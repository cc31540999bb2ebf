//! The inference engine: fixes the column layout from a header row, drives
//! each data row through the per-column aggregators, enforces the
//! field-count policy under an error budget, and assembles the final
//! statistics in header order.
//!
//! Field-count policy: strict fail-fast. A row whose field count differs
//! from the header's is never distributed to any aggregator; it increments
//! the error counter, and once that counter reaches the configured maximum
//! the whole analysis aborts. On abort no statistics are produced
//! (all-or-nothing).

use vstd::prelude::*;
use vstd::pervasive::VecAdditionalExecFns;

use crate::classify::{
    spec_default_false_tokens, spec_default_true_tokens, ClassifierView, TypeInferencer,
};
use crate::column::{
    spec_column_new, spec_column_step, spec_column_wf, spec_finalize_type, spec_stats_match,
    ColumnAnalyzer, ColumnState, ColumnStats,
};
use crate::strutil::{clone_strings, spec_substitute_newlines, substitute_newlines, usize_to_string};
use crate::strutil::spec_nat_digits;

verus! {

/// Everything an analysis run is configured with: tokenizer characters,
/// null sentinels, optional format strings, the error budget and the
/// newline replacement.
#[derive(Debug)]
pub struct AnalysisConfig {
    pub delimiter: u8,
    pub quote: Option<u8>,
    pub null_values: Vec<String>,
    pub date_format: Option<String>,
    pub time_format: Option<String>,
    pub datetime_format: Option<String>,
    pub max_errors: usize,
    pub sub_newline: String,
}

impl Default for AnalysisConfig {
    /// Comma-separated, double-quoted input, the empty string and `NULL` as
    /// sentinels, ISO formats, a budget of one hundred errors, and a space
    /// for embedded newlines.
    fn default() -> (r: Self)
        ensures
            r.delimiter == 44u8,
            r.quote == Some(34u8),
            r.null_values.deep_view() =~= seq![""@, "NULL"@],
            r.date_format is None,
            r.time_format is None,
            r.datetime_format is None,
            r.max_errors == 100,
            r.sub_newline@ == " "@,
    {
        let mut null_values: Vec<String> = Vec::new();
        null_values.push("".to_owned());
        null_values.push("NULL".to_owned());
        AnalysisConfig {
            delimiter: 44,
            quote: Some(34),
            null_values,
            date_format: None,
            time_format: None,
            datetime_format: None,
            max_errors: 100,
            sub_newline: " ".to_owned(),
        }
    }
}

/// Why an analysis aborted: the structural-error count reached the
/// configured maximum.
#[derive(Debug, Clone, Copy, PartialEq, Eq, Structural)]
pub enum AnalysisError {
    TooManyErrors { error_count: usize, max_errors: usize },
}

impl AnalysisError {
    /// The failure text naming the error count.
    pub fn message(&self) -> (r: String)
        ensures
            (match *self {
                AnalysisError::TooManyErrors { error_count, .. } => r@ == "Parsing failed with "@
                    + spec_nat_digits(error_count as int) + " error(s)"@,
            }),
    {
        match self {
            AnalysisError::TooManyErrors { error_count, .. } => {
                let mut m = "Parsing failed with ".to_owned();
                m.append(usize_to_string(*error_count).as_str());
                m.append(" error(s)");
                m
            },
        }
    }
}

/// What one finished or running analysis looks like from outside: row and
/// error counts and the column layout.
#[derive(Debug)]
pub struct InferenceSummary {
    pub total_rows: usize,
    pub total_columns: usize,
    pub error_count: usize,
    pub headers: Vec<String>,
}

/// The engine's whole state as mathematical values.
#[verifier::ext_equal]
pub ghost struct EngineState {
    pub columns: Seq<ColumnState>,
    pub headers: Seq<Seq<char>>,
    pub row_count: int,
    pub error_count: int,
    pub max_errors: int,
    pub classifier: ClassifierView,
    pub extra_nulls: Seq<Seq<char>>,
    pub sub_newline: Seq<char>,
}

/// Internal consistency of an engine state: one aggregator per header, each
/// aggregator well formed and fed at most once per row, and the error count
/// within the row count.
pub open spec fn spec_engine_wf(e: EngineState) -> bool {
    &&& e.columns.len() == e.headers.len()
    &&& (forall|i: int| 0 <= i < e.columns.len() ==> spec_column_wf(#[trigger] e.columns[i]))
    &&& (forall|i: int|
        0 <= i < e.columns.len() ==> (#[trigger] e.columns[i]).total_count <= e.row_count)
    &&& 0 <= e.error_count <= e.row_count
}

/// The engine state after the header row is read: one fresh aggregator per
/// header name, in order.
pub open spec fn spec_with_headers(e: EngineState, h: Seq<Seq<char>>) -> EngineState {
    EngineState {
        headers: h,
        columns: Seq::new(h.len(), |i: int| spec_column_new(h[i], e.classifier, e.extra_nulls)),
        ..e
    }
}

/// The engine's transition for one row. A field-count mismatch only counts:
/// the row reaches no aggregator. A matching row feeds each field, after
/// newline substitution, to its column's aggregator.
pub open spec fn spec_engine_step(e: EngineState, record: Seq<Seq<char>>) -> EngineState {
    if record.len() != e.headers.len() {
        EngineState { row_count: e.row_count + 1, error_count: e.error_count + 1, ..e }
    } else {
        EngineState {
            row_count: e.row_count + 1,
            columns: Seq::new(
                e.columns.len(),
                |i: int|
                    spec_column_step(
                        e.columns[i],
                        spec_substitute_newlines(record[i], e.sub_newline),
                    ),
            ),
            ..e
        }
    }
}

/// Whether processing this row aborts the analysis: a field-count mismatch
/// whose error brings the counter to the configured maximum.
pub open spec fn spec_step_fails(e: EngineState, record: Seq<Seq<char>>) -> bool {
    record.len() != e.headers.len() && e.error_count + 1 >= e.max_errors
}

/// The error a failing row surfaces.
pub open spec fn spec_step_error(e: EngineState) -> AnalysisError {
    AnalysisError::TooManyErrors {
        error_count: (e.error_count + 1) as usize,
        max_errors: e.max_errors as usize,
    }
}

/// The engine run over a whole row sequence: each row steps the state, and
/// the first failing row ends the run with its error.
pub open spec fn spec_run_rows(e: EngineState, rows: Seq<Seq<Seq<char>>>) -> (
    EngineState,
    Option<AnalysisError>,
)
    decreases rows.len(),
{
    if rows.len() == 0 {
        (e, None::<AnalysisError>)
    } else {
        let e1 = spec_engine_step(e, rows[0]);
        if spec_step_fails(e, rows[0]) {
            (e1, Some(spec_step_error(e)))
        } else {
            spec_run_rows(e1, rows.drop_first())
        }
    }
}

proof fn lemma_run_rows_push(e: EngineState, rows: Seq<Seq<Seq<char>>>, x: Seq<Seq<char>>)
    requires
        spec_run_rows(e, rows).1 is None,
    ensures
        spec_run_rows(e, rows.push(x)) == spec_run_rows(spec_run_rows(e, rows).0, seq![x]),
    decreases rows.len(),
{
    if rows.len() == 0 {
        assert(rows.push(x) =~= seq![x]);
        assert(seq![x].drop_first() =~= Seq::<Seq<Seq<char>>>::empty());
    } else {
        assert(rows.push(x)[0] == rows[0]);
        assert(rows.push(x).drop_first() =~= rows.drop_first().push(x));
        lemma_run_rows_push(spec_engine_step(e, rows[0]), rows.drop_first(), x);
    }
}

/// The finalize adjustment applied to one column's state at stream end.
pub open spec fn spec_finalized(s: ColumnState) -> ColumnState {
    ColumnState { sql_type: spec_finalize_type(s.sql_type), ..s }
}

/// The streaming inference engine: owns one aggregator per column index,
/// addressed densely so duplicate header names stay apart, and the error
/// budget for structurally bad rows.
#[derive(Debug)]
pub struct StreamingInferenceEngine {
    analyzers: Vec<ColumnAnalyzer>,
    headers: Vec<String>,
    row_count: usize,
    error_count: usize,
    max_errors: usize,
    inferencer: TypeInferencer,
    null_values: Vec<String>,
    verbose: bool,
    sub_newline: String,
}

impl View for StreamingInferenceEngine {
    type V = EngineState;

    closed spec fn view(&self) -> EngineState {
        EngineState {
            columns: self.analyzers.deep_view(),
            headers: self.headers.deep_view(),
            row_count: self.row_count as int,
            error_count: self.error_count as int,
            max_errors: self.max_errors as int,
            classifier: self.inferencer@,
            extra_nulls: self.null_values.deep_view(),
            sub_newline: self.sub_newline@,
        }
    }
}

impl DeepView for ColumnAnalyzer {
    type V = ColumnState;

    open spec fn deep_view(&self) -> ColumnState {
        self.view()
    }
}

impl StreamingInferenceEngine {
    /// A fresh engine: no columns yet, zero counts, a classifier built from
    /// the given formats, and the caller's null sentinels and newline
    /// replacement.
    pub fn new(
        null_values: Vec<String>,
        date_format: Option<String>,
        time_format: Option<String>,
        datetime_format: Option<String>,
        max_errors: usize,
        verbose: bool,
        sub_newline: String,
    ) -> (r: Self)
        ensures
            r@.columns.len() == 0,
            r@.headers.len() == 0,
            r@.row_count == 0,
            r@.error_count == 0,
            r@.max_errors == max_errors as int,
            r@.extra_nulls == null_values.deep_view(),
            r@.sub_newline == sub_newline@,
            r@.classifier.date_format == (match date_format {
                Some(f) => f@,
                None => "%Y-%m-%d"@,
            }),
            r@.classifier.time_format == (match time_format {
                Some(f) => f@,
                None => "%H:%M:%S"@,
            }),
            r@.classifier.datetime_format == (match datetime_format {
                Some(f) => f@,
                None => "%Y-%m-%d %H:%M:%S"@,
            }),
            r@.classifier.true_tokens == spec_default_true_tokens(),
            r@.classifier.false_tokens == spec_default_false_tokens(),
            spec_engine_wf(r@),
    {
        let inferencer = TypeInferencer::with_formats(date_format, time_format, datetime_format);
        let r = StreamingInferenceEngine {
            analyzers: Vec::new(),
            headers: Vec::new(),
            row_count: 0,
            error_count: 0,
            max_errors,
            inferencer,
            null_values,
            verbose,
            sub_newline,
        };
        proof {
            assert(r.analyzers.deep_view() =~= Seq::<ColumnState>::empty());
            assert(r.headers.deep_view() =~= Seq::<Seq<char>>::empty());
        }
        r
    }

    /// Fixes the column layout from the header row: one fresh aggregator
    /// per header name, addressed by index.
    pub fn set_headers(&mut self, headers: Vec<String>)
        ensures
            final(self)@ == spec_with_headers(old(self)@, headers.deep_view()),
            spec_engine_wf(old(self)@) ==> spec_engine_wf(final(self)@),
    {
        let ghost h = headers.deep_view();
        self.headers = headers;
        let n = self.headers.len();
        let mut analyzers: Vec<ColumnAnalyzer> = Vec::new();
        let mut i: usize = 0;
        while i < n
            invariant
                n == self.headers@.len(),
                i <= n,
                analyzers@.len() == i,
                forall|j: int|
                    0 <= j < i ==> (#[trigger] analyzers@[j])@ == spec_column_new(
                        self.headers@[j]@,
                        self.inferencer@,
                        self.null_values.deep_view(),
                    ),
            decreases n - i,
        {
            let analyzer = ColumnAnalyzer::new(
                self.headers[i].clone(),
                self.inferencer.clone(),
                clone_strings(&self.null_values),
            );
            analyzers.push(analyzer);
            i = i + 1;
        }
        self.analyzers = analyzers;
        proof {
            let target = spec_with_headers(old(self)@, h);
            assert(self.headers.deep_view() =~= h);
            assert forall|j: int| 0 <= j < n implies self@.columns[j] == target.columns[j] by {
                assert(self.headers.deep_view()[j] == self.headers@[j]@);
            }
            assert(self@.columns =~= target.columns);
            assert(self@ =~= target);
        }
    }

    /// Consumes one data row under the strict field-count policy: a
    /// mismatched row is counted and skipped, aborting with the budget
    /// exhausted; a matching row feeds every aggregator in column order.
    pub fn process_record(&mut self, record: &Vec<String>) -> (r: Result<(), AnalysisError>)
        requires
            spec_engine_wf(old(self)@),
            old(self)@.row_count < usize::MAX as int,
        ensures
            final(self)@ == spec_engine_step(old(self)@, record.deep_view()),
            spec_engine_wf(final(self)@),
            r is Err <==> spec_step_fails(old(self)@, record.deep_view()),
            (r matches Err(err) ==> err == spec_step_error(old(self)@)),
    {
        let ghost orig = self@;
        self.row_count = self.row_count + 1;
        if record.len() != self.headers.len() {
            self.error_count = self.error_count + 1;
            let failed = self.error_count >= self.max_errors;
            proof {
                assert(self@ =~= spec_engine_step(orig, record.deep_view()));
            }
            if failed {
                return Err(
                    AnalysisError::TooManyErrors {
                        error_count: self.error_count,
                        max_errors: self.max_errors,
                    },
                );
            }
            return Ok(());
        }
        let n = self.analyzers.len();
        let mut scratch = ColumnAnalyzer::new(
            String::new(),
            self.inferencer.clone(),
            Vec::new(),
        );
        let mut i: usize = 0;
        while i < n
            invariant
                n == self.analyzers@.len(),
                n == orig.columns.len(),
                n == record@.len(),
                i <= n,
                self.headers.deep_view() == orig.headers,
                self.sub_newline@ == orig.sub_newline,
                self.row_count as int == orig.row_count + 1,
                self.error_count == orig.error_count,
                self.max_errors as int == orig.max_errors,
                self.inferencer@ == orig.classifier,
                self.null_values.deep_view() == orig.extra_nulls,
                spec_engine_wf(orig),
                orig.row_count < usize::MAX as int,
                forall|j: int| i <= j < n ==> (#[trigger] self.analyzers@[j])@ == orig.columns[j],
                forall|j: int|
                    0 <= j < i ==> (#[trigger] self.analyzers@[j])@ == spec_column_step(
                        orig.columns[j],
                        spec_substitute_newlines(record@[j]@, orig.sub_newline),
                    ),
                forall|j: int|
                    0 <= j < i ==> spec_column_wf((#[trigger] self.analyzers@[j])@) && (
                    self.analyzers@[j])@.total_count <= self.row_count as int,
            decreases n - i,
        {
            let processed = substitute_newlines(record[i].as_str(), self.sub_newline.as_str());
            let ghost prev_vec = self.analyzers@;
            self.analyzers.set_and_swap(i, &mut scratch);
            proof {
                assert(scratch@ == prev_vec[i as int]@);
                assert(scratch@ == orig.columns[i as int]);
            }
            scratch.analyze_value(processed.as_str());
            self.analyzers.set_and_swap(i, &mut scratch);
            proof {
                assert(self.analyzers@[i as int]@ == spec_column_step(
                    orig.columns[i as int],
                    spec_substitute_newlines(record@[i as int]@, orig.sub_newline),
                ));
                assert(forall|j: int|
                    0 <= j < n && j != i ==> #[trigger] self.analyzers@[j] == prev_vec[j]);
            }
            i = i + 1;
        }
        proof {
            let target = spec_engine_step(orig, record.deep_view());
            assert forall|j: int| 0 <= j < n implies self@.columns[j] == target.columns[j] by {
                assert(record.deep_view()[j] == record@[j]@);
            }
            assert(self@.columns =~= target.columns);
            assert(self@ =~= target);
        }
        Ok(())
    }

    /// Ends the pass: finalizes every aggregator exactly once, in column
    /// order, and hands the statistics out in header order. The engine's
    /// columns are consumed.
    pub fn finish(&mut self) -> (r: Vec<ColumnStats>)
        ensures
            r@.len() == old(self)@.columns.len(),
            forall|i: int|
                0 <= i < r@.len() ==> spec_stats_match(
                    #[trigger] r@[i],
                    spec_finalized(old(self)@.columns[i]),
                ),
            final(self)@ == (EngineState { columns: Seq::empty(), ..old(self)@ }),
    {
        let mut out: Vec<ColumnStats> = Vec::new();
        let ghost orig = self@;
        let ghost total = orig.columns.len();
        while self.analyzers.len() > 0
            invariant
                out@.len() + self.analyzers@.len() == total,
                self.headers.deep_view() == orig.headers,
                self.sub_newline@ == orig.sub_newline,
                self.row_count as int == orig.row_count,
                self.error_count as int == orig.error_count,
                self.max_errors as int == orig.max_errors,
                self.inferencer@ == orig.classifier,
                self.null_values.deep_view() == orig.extra_nulls,
                forall|j: int|
                    0 <= j < self.analyzers@.len() ==> (#[trigger] self.analyzers@[j])@ == orig.columns[out@.len() + j],
                forall|i: int|
                    0 <= i < out@.len() ==> spec_stats_match(
                        #[trigger] out@[i],
                        spec_finalized(orig.columns[i]),
                    ),
            decreases self.analyzers@.len(),
        {
            let ghost prev_vec = self.analyzers@;
            let ghost done = out@.len() as int;
            let mut analyzer = self.analyzers.remove(0);
            proof {
                assert(analyzer == prev_vec[0]);
                assert(analyzer@ == orig.columns[done]);
            }
            analyzer.finalize();
            out.push(analyzer.into_stats());
            proof {
                assert forall|j: int|
                    0 <= j < self.analyzers@.len() implies (#[trigger] self.analyzers@[j])@
                    == orig.columns[out@.len() + j] by {
                    assert(self.analyzers@[j] == prev_vec[j + 1]);
                    assert(prev_vec[j + 1]@ == orig.columns[done + 1 + j]);
                }
            }
        }
        proof {
            assert(self.analyzers.deep_view() =~= Seq::<ColumnState>::empty());
            assert(self@ =~= (EngineState { columns: Seq::empty(), ..orig }));
        }
        out
    }

    /// Runs a whole analysis over in-memory rows: fixes the header layout,
    /// feeds every row in order, and either aborts with the first budget
    /// failure, producing no statistics, or returns the finalized statistics
    /// in header order.
    #[verifier::loop_isolation(false)]
    pub fn analyze(&mut self, headers: Vec<String>, rows: &Vec<Vec<String>>) -> (r: Result<
        Vec<ColumnStats>,
        AnalysisError,
    >)
        requires
            spec_engine_wf(old(self)@),
            old(self)@.row_count + rows@.len() <= usize::MAX as int,
        ensures
            ({
                let run = spec_run_rows(
                    spec_with_headers(old(self)@, headers.deep_view()),
                    rows.deep_view(),
                );
                match r {
                    Err(err) => run.1 == Some(err),
                    Ok(stats) => run.1 is None && stats@.len() == run.0.columns.len() && (forall|
                        i: int,
                    |
                        0 <= i < stats@.len() ==> spec_stats_match(
                            #[trigger] stats@[i],
                            spec_finalized(run.0.columns[i]),
                        )),
                }
            }),
    {
        let ghost orig = self@;
        let ghost e0 = spec_with_headers(orig, headers.deep_view());
        self.set_headers(headers);
        let n = rows.len();
        let mut i: usize = 0;
        proof {
            assert(rows.deep_view().take(0) =~= Seq::<Seq<Seq<char>>>::empty());
        }
        while i < n
            invariant
                n == rows@.len(),
                i <= n,
                spec_run_rows(e0, rows.deep_view().take(i as int)) == (self@, None::<
                    AnalysisError,
                >),
                spec_engine_wf(self@),
                self@.row_count <= orig.row_count + i,
            decreases n - i,
        {
            let ghost pre = self@;
            let row = &rows[i];
            let result = self.process_record(row);
            proof {
                assert(row.deep_view() == rows@[i as int].deep_view());
                assert(rows.deep_view()[i as int] == rows@[i as int].deep_view());
                if result is Ok {
                    assert(!spec_step_fails(pre, rows.deep_view()[i as int]));
                }
                lemma_run_rows_push(e0, rows.deep_view().take(i as int), rows.deep_view()[i as int]);
                assert(rows.deep_view().take(i as int).push(rows.deep_view()[i as int])
                    =~= rows.deep_view().take(i as int + 1));
                assert(seq![rows.deep_view()[i as int]].drop_first()
                    =~= Seq::<Seq<Seq<char>>>::empty());
                assert(seq![rows.deep_view()[i as int]][0] == rows.deep_view()[i as int]);
            }
            match result {
                Err(err) => {
                    proof {
                        lemma_run_rows_prefix_fail(e0, rows.deep_view(), i as int);
                        assert(spec_run_rows(e0, rows.deep_view()).1 == Some(err));
                    }
                    return Err(err);
                },
                Ok(_) => {},
            }
            proof {
                reveal_with_fuel(spec_run_rows, 3);
                assert(self@ == spec_engine_step(pre, rows.deep_view()[i as int]));
                assert(spec_run_rows(pre, seq![rows.deep_view()[i as int]]) == (
                    self@,
                    None::<AnalysisError>,
                ));
                assert(spec_run_rows(e0, rows.deep_view().take(i as int + 1)) == (
                    self@,
                    None::<AnalysisError>,
                ));
            }
            i = i + 1;
        }
        proof {
            assert(rows.deep_view().take(n as int) =~= rows.deep_view());
        }
        Ok(self.finish())
    }

    /// The running totals and the header layout.
    pub fn get_summary(&self) -> (r: InferenceSummary)
        ensures
            r.total_rows as int == self@.row_count,
            r.total_columns as int == self@.headers.len(),
            r.error_count as int == self@.error_count,
            r.headers.deep_view() == self@.headers,
    {
        InferenceSummary {
            total_rows: self.row_count,
            total_columns: self.headers.len(),
            error_count: self.error_count,
            headers: clone_strings(&self.headers),
        }
    }
}

proof fn lemma_run_rows_prefix_fail(e: EngineState, rows: Seq<Seq<Seq<char>>>, i: int)
    requires
        0 <= i < rows.len(),
        spec_run_rows(e, rows.take(i)).1 is None,
        spec_step_fails(spec_run_rows(e, rows.take(i)).0, rows[i]),
    ensures
        spec_run_rows(e, rows) == (
            spec_engine_step(spec_run_rows(e, rows.take(i)).0, rows[i]),
            Some(spec_step_error(spec_run_rows(e, rows.take(i)).0)),
        ),
    decreases i,
{
    if i == 0 {
        assert(rows.take(0) =~= Seq::<Seq<Seq<char>>>::empty());
    } else {
        assert(rows.take(i)[0] == rows[0]);
        assert(rows.take(i).drop_first() =~= rows.drop_first().take(i - 1));
        assert(rows.drop_first()[i - 1] == rows[i]);
        if !spec_step_fails(e, rows[0]) {
            lemma_run_rows_prefix_fail(spec_engine_step(e, rows[0]), rows.drop_first(), i - 1);
        }
    }
}

} // verus!
