//! Structural diagnosis of parsed row data: field-count mismatches, parse
//! failures and over-long lines, grouped by kind under a bad-line budget.

use vstd::prelude::*;

use crate::classify::spec_byte_len;
use crate::strutil::{spec_nat_digits, str_eq_str, usize_to_string};
use vstd::pervasive::VecAdditionalExecFns;

verus! {

/// One kind of problem a line can show.
#[derive(Debug)]
pub enum ErrorType {
    FieldCountMismatch { expected: usize, actual: usize },
    QuoteError(String),
    EncodingError(String),
    LineLengthExceeded { max: usize, actual: usize },
    ParseError(String),
}

/// An error kind as mathematical values.
#[verifier::ext_equal]
pub ghost enum ErrorKind {
    FieldCountMismatch { expected: int, actual: int },
    QuoteError(Seq<char>),
    EncodingError(Seq<char>),
    LineLengthExceeded { max: int, actual: int },
    ParseError(Seq<char>),
}

impl View for ErrorType {
    type V = ErrorKind;

    open spec fn view(&self) -> ErrorKind {
        match self {
            ErrorType::FieldCountMismatch { expected, actual } => ErrorKind::FieldCountMismatch {
                expected: *expected as int,
                actual: *actual as int,
            },
            ErrorType::QuoteError(m) => ErrorKind::QuoteError(m@),
            ErrorType::EncodingError(m) => ErrorKind::EncodingError(m@),
            ErrorType::LineLengthExceeded { max, actual } => ErrorKind::LineLengthExceeded {
                max: *max as int,
                actual: *actual as int,
            },
            ErrorType::ParseError(m) => ErrorKind::ParseError(m@),
        }
    }
}

impl DeepView for ErrorType {
    type V = ErrorKind;

    open spec fn deep_view(&self) -> ErrorKind {
        self.view()
    }
}

impl ErrorType {
    /// The display text of this error kind.
    pub fn message(&self) -> (r: String)
        ensures
            (match *self {
                ErrorType::FieldCountMismatch { expected, actual } => r@
                    == "Field count mismatch: expected "@ + spec_nat_digits(expected as int)
                    + ", got "@ + spec_nat_digits(actual as int),
                ErrorType::QuoteError(ref m) => r@ == "Quote error: "@ + m@,
                ErrorType::EncodingError(ref m) => r@ == "Encoding error: "@ + m@,
                ErrorType::LineLengthExceeded { max, actual } => r@ == "Line length exceeded: "@
                    + spec_nat_digits(actual as int) + " bytes (max "@ + spec_nat_digits(
                    max as int,
                ) + ")"@,
                ErrorType::ParseError(ref m) => r@ == "Parse error: "@ + m@,
            }),
    {
        match self {
            ErrorType::FieldCountMismatch { expected, actual } => {
                let mut m = "Field count mismatch: expected ".to_owned();
                m.append(usize_to_string(*expected).as_str());
                m.append(", got ");
                m.append(usize_to_string(*actual).as_str());
                m
            },
            ErrorType::QuoteError(t) => {
                let mut m = "Quote error: ".to_owned();
                m.append(t.as_str());
                m
            },
            ErrorType::EncodingError(t) => {
                let mut m = "Encoding error: ".to_owned();
                m.append(t.as_str());
                m
            },
            ErrorType::LineLengthExceeded { max, actual } => {
                let mut m = "Line length exceeded: ".to_owned();
                m.append(usize_to_string(*actual).as_str());
                m.append(" bytes (max ");
                m.append(usize_to_string(*max).as_str());
                m.append(")");
                m
            },
            ErrorType::ParseError(t) => {
                let mut m = "Parse error: ".to_owned();
                m.append(t.as_str());
                m
            },
        }
    }
}

impl Clone for ErrorType {
    /// A copy holding the same kind and fields.
    fn clone(&self) -> (r: Self)
        ensures
            r@ == self@,
    {
        match self {
            ErrorType::FieldCountMismatch { expected, actual } => ErrorType::FieldCountMismatch {
                expected: *expected,
                actual: *actual,
            },
            ErrorType::QuoteError(m) => ErrorType::QuoteError(m.clone()),
            ErrorType::EncodingError(m) => ErrorType::EncodingError(m.clone()),
            ErrorType::LineLengthExceeded { max, actual } => ErrorType::LineLengthExceeded {
                max: *max,
                actual: *actual,
            },
            ErrorType::ParseError(m) => ErrorType::ParseError(m.clone()),
        }
    }
}

/// Compares two error kinds, fields included.
fn error_type_eq(a: &ErrorType, b: &ErrorType) -> (r: bool)
    ensures
        r == (a@ == b@),
{
    match (a, b) {
        (
            ErrorType::FieldCountMismatch { expected: e1, actual: a1 },
            ErrorType::FieldCountMismatch { expected: e2, actual: a2 },
        ) => e1 == e2 && a1 == a2,
        (ErrorType::QuoteError(m1), ErrorType::QuoteError(m2)) => str_eq_str(
            m1.as_str(),
            m2.as_str(),
        ),
        (ErrorType::EncodingError(m1), ErrorType::EncodingError(m2)) => str_eq_str(
            m1.as_str(),
            m2.as_str(),
        ),
        (
            ErrorType::LineLengthExceeded { max: x1, actual: a1 },
            ErrorType::LineLengthExceeded { max: x2, actual: a2 },
        ) => x1 == x2 && a1 == a2,
        (ErrorType::ParseError(m1), ErrorType::ParseError(m2)) => str_eq_str(
            m1.as_str(),
            m2.as_str(),
        ),
        _ => false,
    }
}

/// One problematic line: where it stood, what it held, and what was wrong
/// with it.
#[derive(Debug)]
pub struct DiagnosticError {
    pub line_number: usize,
    pub content: String,
    pub error_type: ErrorType,
}

/// A problematic line as mathematical values.
#[verifier::ext_equal]
pub ghost struct DiagRecord {
    pub line: int,
    pub content: Seq<char>,
    pub kind: ErrorKind,
}

impl View for DiagnosticError {
    type V = DiagRecord;

    open spec fn view(&self) -> DiagRecord {
        DiagRecord { line: self.line_number as int, content: self.content@, kind: self.error_type@ }
    }
}

impl DeepView for DiagnosticError {
    type V = DiagRecord;

    open spec fn deep_view(&self) -> DiagRecord {
        self.view()
    }
}

/// What a diagnosis found: how many lines were read, how many were
/// problematic, the problems grouped by kind in order of first appearance,
/// and whether the bad-line budget cut the run short.
pub struct DiagnosticSummary {
    pub total_lines: usize,
    pub problematic_lines: usize,
    pub errors_by_type: Vec<(ErrorType, Vec<DiagnosticError>)>,
    pub stopped_at_limit: bool,
}

/// The groups with one more record filed under its kind: appended to the
/// first group of that kind, or opening a new group at the end.
pub open spec fn spec_group_insert(
    groups: Seq<(ErrorKind, Seq<DiagRecord>)>,
    rec: DiagRecord,
) -> Seq<(ErrorKind, Seq<DiagRecord>)>
    decreases groups.len(),
{
    if groups.len() == 0 {
        seq![(rec.kind, seq![rec])]
    } else if groups[0].0 == rec.kind {
        seq![(groups[0].0, groups[0].1.push(rec))] + groups.drop_first()
    } else {
        seq![groups[0]] + spec_group_insert(groups.drop_first(), rec)
    }
}

proof fn lemma_group_insert_found(
    groups: Seq<(ErrorKind, Seq<DiagRecord>)>,
    rec: DiagRecord,
    i: int,
)
    requires
        0 <= i < groups.len(),
        groups[i].0 == rec.kind,
        forall|j: int| 0 <= j < i ==> (#[trigger] groups[j]).0 != rec.kind,
    ensures
        spec_group_insert(groups, rec) == groups.update(i, (groups[i].0, groups[i].1.push(rec))),
    decreases i,
{
    if i == 0 {
        assert(spec_group_insert(groups, rec) =~= groups.update(
            0,
            (groups[0].0, groups[0].1.push(rec)),
        ));
    } else {
        assert(groups.drop_first()[i - 1].0 == rec.kind);
        assert forall|j: int| 0 <= j < i - 1 implies (#[trigger] groups.drop_first()[j]).0
            != rec.kind by {
            assert(groups.drop_first()[j] == groups[j + 1]);
        }
        lemma_group_insert_found(groups.drop_first(), rec, i - 1);
        assert(spec_group_insert(groups, rec) =~= groups.update(
            i,
            (groups[i].0, groups[i].1.push(rec)),
        ));
    }
}

proof fn lemma_group_insert_absent(groups: Seq<(ErrorKind, Seq<DiagRecord>)>, rec: DiagRecord)
    requires
        forall|j: int| 0 <= j < groups.len() ==> (#[trigger] groups[j]).0 != rec.kind,
    ensures
        spec_group_insert(groups, rec) == groups.push((rec.kind, seq![rec])),
    decreases groups.len(),
{
    if groups.len() == 0 {
        assert(spec_group_insert(groups, rec) =~= groups.push((rec.kind, seq![rec])));
    } else {
        assert forall|j: int|
            0 <= j < groups.drop_first().len() implies (#[trigger] groups.drop_first()[j]).0
            != rec.kind by {
            assert(groups.drop_first()[j] == groups[j + 1]);
        }
        lemma_group_insert_absent(groups.drop_first(), rec);
        assert(spec_group_insert(groups, rec) =~= groups.push((rec.kind, seq![rec])));
    }
}

/// Files one error under its kind: into the first group of that kind, or a
/// new group at the end.
#[verifier::loop_isolation(false)]
fn group_insert(groups: &mut Vec<(ErrorType, Vec<DiagnosticError>)>, e: DiagnosticError)
    ensures
        final(groups).deep_view() == spec_group_insert(old(groups).deep_view(), e@),
{
    let ghost orig = groups.deep_view();
    let ghost erec = e@;
    let n = groups.len();
    let mut i: usize = 0;
    while i < n
        invariant
            n == groups@.len(),
            i <= n,
            orig == groups.deep_view(),
            erec == e@,
            forall|j: int| 0 <= j < i ==> (#[trigger] groups@[j]).0@ != e.error_type@,
        decreases n - i,
    {
        if error_type_eq(&groups[i].0, &e.error_type) {
            let ghost prepush = groups@;
            let mut entry = (
                ErrorType::ParseError(String::new()),
                Vec::<DiagnosticError>::new(),
            );
            groups.set_and_swap(i, &mut entry);
            entry.1.push(e);
            groups.set_and_swap(i, &mut entry);
            proof {
                assert forall|j: int| 0 <= j < i implies (#[trigger] orig[j]).0 != erec.kind by {
                    assert(orig[j].0 == prepush[j].0@);
                }
                assert(orig[i as int].0 == erec.kind);
                lemma_group_insert_found(orig, erec, i as int);
                assert(groups.deep_view() =~~= orig.update(
                    i as int,
                    (orig[i as int].0, orig[i as int].1.push(erec)),
                ));
            }
            return;
        }
        i = i + 1;
    }
    let ghost prepush = groups@;
    let key = e.error_type.clone();
    let mut members: Vec<DiagnosticError> = Vec::new();
    members.push(e);
    groups.push((key, members));
    proof {
        assert forall|j: int| 0 <= j < orig.len() implies (#[trigger] orig[j]).0 != erec.kind by {
            assert(orig[j].0 == prepush[j].0@);
        }
        lemma_group_insert_absent(orig, erec);
        assert(groups.deep_view() =~~= orig.push((erec.kind, seq![erec])));
    }
}

/// One row as the tokenizer handed it over: either its fields, in order,
/// or the text of the failure that kept it from parsing.
#[derive(Debug)]
pub enum RowParse {
    Fields(Vec<String>),
    Failed(String),
}

impl View for RowParse {
    type V = Result<Seq<Seq<char>>, Seq<char>>;

    open spec fn view(&self) -> Result<Seq<Seq<char>>, Seq<char>> {
        match self {
            RowParse::Fields(v) => Ok(v.deep_view()),
            RowParse::Failed(m) => Err(m@),
        }
    }
}

impl DeepView for RowParse {
    type V = Result<Seq<Seq<char>>, Seq<char>>;

    open spec fn deep_view(&self) -> Result<Seq<Seq<char>>, Seq<char>> {
        self.view()
    }
}

/// The fields of a record joined by the separator, in order.
pub open spec fn spec_join(fields: Seq<Seq<char>>, sep: Seq<char>) -> Seq<char>
    decreases fields.len(),
{
    if fields.len() == 0 {
        Seq::empty()
    } else if fields.len() == 1 {
        fields[0]
    } else {
        fields[0] + sep + spec_join(fields.drop_first(), sep)
    }
}

proof fn lemma_join_push(fields: Seq<Seq<char>>, sep: Seq<char>, x: Seq<char>)
    ensures
        fields.len() == 0 ==> spec_join(fields.push(x), sep) == x,
        fields.len() >= 1 ==> spec_join(fields.push(x), sep) == spec_join(fields, sep) + sep + x,
    decreases fields.len(),
{
    if fields.len() == 0 {
        assert(spec_join(fields.push(x), sep) == fields.push(x)[0]);
    } else {
        assert(fields.push(x)[0] == fields[0]);
        assert(fields.push(x).drop_first() =~= fields.drop_first().push(x));
        lemma_join_push(fields.drop_first(), sep, x);
        if fields.len() == 1 {
            assert(spec_join(fields, sep) == fields[0]);
        } else {
            assert((fields[0] + sep + (spec_join(fields.drop_first(), sep) + sep + x)) =~= (fields[
                0
            ] + sep + spec_join(fields.drop_first(), sep)) + sep + x);
        }
    }
}

/// Joins a record's fields with the separator.
#[verifier::loop_isolation(false)]
fn join_fields(record: &Vec<String>, sep: &str) -> (r: String)
    ensures
        r@ == spec_join(record.deep_view(), sep@),
{
    let n = record.len();
    let mut out = String::new();
    let mut i: usize = 0;
    while i < n
        invariant
            n == record@.len(),
            i <= n,
            out@ == spec_join(record.deep_view().take(i as int), sep@),
        decreases n - i,
    {
        if i > 0 {
            out.append(sep);
        }
        out.append(record[i].as_str());
        proof {
            lemma_join_push(record.deep_view().take(i as int), sep@, record.deep_view()[i as int]);
            assert(record.deep_view().take(i as int).push(record.deep_view()[i as int])
                =~= record.deep_view().take(i as int + 1));
            assert(out@ =~= spec_join(record.deep_view().take(i as int + 1), sep@));
        }
        i = i + 1;
    }
    proof {
        assert(record.deep_view().take(n as int) =~= record.deep_view());
    }
    out
}

/// The running state of one diagnosis.
#[verifier::ext_equal]
pub ghost struct DiagState {
    pub line: int,
    pub expected: Option<int>,
    pub groups: Seq<(ErrorKind, Seq<DiagRecord>)>,
    pub problematic: int,
    pub stopped: bool,
}

/// The state a diagnosis starts from: the header, when present, is line one
/// and fixes the expected field count unless the caller overrode it.
pub open spec fn spec_diag_init(
    has_header: bool,
    header_len: int,
    fields: Option<usize>,
) -> DiagState {
    DiagState {
        line: if has_header {
            1
        } else {
            0
        },
        expected: match fields {
            Some(f) => Some(f as int),
            None => if has_header {
                Some(header_len)
            } else {
                None
            },
        },
        groups: Seq::empty(),
        problematic: 0,
        stopped: false,
    }
}

/// One line's diagnosis. A line that would not parse is a parse error. A
/// parsed line fixes the expected field count when none is known and it is
/// the first line; a wrong field count and an over-long joined line are
/// each recorded, and crossing the bad-line budget stops the run.
pub open spec fn spec_diag_step(
    st: DiagState,
    row: Result<Seq<Seq<char>>, Seq<char>>,
    sep: Seq<char>,
    max_line_length: int,
    badmax: int,
) -> DiagState {
    let line = st.line + 1;
    match row {
        Err(msg) => {
            let rec = DiagRecord {
                line: line,
                content: "Parse error on line "@ + spec_nat_digits(line),
                kind: ErrorKind::ParseError(msg),
            };
            DiagState {
                line: line,
                expected: st.expected,
                groups: spec_group_insert(st.groups, rec),
                problematic: st.problematic + 1,
                stopped: st.problematic + 1 >= badmax,
            }
        },
        Ok(record) => {
            let expected = if st.expected is None && line == 1 {
                Some(record.len() as int)
            } else {
                st.expected
            };
            let joined = spec_join(record, sep);
            let st1 = DiagState { line: line, expected: expected, ..st };
            let st2 = match expected {
                Some(exp) => if record.len() != exp {
                    let rec = DiagRecord {
                        line: line,
                        content: joined,
                        kind: ErrorKind::FieldCountMismatch {
                            expected: exp,
                            actual: record.len() as int,
                        },
                    };
                    DiagState {
                        groups: spec_group_insert(st1.groups, rec),
                        problematic: st1.problematic + 1,
                        stopped: st1.problematic + 1 >= badmax,
                        ..st1
                    }
                } else {
                    st1
                },
                None => st1,
            };
            if st2.stopped {
                st2
            } else if spec_byte_len(joined) as usize > max_line_length {
                let rec = DiagRecord {
                    line: line,
                    content: joined,
                    kind: ErrorKind::LineLengthExceeded {
                        max: max_line_length,
                        actual: spec_byte_len(joined) as usize as int,
                    },
                };
                DiagState {
                    groups: spec_group_insert(st2.groups, rec),
                    problematic: st2.problematic + 1,
                    stopped: st2.problematic + 1 >= badmax,
                    ..st2
                }
            } else {
                st2
            }
        },
    }
}

/// A diagnosis run over a whole row sequence, ending early once the
/// bad-line budget stops it.
pub open spec fn spec_diag_run(
    st: DiagState,
    rows: Seq<Result<Seq<Seq<char>>, Seq<char>>>,
    sep: Seq<char>,
    max_line_length: int,
    badmax: int,
) -> DiagState
    decreases rows.len(),
{
    if rows.len() == 0 {
        st
    } else {
        let st1 = spec_diag_step(st, rows[0], sep, max_line_length, badmax);
        if st1.stopped {
            st1
        } else {
            spec_diag_run(st1, rows.drop_first(), sep, max_line_length, badmax)
        }
    }
}

proof fn lemma_diag_run_push(
    st: DiagState,
    rows: Seq<Result<Seq<Seq<char>>, Seq<char>>>,
    x: Result<Seq<Seq<char>>, Seq<char>>,
    sep: Seq<char>,
    max_line_length: int,
    badmax: int,
)
    requires
        !spec_diag_run(st, rows, sep, max_line_length, badmax).stopped,
    ensures
        spec_diag_run(st, rows.push(x), sep, max_line_length, badmax) == spec_diag_step(
            spec_diag_run(st, rows, sep, max_line_length, badmax),
            x,
            sep,
            max_line_length,
            badmax,
        ),
    decreases rows.len(),
{
    reveal_with_fuel(spec_diag_run, 3);
    if rows.len() == 0 {
        assert(rows.push(x) =~= seq![x]);
        assert(seq![x].drop_first() =~= Seq::<Result<Seq<Seq<char>>, Seq<char>>>::empty());
        assert(seq![x][0] == x);
    } else {
        assert(rows.push(x)[0] == rows[0]);
        assert(rows.push(x).drop_first() =~= rows.drop_first().push(x));
        let st1 = spec_diag_step(st, rows[0], sep, max_line_length, badmax);
        if !st1.stopped {
            lemma_diag_run_push(st1, rows.drop_first(), x, sep, max_line_length, badmax);
        }
    }
}

proof fn lemma_diag_run_prefix_stop(
    st: DiagState,
    rows: Seq<Result<Seq<Seq<char>>, Seq<char>>>,
    i: int,
    sep: Seq<char>,
    max_line_length: int,
    badmax: int,
)
    requires
        0 <= i < rows.len(),
        !spec_diag_run(st, rows.take(i), sep, max_line_length, badmax).stopped,
        spec_diag_step(
            spec_diag_run(st, rows.take(i), sep, max_line_length, badmax),
            rows[i],
            sep,
            max_line_length,
            badmax,
        ).stopped,
    ensures
        spec_diag_run(st, rows, sep, max_line_length, badmax) == spec_diag_step(
            spec_diag_run(st, rows.take(i), sep, max_line_length, badmax),
            rows[i],
            sep,
            max_line_length,
            badmax,
        ),
    decreases i,
{
    if i == 0 {
        assert(rows.take(0) =~= Seq::<Result<Seq<Seq<char>>, Seq<char>>>::empty());
    } else {
        assert(rows.take(i)[0] == rows[0]);
        assert(rows.take(i).drop_first() =~= rows.drop_first().take(i - 1));
        assert(rows.drop_first()[i - 1] == rows[i]);
        let st1 = spec_diag_step(st, rows[0], sep, max_line_length, badmax);
        lemma_diag_run_prefix_stop(st1, rows.drop_first(), i - 1, sep, max_line_length, badmax);
    }
}

proof fn lemma_diag_run_bounds(
    st: DiagState,
    rows: Seq<Result<Seq<Seq<char>>, Seq<char>>>,
    sep: Seq<char>,
    max_line_length: int,
    badmax: int,
)
    ensures
        spec_diag_run(st, rows, sep, max_line_length, badmax).line <= st.line + rows.len(),
        spec_diag_run(st, rows, sep, max_line_length, badmax).line >= st.line,
        spec_diag_run(st, rows, sep, max_line_length, badmax).problematic <= st.problematic + 2
            * rows.len(),
        spec_diag_run(st, rows, sep, max_line_length, badmax).problematic >= st.problematic,
    decreases rows.len(),
{
    if rows.len() > 0 {
        let st1 = spec_diag_step(st, rows[0], sep, max_line_length, badmax);
        assert(st1.line == st.line + 1);
        assert(st.problematic <= st1.problematic <= st.problematic + 2);
        if !st1.stopped {
            lemma_diag_run_bounds(st1, rows.drop_first(), sep, max_line_length, badmax);
        }
    }
}

/// Diagnoses a sequence of parsed rows: each row either failed to parse or
/// holds its fields. The header, when present, was line one and fixes the
/// expected field count unless `fields` overrides it. Problems are grouped
/// by kind, and the run stops once `badmax` problematic lines are found.
#[verifier::loop_isolation(false)]
pub fn diagnose_rows(
    has_header: bool,
    header_len: usize,
    fields: Option<usize>,
    rows: &Vec<RowParse>,
    delimiter: &str,
    max_line_length: usize,
    badmax: usize,
) -> (r: DiagnosticSummary)
    requires
        1 + 2 * rows@.len() < usize::MAX as int,
    ensures
        ({
            let fin = spec_diag_run(
                spec_diag_init(has_header, header_len as int, fields),
                rows.deep_view(),
                delimiter@,
                max_line_length as int,
                badmax as int,
            );
            &&& r.total_lines as int == fin.line
            &&& r.problematic_lines as int == fin.problematic
            &&& r.errors_by_type.deep_view() == fin.groups
            &&& r.stopped_at_limit == fin.stopped
        }),
{
    let ghost init = spec_diag_init(has_header, header_len as int, fields);
    let ghost sep = delimiter@;
    let ghost maxl = max_line_length as int;
    let ghost bm = badmax as int;
    let mut line: usize = if has_header {
        1
    } else {
        0
    };
    let mut expected: Option<usize> = match fields {
        Some(f) => Some(f),
        None => if has_header {
            Some(header_len)
        } else {
            None
        },
    };
    let mut groups: Vec<(ErrorType, Vec<DiagnosticError>)> = Vec::new();
    let mut problematic: usize = 0;
    let mut stopped: bool = false;
    let n = rows.len();
    let mut i: usize = 0;
    proof {
        assert(rows.deep_view().take(0) =~= Seq::<Result<Seq<Seq<char>>, Seq<char>>>::empty());
        assert(groups.deep_view() =~= Seq::<(ErrorKind, Seq<DiagRecord>)>::empty());
    }
    while i < n && !stopped
        invariant
            n == rows@.len(),
            i <= n,
            ({
                let st = DiagState {
                    line: line as int,
                    expected: match expected {
                        Some(e) => Some(e as int),
                        None => None,
                    },
                    groups: groups.deep_view(),
                    problematic: problematic as int,
                    stopped: stopped,
                };
                &&& (!stopped ==> st == spec_diag_run(
                    init,
                    rows.deep_view().take(i as int),
                    sep,
                    maxl,
                    bm,
                ))
                &&& (stopped ==> st == spec_diag_run(init, rows.deep_view(), sep, maxl, bm))
            }),
        decreases n - i,
    {
        let ghost pre = spec_diag_run(init, rows.deep_view().take(i as int), sep, maxl, bm);
        let ghost row_v = rows.deep_view()[i as int];
        let ghost post = spec_diag_step(pre, row_v, sep, maxl, bm);
        proof {
            lemma_diag_run_bounds(init, rows.deep_view().take(i as int), sep, maxl, bm);
            lemma_diag_run_push(init, rows.deep_view().take(i as int), row_v, sep, maxl, bm);
            assert(rows.deep_view().take(i as int).push(row_v) =~= rows.deep_view().take(
                i as int + 1,
            ));
        }
        line = line + 1;
        match &rows[i] {
            RowParse::Failed(msg) => {
                let mut content = "Parse error on line ".to_owned();
                content.append(usize_to_string(line).as_str());
                let err = DiagnosticError {
                    line_number: line,
                    content: content,
                    error_type: ErrorType::ParseError(msg.clone()),
                };
                group_insert(&mut groups, err);
                problematic = problematic + 1;
                if problematic >= badmax {
                    stopped = true;
                }
            },
            RowParse::Fields(record) => {
                if expected.is_none() && line == 1 {
                    expected = Some(record.len());
                }
                let joined = join_fields(record, delimiter);
                match expected {
                    Some(exp) => {
                        if record.len() != exp {
                            let err = DiagnosticError {
                                line_number: line,
                                content: joined.clone(),
                                error_type: ErrorType::FieldCountMismatch {
                                    expected: exp,
                                    actual: record.len(),
                                },
                            };
                            group_insert(&mut groups, err);
                            problematic = problematic + 1;
                            if problematic >= badmax {
                                stopped = true;
                            }
                        }
                    },
                    None => {},
                }
                if !stopped && joined.as_str().len() > max_line_length {
                    let actual = joined.as_str().len();
                    let err = DiagnosticError {
                        line_number: line,
                        content: joined,
                        error_type: ErrorType::LineLengthExceeded {
                            max: max_line_length,
                            actual: actual,
                        },
                    };
                    group_insert(&mut groups, err);
                    problematic = problematic + 1;
                    if problematic >= badmax {
                        stopped = true;
                    }
                }
            },
        }
        proof {
            let st = DiagState {
                line: line as int,
                expected: match expected {
                    Some(e) => Some(e as int),
                    None => None,
                },
                groups: groups.deep_view(),
                problematic: problematic as int,
                stopped: stopped,
            };
            assert(st =~= post);
            if stopped {
                lemma_diag_run_prefix_stop(init, rows.deep_view(), i as int, sep, maxl, bm);
            }
        }
        i = i + 1;
    }
    proof {
        if !stopped {
            assert(rows.deep_view().take(n as int) =~= rows.deep_view());
        }
    }
    DiagnosticSummary {
        total_lines: line,
        problematic_lines: problematic,
        errors_by_type: groups,
        stopped_at_limit: stopped,
    }
}

} // verus!
