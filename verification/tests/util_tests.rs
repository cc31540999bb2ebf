use csv_schema::diagnose::{DiagnosticSummary, ErrorType, RowParse};
use csv_schema::parse::{substitute_record_newlines, transform_nulls, QuoteStyle};
use csv_schema::perf::{BufferOptimizer, StreamingOptimizer};
use csv_schema::strutil::{sanitize_column_name, truncate_string};

#[test]
fn test_buffer_size_calculation() {
    // Test minimum buffer
    assert_eq!(BufferOptimizer::calculate_buffer_size(0, 1024), 8192);

    // Test maximum buffer constraint
    let large_memory = 1024 * 1024 * 1024; // 1GB
    let buffer_size = BufferOptimizer::calculate_buffer_size(1000000, large_memory);
    assert!(buffer_size <= 1048576); // Should not exceed 1MB

    // Test power of 2 alignment
    let buffer_size = BufferOptimizer::calculate_buffer_size(10000, 100000);
    assert!(buffer_size.is_power_of_two());
}

#[test]
fn test_chunk_size_calculation() {
    // Test with different column counts
    assert!(
        StreamingOptimizer::calculate_chunk_size(10000, 5)
            >= StreamingOptimizer::calculate_chunk_size(10000, 100)
    );

    // Test bounds
    let chunk_size = StreamingOptimizer::calculate_chunk_size(1000000, 200);
    assert!(chunk_size >= 100 && chunk_size <= 10000);
}

#[test]
fn test_memory_estimate() {
    assert_eq!(
        StreamingOptimizer::estimate_memory_for_analysis(10, 2),
        1024 + 10 * 2 * 32 + 2 * 256
    );
}

#[test]
fn test_available_memory_placeholder() {
    assert_eq!(BufferOptimizer::get_available_memory(), 1024 * 1024 * 1024);
}

#[test]
fn test_quote_style_bytes() {
    assert_eq!(QuoteStyle::Double.as_byte(), Some(b'"'));
    assert_eq!(QuoteStyle::Single.as_byte(), Some(b'\''));
    assert_eq!(QuoteStyle::Unquoted.as_byte(), None);
}

#[test]
fn test_sanitize_column_name() {
    assert_eq!(sanitize_column_name("plain_name"), "plain_name");
    assert_eq!(sanitize_column_name("col name!"), "col_name_");
    assert_eq!(sanitize_column_name("1column"), "_1column");
}

#[test]
fn test_truncate_string() {
    assert_eq!(truncate_string("short", 20), "short");
    assert_eq!(truncate_string("a very long column name", 10), "a very ...");
    assert_eq!(truncate_string("abcdef", 2), "...");
}

#[test]
fn test_transform_nulls_record() {
    let record = vec!["Alice".to_string(), "NULL".to_string(), "".to_string()];
    let fnull = vec!["NULL".to_string(), "".to_string()];
    let out = transform_nulls(&record, &fnull, "\\N");
    assert_eq!(out, vec!["Alice".to_string(), "\\N".to_string(), "\\N".to_string()]);
}

#[test]
fn test_substitute_record_newlines() {
    let record = vec!["Line1\nLine2\nLine3".to_string(), "Line1\r\nLine2".to_string()];
    let out = substitute_record_newlines(&record, " | ");
    assert_eq!(out[0], "Line1 | Line2 | Line3");
    assert_eq!(out[1], "Line1 | Line2");
}

#[test]
fn test_substitute_newlines_cleans_replacement() {
    // Carriage returns are removed after substitution, so they vanish from
    // the configured replacement text too.
    let record = vec!["a\nb".to_string()];
    let out = substitute_record_newlines(&record, "\r--\r");
    assert_eq!(out[0], "a--b");
}

fn fields(items: &[&str]) -> RowParse {
    RowParse::Fields(items.iter().map(|s| s.to_string()).collect())
}

fn count_of(summary: &DiagnosticSummary, pick: impl Fn(&ErrorType) -> bool) -> usize {
    summary
        .errors_by_type
        .iter()
        .filter(|(k, _)| pick(k))
        .map(|(_, v)| v.len())
        .sum()
}

#[test]
fn test_diagnose_field_count_mismatch() {
    let rows = vec![fields(&["1", "2", "3"]), fields(&["4", "5"]), fields(&["6"])];
    let summary =
        csv_schema::diagnose::diagnose_rows(true, 3, None, &rows, ",", 1048576, 100);

    assert_eq!(summary.total_lines, 4); // header plus three data lines
    assert_eq!(summary.problematic_lines, 2);
    assert!(!summary.stopped_at_limit);
    let mismatches = count_of(&summary, |k| {
        matches!(k, ErrorType::FieldCountMismatch { expected: 3, .. })
    });
    assert_eq!(mismatches, 2);
}

#[test]
fn test_diagnose_badmax_stops() {
    let rows = vec![fields(&["1"]), fields(&["2"]), fields(&["3"])];
    let summary = csv_schema::diagnose::diagnose_rows(true, 2, None, &rows, ",", 1048576, 1);

    assert!(summary.stopped_at_limit);
    assert_eq!(summary.problematic_lines, 1);
    assert_eq!(summary.total_lines, 2); // stopped on the first bad line
}

#[test]
fn test_diagnose_parse_errors_and_messages() {
    let rows = vec![
        fields(&["a", "b"]),
        RowParse::Failed("unclosed quote".to_string()),
    ];
    let summary = csv_schema::diagnose::diagnose_rows(true, 2, None, &rows, ",", 1048576, 100);

    assert_eq!(summary.problematic_lines, 1);
    let (kind, entries) = &summary.errors_by_type[0];
    assert_eq!(kind.message(), "Parse error: unclosed quote");
    assert_eq!(entries[0].line_number, 3);
    assert_eq!(entries[0].content, "Parse error on line 3");
}

#[test]
fn test_diagnose_line_length() {
    let rows = vec![fields(&["aaaa", "bbbb"])];
    let summary = csv_schema::diagnose::diagnose_rows(true, 2, None, &rows, ",", 5, 100);

    assert_eq!(summary.problematic_lines, 1);
    let long = count_of(&summary, |k| {
        matches!(k, ErrorType::LineLengthExceeded { max: 5, actual: 9 })
    });
    assert_eq!(long, 1);
    assert_eq!(
        summary.errors_by_type[0].0.message(),
        "Line length exceeded: 9 bytes (max 5)"
    );
}

#[test]
fn test_diagnose_noheader_autodetects_fields() {
    let rows = vec![fields(&["1", "2"]), fields(&["3"])];
    let summary = csv_schema::diagnose::diagnose_rows(false, 0, None, &rows, ",", 1048576, 100);

    assert_eq!(summary.total_lines, 2);
    assert_eq!(summary.problematic_lines, 1);
    let mismatches = count_of(&summary, |k| {
        matches!(
            k,
            ErrorType::FieldCountMismatch {
                expected: 2,
                actual: 1
            }
        )
    });
    assert_eq!(mismatches, 1);
}

#[test]
fn test_diagnose_fields_override() {
    // An explicit field expectation wins over the header width.
    let rows = vec![fields(&["1", "2", "3"])];
    let summary =
        csv_schema::diagnose::diagnose_rows(true, 3, Some(4), &rows, ",", 1048576, 100);
    let mismatches = count_of(&summary, |k| {
        matches!(
            k,
            ErrorType::FieldCountMismatch {
                expected: 4,
                actual: 3
            }
        )
    });
    assert_eq!(mismatches, 1);
}

#[test]
fn test_error_type_messages() {
    assert_eq!(
        ErrorType::FieldCountMismatch {
            expected: 3,
            actual: 2
        }
        .message(),
        "Field count mismatch: expected 3, got 2"
    );
    assert_eq!(
        ErrorType::QuoteError("bad quote".to_string()).message(),
        "Quote error: bad quote"
    );
    assert_eq!(
        ErrorType::EncodingError("bad byte".to_string()).message(),
        "Encoding error: bad byte"
    );
}

#[test]
fn test_diagnose_clean_rows() {
    let rows = vec![fields(&["1", "2"]), fields(&["3", "4"])];
    let summary = csv_schema::diagnose::diagnose_rows(true, 2, None, &rows, ",", 1048576, 100);
    assert_eq!(summary.problematic_lines, 0);
    assert!(summary.errors_by_type.is_empty());
    assert!(!summary.stopped_at_limit);
}
