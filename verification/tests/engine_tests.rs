use csv_schema::database::{get_database_dialect, DatabaseDialect};
use csv_schema::inference::{AnalysisError, StreamingInferenceEngine};
use csv_schema::types::SqlType;

fn strings(items: &[&str]) -> Vec<String> {
    items.iter().map(|s| s.to_string()).collect()
}

fn rows(data: &[&[&str]]) -> Vec<Vec<String>> {
    data.iter().map(|r| strings(r)).collect()
}

fn engine(null_values: Vec<String>, max_errors: usize) -> StreamingInferenceEngine {
    StreamingInferenceEngine::new(null_values, None, None, None, max_errors, false, " ".to_string())
}

#[test]
fn test_basic_inference() {
    let mut engine = engine(vec![], 100);
    let data = rows(&[
        &["1", "Alice", "25", "true"],
        &["2", "Bob", "30", "false"],
        &["3", "Charlie", "35", "true"],
    ]);

    let stats = engine
        .analyze(strings(&["id", "name", "age", "active"]), &data)
        .unwrap();

    assert_eq!(stats.len(), 4);
    assert_eq!(stats[0].name, "id");
    assert_eq!(stats[0].sql_type, SqlType::SmallInt);
    assert_eq!(stats[1].name, "name");
    assert_eq!(stats[2].name, "age");
    assert_eq!(stats[2].sql_type, SqlType::SmallInt);
    assert_eq!(stats[3].name, "active");
    assert_eq!(stats[3].sql_type, SqlType::Boolean);
}

#[test]
fn inference_test_null_handling() {
    let mut engine = engine(vec!["NULL".to_string()], 100);
    let data = rows(&[&["1", "100"], &["2", ""], &["3", "NULL"], &["4", "200"]]);

    let stats = engine.analyze(strings(&["id", "value"]), &data).unwrap();

    assert_eq!(stats.len(), 2);
    assert_eq!(stats[1].null_count, 2); // Empty string and "NULL"
    assert_eq!(stats[1].total_count, 4);
    let null_percentage =
        (stats[1].null_count as f64 / stats[1].total_count as f64) * 100.0;
    assert_eq!(null_percentage, 50.0);
}

#[test]
fn inference_test_type_promotion() {
    let mut engine = engine(vec![], 100);
    let data = rows(&[&["123"], &["true"], &["456.78"], &["hello"]]);

    let stats = engine.analyze(strings(&["mixed"]), &data).unwrap();

    assert_eq!(stats.len(), 1);
    // The column widens SmallInt -> DoublePrecision -> Varchar; the final
    // bound is the length of the last value, while max_length remembers the
    // longest one seen.
    assert_eq!(stats[0].sql_type, SqlType::Varchar(Some(5)));
    assert_eq!(stats[0].max_length, 6);
    assert!(!stats[0].type_promotions.is_empty());
}

#[test]
fn test_missing_columns() {
    let mut engine = engine(vec![], 0);
    // Second row missing a field, third row missing two.
    let data = rows(&[&["1", "2", "3"], &["4", "5"], &["6"]]);

    // With max_errors = 0, this fails on the first field count mismatch.
    let result = engine.analyze(strings(&["a", "b", "c"]), &data);
    assert!(result.is_err());
    assert!(result.unwrap_err().message().contains("Parsing failed"));
}

#[test]
fn test_field_count_mismatch_aborts_immediately() {
    let mut engine = engine(vec![], 0);
    let data = rows(&[&["1", "2"]]);

    let result = engine.analyze(strings(&["a", "b", "c"]), &data);
    match result {
        Err(AnalysisError::TooManyErrors {
            error_count,
            max_errors,
        }) => {
            assert_eq!(error_count, 1);
            assert_eq!(max_errors, 0);
        }
        Ok(_) => panic!("analysis unexpectedly succeeded"),
    }
}

#[test]
fn test_mismatched_row_skipped_under_budget() {
    let mut engine = engine(vec![], 100);
    let data = rows(&[&["1", "2"], &["3", "4", "5"], &["6", "7", "8"]]);

    let stats = engine.analyze(strings(&["a", "b", "c"]), &data).unwrap();
    // The short row reached no aggregator: only two rows counted per column.
    assert_eq!(stats[0].total_count, 2);
    let summary = engine.get_summary();
    assert_eq!(summary.total_rows, 3);
    assert_eq!(summary.error_count, 1);
}

#[test]
fn test_newline_substitution_in_fields() {
    let mut engine = StreamingInferenceEngine::new(
        vec![],
        None,
        None,
        None,
        100,
        false,
        " | ".to_string(),
    );
    let data = rows(&[&["Line1\nLine2\r"]]);

    let stats = engine.analyze(strings(&["notes"]), &data).unwrap();
    assert_eq!(stats[0].sample_values[0], "Line1 | Line2");
}

#[test]
fn test_summary_layout() {
    let mut engine = engine(vec![], 100);
    let data = rows(&[&["1", "x"], &["2", "y"]]);
    engine.analyze(strings(&["id", "name"]), &data).unwrap();

    let summary = engine.get_summary();
    assert_eq!(summary.total_rows, 2);
    assert_eq!(summary.total_columns, 2);
    assert_eq!(summary.error_count, 0);
    assert_eq!(summary.headers, vec!["id".to_string(), "name".to_string()]);
}

#[test]
fn test_duplicate_headers_kept_apart() {
    let mut engine = engine(vec![], 100);
    let data = rows(&[&["7", "hello"]]);

    let stats = engine.analyze(strings(&["x", "x"]), &data).unwrap();
    assert_eq!(stats.len(), 2);
    assert_eq!(stats[0].sql_type, SqlType::SmallInt);
    assert_eq!(stats[1].sql_type, SqlType::Varchar(Some(5)));
}

#[test]
fn test_engine_to_ddl_flow() {
    let mut engine = engine(vec![], 100);
    let data = rows(&[&["7", "true"], &["8", "false"]]);
    let stats = engine.analyze(strings(&["id", "active"]), &data).unwrap();

    let pg = get_database_dialect("postgres").unwrap();
    assert_eq!(pg.map_type(&stats[0].sql_type), "SMALLINT");
    assert_eq!(pg.map_type(&stats[1].sql_type), "BOOLEAN");
    assert!(!stats[0].is_nullable());
    assert!(!stats[1].is_nullable());

    let mysql = get_database_dialect("MySQL").unwrap();
    assert_eq!(mysql.name(), "mysql");
}

#[test]
fn test_engine_date_columns() {
    let mut engine = engine(vec![], 100);
    let data = rows(&[
        &["2023-01-15", "14:30:00", "2023-01-15 14:30:00"],
        &["2023-02-20", "9:15:30", "2023-02-20 9:15:30"],
    ]);
    let stats = engine
        .analyze(strings(&["date_col", "time_col", "ts_col"]), &data)
        .unwrap();
    assert_eq!(stats[0].sql_type, SqlType::Date);
    assert_eq!(stats[1].sql_type, SqlType::Time);
    assert_eq!(stats[2].sql_type, SqlType::DateTime);
}

#[test]
fn test_analysis_error_message() {
    let err = AnalysisError::TooManyErrors {
        error_count: 1,
        max_errors: 0,
    };
    assert_eq!(err.message(), "Parsing failed with 1 error(s)");
}
