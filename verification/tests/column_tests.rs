use csv_schema::classify::TypeInferencer;
use csv_schema::column::ColumnAnalyzer;
use csv_schema::types::SqlType;

#[test]
fn test_basic_analysis() {
    let inferencer = TypeInferencer::new();
    let mut analyzer = ColumnAnalyzer::new("test_col".to_string(), inferencer, vec![]);

    analyzer.analyze_value("123");
    analyzer.analyze_value("456");
    analyzer.analyze_value("789");

    let stats = analyzer.get_stats();
    assert_eq!(stats.sql_type, SqlType::SmallInt);
    assert_eq!(stats.total_count, 3);
    assert_eq!(stats.null_count, 0);
    assert_eq!(stats.max_length, 3);
}

#[test]
fn column_test_type_promotion() {
    let inferencer = TypeInferencer::new();
    let mut analyzer = ColumnAnalyzer::new("test_col".to_string(), inferencer, vec![]);

    analyzer.analyze_value("123"); // SmallInt
    analyzer.analyze_value("true"); // Boolean -> SmallInt absorbs it, no event
    analyzer.analyze_value("2147483648"); // BigInt -> promotes, one event

    let stats = analyzer.get_stats();
    assert_eq!(stats.sql_type, SqlType::BigInt);
    assert!(stats.type_promotions.len() > 0);
    assert_eq!(stats.type_promotions.len(), 1);
    assert_eq!(stats.type_promotions[0].from, SqlType::SmallInt);
    assert_eq!(stats.type_promotions[0].to, SqlType::BigInt);
    assert_eq!(stats.type_promotions[0].value, "2147483648");
    assert_eq!(
        stats.type_promotions[0].message(),
        "Promoted from SMALLINT to BIGINT due to value: '2147483648'"
    );
}

#[test]
fn column_test_null_handling() {
    let inferencer = TypeInferencer::new();
    let mut analyzer =
        ColumnAnalyzer::new("test_col".to_string(), inferencer, vec!["N/A".to_string()]);

    analyzer.analyze_value("123");
    analyzer.analyze_value("");
    analyzer.analyze_value("NULL");
    analyzer.analyze_value("N/A");
    analyzer.analyze_value("456");

    let stats = analyzer.get_stats();
    assert_eq!(stats.total_count, 5);
    assert_eq!(stats.null_count, 3);
    assert_eq!(stats.sql_type, SqlType::SmallInt);
    assert_eq!(stats.null_percentage_hundredths(), 6000);
    let null_percentage = (stats.null_count as f64 / stats.total_count as f64) * 100.0;
    assert_eq!(null_percentage, 60.0);
}

#[test]
fn test_null_accounting_default_sentinels() {
    let inferencer = TypeInferencer::new();
    let mut analyzer = ColumnAnalyzer::new("col".to_string(), inferencer, vec![]);

    for value in ["123", "", "NULL", "456"] {
        analyzer.analyze_value(value);
    }

    let stats = analyzer.get_stats();
    assert_eq!(stats.null_count, 2);
    assert_eq!(stats.total_count, 4);
    assert_eq!(stats.null_percentage_hundredths(), 5000);
    let null_percentage = (stats.null_count as f64 / stats.total_count as f64) * 100.0;
    assert_eq!(null_percentage, 50.0);
    // Nulls never touch type, length, order or samples.
    assert_eq!(stats.sql_type, SqlType::SmallInt);
    assert_eq!(stats.max_length, 3);
    assert_eq!(stats.sample_values, vec!["123".to_string(), "456".to_string()]);
}

#[test]
fn test_varchar_sizing() {
    let inferencer = TypeInferencer::new();
    let mut analyzer = ColumnAnalyzer::new("test_col".to_string(), inferencer, vec![]);

    analyzer.analyze_value("short");
    analyzer.analyze_value("a much longer string value");

    let stats = analyzer.get_stats();
    assert_eq!(stats.sql_type, SqlType::Varchar(Some(26)));
    assert_eq!(stats.max_length, 26);
}

#[test]
fn test_categorical_detection() {
    let inferencer = TypeInferencer::new();
    let mut analyzer = ColumnAnalyzer::new("status".to_string(), inferencer, vec![]);

    // Add many values but only a few unique ones
    for _ in 0..100 {
        analyzer.analyze_value("active");
    }
    for _ in 0..50 {
        analyzer.analyze_value("inactive");
    }
    for _ in 0..25 {
        analyzer.analyze_value("pending");
    }

    assert!(analyzer.is_likely_categorical());
    assert_eq!(analyzer.unique_value_count(), 3);
    let stats = analyzer.get_stats();
    let non_null = (stats.total_count - stats.null_count) as f64;
    let cardinality_ratio = analyzer.unique_value_count() as f64 / non_null;
    assert!(cardinality_ratio < 0.1);
}

#[test]
fn test_min_max_tracking() {
    let inferencer = TypeInferencer::new();
    let mut analyzer = ColumnAnalyzer::new("col".to_string(), inferencer, vec![]);

    analyzer.analyze_value("banana");
    analyzer.analyze_value("apple");
    analyzer.analyze_value("cherry");

    let stats = analyzer.get_stats();
    assert_eq!(stats.min_value.as_deref(), Some("apple"));
    assert_eq!(stats.max_value.as_deref(), Some("cherry"));
}

#[test]
fn test_sample_values_capped_and_distinct() {
    let inferencer = TypeInferencer::new();
    let mut analyzer = ColumnAnalyzer::new("col".to_string(), inferencer, vec![]);

    for i in 0..25 {
        analyzer.analyze_value(&format!("v{}", i));
        analyzer.analyze_value(&format!("v{}", i));
    }

    let stats = analyzer.get_stats();
    assert_eq!(stats.sample_values.len(), 10);
    for i in 0..10 {
        assert_eq!(stats.sample_values[i], format!("v{}", i));
    }
    assert_eq!(analyzer.unique_value_count(), 25);
}

#[test]
fn test_unique_values_capped() {
    let inferencer = TypeInferencer::new();
    let mut analyzer = ColumnAnalyzer::new("col".to_string(), inferencer, vec![]);

    for i in 0..1500 {
        analyzer.analyze_value(&format!("value-{}", i));
    }

    // The distinct-value tracker freezes at its cap; further distinct values
    // go silently untracked by design.
    assert_eq!(analyzer.unique_value_count(), 1000);
}

#[test]
fn test_finalize_large_text_widens() {
    let inferencer = TypeInferencer::new();
    let mut analyzer = ColumnAnalyzer::new("col".to_string(), inferencer, vec![]);

    let long_value = "x".repeat(4001);
    analyzer.analyze_value(&long_value);
    assert_eq!(analyzer.get_stats().sql_type, SqlType::Varchar(Some(4001)));

    analyzer.finalize();
    assert_eq!(analyzer.get_stats().sql_type, SqlType::Varchar(None));
}

#[test]
fn test_finalize_keeps_threshold_bound() {
    let inferencer = TypeInferencer::new();
    let mut analyzer = ColumnAnalyzer::new("col".to_string(), inferencer, vec![]);

    let value = "x".repeat(4000);
    analyzer.analyze_value(&value);
    analyzer.finalize();
    assert_eq!(analyzer.get_stats().sql_type, SqlType::Varchar(Some(4000)));
}

#[test]
fn test_values_trimmed_before_accounting() {
    let inferencer = TypeInferencer::new();
    let mut analyzer = ColumnAnalyzer::new("col".to_string(), inferencer, vec![]);

    analyzer.analyze_value("  42  ");
    analyzer.analyze_value("   ");

    let stats = analyzer.get_stats();
    // The padded number is measured and classified after trimming; the
    // all-whitespace value trims to the empty string, a null sentinel.
    assert_eq!(stats.sql_type, SqlType::SmallInt);
    assert_eq!(stats.max_length, 2);
    assert_eq!(stats.null_count, 1);
    assert_eq!(stats.total_count, 2);
}

#[test]
fn test_all_null_column_reads_categorical() {
    let inferencer = TypeInferencer::new();
    let mut analyzer = ColumnAnalyzer::new("col".to_string(), inferencer, vec![]);
    analyzer.analyze_value("NULL");
    // With no non-null value the cardinality ratio counts as zero, and the
    // distinct count of zero is under twenty: the heuristic says categorical.
    assert!(analyzer.is_likely_categorical());
    assert_eq!(analyzer.unique_value_count(), 0);
    assert!(analyzer.get_stats().is_nullable());
    assert_eq!(analyzer.get_stats().null_percentage_hundredths(), 10000);
}

#[test]
fn test_high_cardinality_not_categorical() {
    let inferencer = TypeInferencer::new();
    let mut analyzer = ColumnAnalyzer::new("col".to_string(), inferencer, vec![]);
    for i in 0..30 {
        analyzer.analyze_value(&format!("distinct-{}", i));
    }
    // Thirty values, all distinct: the ratio is 1 and the distinct count is
    // not under twenty.
    assert!(!analyzer.is_likely_categorical());
}
