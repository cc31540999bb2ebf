use csv_schema::classify::TypeInferencer;
use csv_schema::types::SqlType;

#[test]
fn test_boolean_inference() {
    let inferencer = TypeInferencer::new();

    assert_eq!(inferencer.infer_type("true"), SqlType::Boolean);
    assert_eq!(inferencer.infer_type("TRUE"), SqlType::Boolean);
    assert_eq!(inferencer.infer_type("false"), SqlType::Boolean);
    assert_eq!(inferencer.infer_type("FALSE"), SqlType::Boolean);
    assert_eq!(inferencer.infer_type("1"), SqlType::Boolean);
    assert_eq!(inferencer.infer_type("0"), SqlType::Boolean);
    assert_eq!(inferencer.infer_type("yes"), SqlType::Boolean);
    assert_eq!(inferencer.infer_type("no"), SqlType::Boolean);
}

#[test]
fn test_integer_inference() {
    let inferencer = TypeInferencer::new();

    assert_eq!(inferencer.infer_type("100"), SqlType::SmallInt);
    assert_eq!(inferencer.infer_type("32767"), SqlType::SmallInt);
    assert_eq!(inferencer.infer_type("32768"), SqlType::Integer);
    assert_eq!(inferencer.infer_type("2147483647"), SqlType::Integer);
    assert_eq!(inferencer.infer_type("2147483648"), SqlType::BigInt);
    assert_eq!(inferencer.infer_type("-32768"), SqlType::SmallInt);
    assert_eq!(inferencer.infer_type("-32769"), SqlType::Integer);
}

#[test]
fn test_integer_beyond_sixty_four_bits() {
    let inferencer = TypeInferencer::new();
    assert_eq!(
        inferencer.infer_type("9223372036854775807"),
        SqlType::BigInt
    );
    assert_eq!(
        inferencer.infer_type("-9223372036854775808"),
        SqlType::BigInt
    );
    assert_eq!(
        inferencer.infer_type("9223372036854775808"),
        SqlType::DoublePrecision
    );
}

#[test]
fn test_double_inference() {
    let inferencer = TypeInferencer::new();

    assert_eq!(inferencer.infer_type("3.14"), SqlType::DoublePrecision);
    assert_eq!(inferencer.infer_type("1.23e-4"), SqlType::DoublePrecision);
    assert_eq!(inferencer.infer_type("-2.5E+10"), SqlType::DoublePrecision);
    assert_eq!(inferencer.infer_type(".5"), SqlType::DoublePrecision);
}

#[test]
fn patterns_test_date_inference() {
    let inferencer = TypeInferencer::new();

    assert_eq!(inferencer.infer_type("2023-12-25"), SqlType::Date);
    assert_eq!(inferencer.infer_type("2023-01-01"), SqlType::Date);
}

#[test]
fn patterns_test_time_inference() {
    let inferencer = TypeInferencer::new();

    assert_eq!(inferencer.infer_type("14:30:00"), SqlType::Time);
    assert_eq!(inferencer.infer_type("9:15:30"), SqlType::Time);
}

#[test]
fn patterns_test_datetime_inference() {
    let inferencer = TypeInferencer::new();

    assert_eq!(
        inferencer.infer_type("2023-12-25 14:30:00"),
        SqlType::DateTime
    );
    assert_eq!(
        inferencer.infer_type("2023-01-01 9:15:30"),
        SqlType::DateTime
    );
}

#[test]
fn test_varchar_inference() {
    let inferencer = TypeInferencer::new();

    assert_eq!(inferencer.infer_type("hello"), SqlType::Varchar(Some(5)));
    assert_eq!(
        inferencer.infer_type("test string"),
        SqlType::Varchar(Some(11))
    );
    assert_eq!(inferencer.infer_type(""), SqlType::Varchar(Some(1)));
}

#[test]
fn test_custom_boolean_values() {
    let inferencer = TypeInferencer::new().with_boolean_values(
        vec!["ON".to_string(), "ENABLED".to_string()],
        vec!["OFF".to_string(), "DISABLED".to_string()],
    );

    assert_eq!(inferencer.infer_type("ON"), SqlType::Boolean);
    assert_eq!(inferencer.infer_type("ENABLED"), SqlType::Boolean);
    assert_eq!(inferencer.infer_type("OFF"), SqlType::Boolean);
    assert_eq!(inferencer.infer_type("DISABLED"), SqlType::Boolean);

    // Default boolean values should no longer work
    assert_eq!(inferencer.infer_type("true"), SqlType::Varchar(Some(4)));
}

#[test]
fn test_invalid_calendar_values_fall_through() {
    let inferencer = TypeInferencer::new();

    // The right shape but no valid calendar value: chrono rejects these, so
    // they read as character data of their own length.
    assert_eq!(inferencer.infer_type("2023-13-45"), SqlType::Varchar(Some(10)));
    assert_eq!(inferencer.infer_type("25:61:61"), SqlType::Varchar(Some(8)));
    assert_eq!(
        inferencer.infer_type("2023-02-30 10:00:00"),
        SqlType::Varchar(Some(19))
    );
}

#[test]
fn test_custom_date_format() {
    let inferencer =
        TypeInferencer::with_formats(Some("%d/%m/%Y".to_string()), None, None);
    assert_eq!(inferencer.infer_type("25/12/2023"), SqlType::Date);
    assert_eq!(inferencer.infer_type("2023-12-25"), SqlType::Date);
}

#[test]
fn test_values_trimmed_before_classification() {
    let inferencer = TypeInferencer::new();
    assert_eq!(inferencer.infer_type("  42  "), SqlType::SmallInt);
    assert_eq!(inferencer.infer_type("\ttrue\n"), SqlType::Boolean);
    assert_eq!(inferencer.infer_type(" hi "), SqlType::Varchar(Some(2)));
}
