use csv_schema::database::{
    get_database_dialect, ConfigurableDialect, DatabaseConfig, DatabaseDialect, DatabaseError,
};
use csv_schema::types::SqlType;

fn all_types() -> Vec<SqlType> {
    vec![
        SqlType::Boolean,
        SqlType::SmallInt,
        SqlType::Integer,
        SqlType::BigInt,
        SqlType::DoublePrecision,
        SqlType::Date,
        SqlType::Time,
        SqlType::DateTime,
        SqlType::Varchar(None),
        SqlType::Varchar(Some(0)),
        SqlType::Varchar(Some(5)),
        SqlType::Varchar(Some(26)),
        SqlType::Varchar(Some(4001)),
    ]
}

#[test]
fn test_promote_commutative_and_idempotent() {
    let types = all_types();
    for a in &types {
        assert_eq!(a.promote(a), *a);
        for b in &types {
            assert_eq!(a.promote(b), b.promote(a));
        }
    }
}

#[test]
fn test_promote_varchar_unbounded_maximal() {
    for b in &all_types() {
        assert_eq!(SqlType::Varchar(None).promote(b), SqlType::Varchar(None));
    }
}

#[test]
fn test_promote_examples() {
    assert_eq!(
        SqlType::Boolean.promote(&SqlType::SmallInt),
        SqlType::SmallInt
    );
    assert_eq!(
        SqlType::SmallInt.promote(&SqlType::BigInt),
        SqlType::BigInt
    );
    assert_eq!(
        SqlType::Date.promote(&SqlType::Time),
        SqlType::Varchar(None)
    );
    assert_eq!(
        SqlType::Varchar(Some(5)).promote(&SqlType::Varchar(Some(26))),
        SqlType::Varchar(Some(26))
    );
    assert_eq!(
        SqlType::Varchar(Some(5)).promote(&SqlType::Varchar(None)),
        SqlType::Varchar(None)
    );
}

#[test]
fn test_display_name() {
    assert_eq!(SqlType::DoublePrecision.display_name(), "DOUBLE PRECISION");
    assert_eq!(SqlType::Varchar(Some(26)).display_name(), "VARCHAR(26)");
    assert_eq!(SqlType::Varchar(None).display_name(), "VARCHAR");
}

#[test]
fn test_postgresql_mapping() {
    let pg = csv_schema::database::PostgreSQL;
    assert_eq!(pg.map_type(&SqlType::Boolean), "BOOLEAN");
    assert_eq!(pg.map_type(&SqlType::DateTime), "TIMESTAMP");
    assert_eq!(pg.map_type(&SqlType::Varchar(None)), "TEXT");
}

#[test]
fn test_mysql_mapping() {
    let mysql = csv_schema::database::MySQL;
    assert_eq!(mysql.map_type(&SqlType::DoublePrecision), "DOUBLE");
    assert_eq!(mysql.map_type(&SqlType::DateTime), "DATETIME");
}

#[test]
fn test_netezza_mapping() {
    let netezza = csv_schema::database::Netezza;
    assert_eq!(netezza.map_type(&SqlType::Varchar(None)), "VARCHAR(65535)");
}

#[test]
fn test_database_factory() {
    assert!(get_database_dialect("postgresql").is_ok());
    assert!(get_database_dialect("mysql").is_ok());
    assert!(get_database_dialect("netezza").is_ok());
    assert!(get_database_dialect("unsupported").is_err());
}

#[test]
fn test_database_factory_unsupported_message() {
    let err = get_database_dialect("oracle").unwrap_err();
    assert_eq!(err.message(), "Unsupported database: oracle");
}

fn lookup<'a>(m: &'a [(String, String)], key: &str) -> Option<&'a str> {
    m.iter().find(|(k, _)| k == key).map(|(_, v)| v.as_str())
}

#[test]
fn test_builtin_database_configs() {
    let configs = DatabaseConfig::to_builtin_databases();

    assert!(configs.iter().any(|(k, _)| k == "postgresql"));
    assert!(configs.iter().any(|(k, _)| k == "mysql"));
    assert!(configs.iter().any(|(k, _)| k == "netezza"));

    let pg_config = &configs.iter().find(|(k, _)| k == "postgresql").unwrap().1;
    assert_eq!(pg_config.name, "PostgreSQL");
    assert_eq!(lookup(&pg_config.type_mappings, "Boolean"), Some("BOOLEAN"));
}

fn oracle_style_config() -> DatabaseConfig {
    let pairs = vec![
        ("Boolean", "CHAR(1)"),
        ("SmallInt", "NUMBER(5)"),
        ("Integer", "NUMBER(10)"),
        ("BigInt", "NUMBER(19)"),
        ("DoublePrecision", "BINARY_DOUBLE"),
        ("Date", "DATE"),
        ("Time", "TIMESTAMP"),
        ("DateTime", "TIMESTAMP"),
        ("Varchar", "VARCHAR2({})"),
        ("VarcharUnlimited", "CLOB"),
    ];
    DatabaseConfig {
        name: "Oracle".to_string(),
        type_mappings: pairs
            .into_iter()
            .map(|(k, v)| (k.to_string(), v.to_string()))
            .collect(),
        features: vec![
            ("unlimited_varchar".to_string(), true),
            ("boolean_type".to_string(), false),
        ],
        default_varchar_length: Some(4000),
        unlimited_varchar_type: "CLOB".to_string(),
    }
}

#[test]
fn test_configurable_dialect_mapping() {
    let config = oracle_style_config();
    assert!(config.validate().is_ok());
    let dialect = ConfigurableDialect::new(config);
    assert_eq!(dialect.map_type(&SqlType::Boolean), "CHAR(1)");
    assert_eq!(dialect.map_type(&SqlType::Integer), "NUMBER(10)");
    assert_eq!(dialect.map_type(&SqlType::Varchar(Some(100))), "VARCHAR2(100)");
    assert_eq!(dialect.map_type(&SqlType::Varchar(None)), "CLOB");
}

#[test]
fn test_config_validation_missing_mapping() {
    let config = DatabaseConfig {
        name: "InvalidDB".to_string(),
        type_mappings: vec![("Boolean".to_string(), "BOOL".to_string())],
        features: Vec::new(),
        default_varchar_length: None,
        unlimited_varchar_type: "TEXT".to_string(),
    };
    let result = config.validate();
    assert!(result.is_err());
    match result.unwrap_err() {
        DatabaseError::MissingMapping(key) => assert_eq!(key, "SmallInt"),
        other => panic!("unexpected error: {:?}", other),
    }
}
