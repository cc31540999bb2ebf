//! Database dialects: how each supported target renders the inferred column
//! types, as the built-in PostgreSQL, MySQL and Netezza dialects or as a
//! configurable mapping table.

use vstd::prelude::*;

use crate::strutil::{
    eq_ignore_ascii_case, spec_eq_ignore_ascii_case, spec_nat_digits, str_eq_str, usize_to_string,
};
use crate::types::{
    spec_mysql_ddl, spec_netezza_ddl, spec_postgres_ddl, SqlType,
};

verus! {

/// A capability a target database may or may not have.
#[derive(Debug, Clone, Copy, PartialEq, Eq, Structural)]
pub enum DatabaseFeature {
    UnlimitedVarchar,
    BooleanType,
    DoublePrecision,
    TimestampType,
}

/// Why a dialect could not be produced or a configuration was rejected.
#[derive(Debug)]
pub enum DatabaseError {
    UnsupportedDatabase(String),
    MissingMapping(String),
}

impl DatabaseError {
    /// The failure text naming the offending database or mapping key.
    pub fn message(&self) -> (r: String)
        ensures
            (match *self {
                DatabaseError::UnsupportedDatabase(ref n) => r@ == "Unsupported database: "@
                    + n@,
                DatabaseError::MissingMapping(ref k) => r@ == "Missing type mapping for: "@ + k@,
            }),
    {
        match self {
            DatabaseError::UnsupportedDatabase(n) => {
                let mut m = "Unsupported database: ".to_owned();
                m.append(n.as_str());
                m
            },
            DatabaseError::MissingMapping(k) => {
                let mut m = "Missing type mapping for: ".to_owned();
                m.append(k.as_str());
                m
            },
        }
    }
}

/// One target database's rendering rules: its name, how it writes each
/// column type, and which capabilities it has.
pub trait DatabaseDialect {
    /// The dialect's name in specifications.
    spec fn spec_name(&self) -> Seq<char>;

    /// The dialect's type rendering in specifications.
    spec fn spec_map_type(&self, t: SqlType) -> Seq<char>;

    /// The dialect's capabilities in specifications.
    spec fn spec_supports(&self, f: DatabaseFeature) -> bool;

    /// The dialect's name.
    fn name(&self) -> (r: &'static str)
        ensures
            r@ == self.spec_name(),
    ;

    /// The column type as this dialect writes it.
    fn map_type(&self, sql_type: &SqlType) -> (r: String)
        ensures
            r@ == self.spec_map_type(*sql_type),
    ;

    /// Whether this dialect has the capability.
    fn supports_feature(&self, feature: DatabaseFeature) -> (r: bool)
        ensures
            r == self.spec_supports(feature),
    ;
}

/// The PostgreSQL dialect.
#[derive(Debug, Clone, Copy)]
pub struct PostgreSQL;

/// The MySQL dialect.
#[derive(Debug, Clone, Copy)]
pub struct MySQL;

/// The Netezza dialect.
#[derive(Debug, Clone, Copy)]
pub struct Netezza;

impl DatabaseDialect for PostgreSQL {
    open spec fn spec_name(&self) -> Seq<char> {
        "postgresql"@
    }

    open spec fn spec_map_type(&self, t: SqlType) -> Seq<char> {
        spec_postgres_ddl(t)
    }

    open spec fn spec_supports(&self, f: DatabaseFeature) -> bool {
        true
    }

    fn name(&self) -> (r: &'static str) {
        "postgresql"
    }

    fn map_type(&self, sql_type: &SqlType) -> (r: String) {
        sql_type.to_postgres_ddl()
    }

    fn supports_feature(&self, feature: DatabaseFeature) -> (r: bool) {
        match feature {
            DatabaseFeature::UnlimitedVarchar => true,
            DatabaseFeature::BooleanType => true,
            DatabaseFeature::DoublePrecision => true,
            DatabaseFeature::TimestampType => true,
        }
    }
}

impl DatabaseDialect for MySQL {
    open spec fn spec_name(&self) -> Seq<char> {
        "mysql"@
    }

    open spec fn spec_map_type(&self, t: SqlType) -> Seq<char> {
        spec_mysql_ddl(t)
    }

    open spec fn spec_supports(&self, f: DatabaseFeature) -> bool {
        f == DatabaseFeature::UnlimitedVarchar || f == DatabaseFeature::BooleanType
    }

    fn name(&self) -> (r: &'static str) {
        "mysql"
    }

    fn map_type(&self, sql_type: &SqlType) -> (r: String) {
        sql_type.to_mysql_ddl()
    }

    fn supports_feature(&self, feature: DatabaseFeature) -> (r: bool) {
        match feature {
            DatabaseFeature::UnlimitedVarchar => true,
            DatabaseFeature::BooleanType => true,
            DatabaseFeature::DoublePrecision => false,
            DatabaseFeature::TimestampType => false,
        }
    }
}

impl DatabaseDialect for Netezza {
    open spec fn spec_name(&self) -> Seq<char> {
        "netezza"@
    }

    open spec fn spec_map_type(&self, t: SqlType) -> Seq<char> {
        spec_netezza_ddl(t)
    }

    open spec fn spec_supports(&self, f: DatabaseFeature) -> bool {
        f != DatabaseFeature::UnlimitedVarchar
    }

    fn name(&self) -> (r: &'static str) {
        "netezza"
    }

    fn map_type(&self, sql_type: &SqlType) -> (r: String) {
        sql_type.to_netezza_ddl()
    }

    fn supports_feature(&self, feature: DatabaseFeature) -> (r: bool) {
        match feature {
            DatabaseFeature::UnlimitedVarchar => false,
            DatabaseFeature::BooleanType => true,
            DatabaseFeature::DoublePrecision => true,
            DatabaseFeature::TimestampType => true,
        }
    }
}

/// First value bound to the key in an association list.
pub open spec fn spec_assoc_get(m: Seq<(Seq<char>, Seq<char>)>, k: Seq<char>) -> Option<Seq<char>>
    decreases m.len(),
{
    if m.len() == 0 {
        None
    } else if m[0].0 == k {
        Some(m[0].1)
    } else {
        spec_assoc_get(m.drop_first(), k)
    }
}

/// First flag bound to the key in an association list.
pub open spec fn spec_assoc_get_bool(m: Seq<(Seq<char>, bool)>, k: Seq<char>) -> Option<bool>
    decreases m.len(),
{
    if m.len() == 0 {
        None
    } else if m[0].0 == k {
        Some(m[0].1)
    } else {
        spec_assoc_get_bool(m.drop_first(), k)
    }
}

/// Looks the key up in an association list of texts, first match first.
fn assoc_get(m: &Vec<(String, String)>, k: &str) -> (r: Option<String>)
    ensures
        (match r {
            Some(v) => spec_assoc_get(m.deep_view(), k@) == Some(v@),
            None => spec_assoc_get(m.deep_view(), k@) is None,
        }),
{
    let n = m.len();
    let mut i: usize = 0;
    proof {
        assert(m.deep_view().skip(0) =~= m.deep_view());
    }
    while i < n
        invariant
            n == m@.len(),
            i <= n,
            spec_assoc_get(m.deep_view(), k@) == spec_assoc_get(m.deep_view().skip(i as int), k@),
        decreases n - i,
    {
        if str_eq_str(m[i].0.as_str(), k) {
            proof {
                assert(m.deep_view().skip(i as int)[0] == m.deep_view()[i as int]);
            }
            return Some(m[i].1.clone());
        }
        proof {
            assert(m.deep_view().skip(i as int)[0] == m.deep_view()[i as int]);
            assert(m.deep_view().skip(i as int).drop_first() =~= m.deep_view().skip(i as int + 1));
        }
        i = i + 1;
    }
    None
}

/// Looks the key up in an association list of flags, first match first.
fn assoc_get_bool(m: &Vec<(String, bool)>, k: &str) -> (r: Option<bool>)
    ensures
        r == spec_assoc_get_bool(m.deep_view(), k@),
{
    let n = m.len();
    let mut i: usize = 0;
    proof {
        assert(m.deep_view().skip(0) =~= m.deep_view());
    }
    while i < n
        invariant
            n == m@.len(),
            i <= n,
            spec_assoc_get_bool(m.deep_view(), k@) == spec_assoc_get_bool(
                m.deep_view().skip(i as int),
                k@,
            ),
        decreases n - i,
    {
        if str_eq_str(m[i].0.as_str(), k) {
            proof {
                assert(m.deep_view().skip(i as int)[0] == m.deep_view()[i as int]);
            }
            return Some(m[i].1);
        }
        proof {
            assert(m.deep_view().skip(i as int)[0] == m.deep_view()[i as int]);
            assert(m.deep_view().skip(i as int).drop_first() =~= m.deep_view().skip(i as int + 1));
        }
        i = i + 1;
    }
    None
}

/// A custom target database described by data: a display name, a mapping
/// from each column type to its rendering (with `{}` as the bound's place in
/// the bounded character template), capability flags, and the rendering of
/// unbounded character data.
#[derive(Debug)]
pub struct DatabaseConfig {
    pub name: String,
    pub type_mappings: Vec<(String, String)>,
    pub features: Vec<(String, bool)>,
    pub default_varchar_length: Option<usize>,
    pub unlimited_varchar_type: String,
}

/// The key of the first required type mapping the configuration lacks.
pub open spec fn spec_first_missing_mapping(m: Seq<(Seq<char>, Seq<char>)>) -> Option<Seq<char>> {
    if spec_assoc_get(m, "Boolean"@) is None {
        Some("Boolean"@)
    } else if spec_assoc_get(m, "SmallInt"@) is None {
        Some("SmallInt"@)
    } else if spec_assoc_get(m, "Integer"@) is None {
        Some("Integer"@)
    } else if spec_assoc_get(m, "BigInt"@) is None {
        Some("BigInt"@)
    } else if spec_assoc_get(m, "DoublePrecision"@) is None {
        Some("DoublePrecision"@)
    } else if spec_assoc_get(m, "Date"@) is None {
        Some("Date"@)
    } else if spec_assoc_get(m, "Time"@) is None {
        Some("Time"@)
    } else if spec_assoc_get(m, "DateTime"@) is None {
        Some("DateTime"@)
    } else if spec_assoc_get(m, "Varchar"@) is None {
        Some("Varchar"@)
    } else if spec_assoc_get(m, "VarcharUnlimited"@) is None {
        Some("VarcharUnlimited"@)
    } else {
        None
    }
}

impl DatabaseConfig {
    /// Checks that every required type mapping is present, and names the
    /// first missing one otherwise.
    pub fn validate(&self) -> (r: Result<(), DatabaseError>)
        ensures
            r is Ok <==> spec_first_missing_mapping(self.type_mappings.deep_view()) is None,
            (r matches Err(e) ==> (match e {
                DatabaseError::MissingMapping(k) => Some(k@) == spec_first_missing_mapping(
                    self.type_mappings.deep_view(),
                ),
                _ => false,
            })),
    {
        if assoc_get(&self.type_mappings, "Boolean").is_none() {
            return Err(DatabaseError::MissingMapping("Boolean".to_owned()));
        }
        if assoc_get(&self.type_mappings, "SmallInt").is_none() {
            return Err(DatabaseError::MissingMapping("SmallInt".to_owned()));
        }
        if assoc_get(&self.type_mappings, "Integer").is_none() {
            return Err(DatabaseError::MissingMapping("Integer".to_owned()));
        }
        if assoc_get(&self.type_mappings, "BigInt").is_none() {
            return Err(DatabaseError::MissingMapping("BigInt".to_owned()));
        }
        if assoc_get(&self.type_mappings, "DoublePrecision").is_none() {
            return Err(DatabaseError::MissingMapping("DoublePrecision".to_owned()));
        }
        if assoc_get(&self.type_mappings, "Date").is_none() {
            return Err(DatabaseError::MissingMapping("Date".to_owned()));
        }
        if assoc_get(&self.type_mappings, "Time").is_none() {
            return Err(DatabaseError::MissingMapping("Time".to_owned()));
        }
        if assoc_get(&self.type_mappings, "DateTime").is_none() {
            return Err(DatabaseError::MissingMapping("DateTime".to_owned()));
        }
        if assoc_get(&self.type_mappings, "Varchar").is_none() {
            return Err(DatabaseError::MissingMapping("Varchar".to_owned()));
        }
        if assoc_get(&self.type_mappings, "VarcharUnlimited").is_none() {
            return Err(DatabaseError::MissingMapping("VarcharUnlimited".to_owned()));
        }
        Ok(())
    }
}

/// The mapping table of the built-in PostgreSQL configuration.
pub open spec fn spec_pg_mappings() -> Seq<(Seq<char>, Seq<char>)> {
    seq![
        ("Boolean"@, "BOOLEAN"@),
        ("SmallInt"@, "SMALLINT"@),
        ("Integer"@, "INTEGER"@),
        ("BigInt"@, "BIGINT"@),
        ("DoublePrecision"@, "DOUBLE PRECISION"@),
        ("Date"@, "DATE"@),
        ("Time"@, "TIME"@),
        ("DateTime"@, "TIMESTAMP"@),
        ("Varchar"@, "VARCHAR({})"@),
        ("VarcharUnlimited"@, "TEXT"@),
    ]
}

/// The mapping table of the built-in MySQL configuration.
pub open spec fn spec_mysql_mappings() -> Seq<(Seq<char>, Seq<char>)> {
    seq![
        ("Boolean"@, "BOOLEAN"@),
        ("SmallInt"@, "SMALLINT"@),
        ("Integer"@, "INTEGER"@),
        ("BigInt"@, "BIGINT"@),
        ("DoublePrecision"@, "DOUBLE"@),
        ("Date"@, "DATE"@),
        ("Time"@, "TIME"@),
        ("DateTime"@, "DATETIME"@),
        ("Varchar"@, "VARCHAR({})"@),
        ("VarcharUnlimited"@, "TEXT"@),
    ]
}

/// The mapping table of the built-in Netezza configuration.
pub open spec fn spec_netezza_mappings() -> Seq<(Seq<char>, Seq<char>)> {
    seq![
        ("Boolean"@, "BOOLEAN"@),
        ("SmallInt"@, "SMALLINT"@),
        ("Integer"@, "INTEGER"@),
        ("BigInt"@, "BIGINT"@),
        ("DoublePrecision"@, "DOUBLE PRECISION"@),
        ("Date"@, "DATE"@),
        ("Time"@, "TIME"@),
        ("DateTime"@, "TIMESTAMP"@),
        ("Varchar"@, "VARCHAR({})"@),
        ("VarcharUnlimited"@, "VARCHAR(65535)"@),
    ]
}

/// The capability flags of the built-in PostgreSQL configuration.
pub open spec fn spec_pg_features() -> Seq<(Seq<char>, bool)> {
    seq![("unlimited_varchar"@, true), ("boolean_type"@, true)]
}

fn pair(k: &str, v: &str) -> (r: (String, String))
    ensures
        r.0@ == k@,
        r.1@ == v@,
{
    (k.to_owned(), v.to_owned())
}

impl DatabaseConfig {
    /// The three configurations the library ships with, keyed by database
    /// name: PostgreSQL, MySQL and Netezza as data.
    pub fn to_builtin_databases() -> (r: Vec<(String, DatabaseConfig)>)
        ensures
            r@.len() == 3,
            r@[0].0@ == "postgresql"@,
            r@[0].1.name@ == "PostgreSQL"@,
            r@[0].1.type_mappings.deep_view() == spec_pg_mappings(),
            r@[0].1.features.deep_view() == spec_pg_features(),
            r@[0].1.default_varchar_length is None,
            r@[0].1.unlimited_varchar_type@ == "TEXT"@,
            r@[1].0@ == "mysql"@,
            r@[1].1.name@ == "MySQL"@,
            r@[1].1.type_mappings.deep_view() == spec_mysql_mappings(),
            r@[1].1.features.deep_view() == Seq::<(Seq<char>, bool)>::empty(),
            r@[1].1.default_varchar_length is None,
            r@[1].1.unlimited_varchar_type@ == "TEXT"@,
            r@[2].0@ == "netezza"@,
            r@[2].1.name@ == "Netezza"@,
            r@[2].1.type_mappings.deep_view() == spec_netezza_mappings(),
            r@[2].1.features.deep_view() == Seq::<(Seq<char>, bool)>::empty(),
            r@[2].1.default_varchar_length == Some(65535usize),
            r@[2].1.unlimited_varchar_type@ == "VARCHAR(65535)"@,
    {
        let mut pg_mappings: Vec<(String, String)> = Vec::new();
        pg_mappings.push(pair("Boolean", "BOOLEAN"));
        pg_mappings.push(pair("SmallInt", "SMALLINT"));
        pg_mappings.push(pair("Integer", "INTEGER"));
        pg_mappings.push(pair("BigInt", "BIGINT"));
        pg_mappings.push(pair("DoublePrecision", "DOUBLE PRECISION"));
        pg_mappings.push(pair("Date", "DATE"));
        pg_mappings.push(pair("Time", "TIME"));
        pg_mappings.push(pair("DateTime", "TIMESTAMP"));
        pg_mappings.push(pair("Varchar", "VARCHAR({})"));
        pg_mappings.push(pair("VarcharUnlimited", "TEXT"));
        proof {
            assert(pg_mappings.deep_view() =~= spec_pg_mappings());
        }
        let mut pg_features: Vec<(String, bool)> = Vec::new();
        pg_features.push(("unlimited_varchar".to_owned(), true));
        pg_features.push(("boolean_type".to_owned(), true));
        proof {
            assert(pg_features.deep_view() =~= spec_pg_features());
        }
        let pg = DatabaseConfig {
            name: "PostgreSQL".to_owned(),
            type_mappings: pg_mappings,
            features: pg_features,
            default_varchar_length: None,
            unlimited_varchar_type: "TEXT".to_owned(),
        };

        let mut mysql_mappings: Vec<(String, String)> = Vec::new();
        mysql_mappings.push(pair("Boolean", "BOOLEAN"));
        mysql_mappings.push(pair("SmallInt", "SMALLINT"));
        mysql_mappings.push(pair("Integer", "INTEGER"));
        mysql_mappings.push(pair("BigInt", "BIGINT"));
        mysql_mappings.push(pair("DoublePrecision", "DOUBLE"));
        mysql_mappings.push(pair("Date", "DATE"));
        mysql_mappings.push(pair("Time", "TIME"));
        mysql_mappings.push(pair("DateTime", "DATETIME"));
        mysql_mappings.push(pair("Varchar", "VARCHAR({})"));
        mysql_mappings.push(pair("VarcharUnlimited", "TEXT"));
        proof {
            assert(mysql_mappings.deep_view() =~= spec_mysql_mappings());
        }
        let mysql = DatabaseConfig {
            name: "MySQL".to_owned(),
            type_mappings: mysql_mappings,
            features: Vec::new(),
            default_varchar_length: None,
            unlimited_varchar_type: "TEXT".to_owned(),
        };

        let mut netezza_mappings: Vec<(String, String)> = Vec::new();
        netezza_mappings.push(pair("Boolean", "BOOLEAN"));
        netezza_mappings.push(pair("SmallInt", "SMALLINT"));
        netezza_mappings.push(pair("Integer", "INTEGER"));
        netezza_mappings.push(pair("BigInt", "BIGINT"));
        netezza_mappings.push(pair("DoublePrecision", "DOUBLE PRECISION"));
        netezza_mappings.push(pair("Date", "DATE"));
        netezza_mappings.push(pair("Time", "TIME"));
        netezza_mappings.push(pair("DateTime", "TIMESTAMP"));
        netezza_mappings.push(pair("Varchar", "VARCHAR({})"));
        netezza_mappings.push(pair("VarcharUnlimited", "VARCHAR(65535)"));
        proof {
            assert(netezza_mappings.deep_view() =~= spec_netezza_mappings());
        }
        let netezza = DatabaseConfig {
            name: "Netezza".to_owned(),
            type_mappings: netezza_mappings,
            features: Vec::new(),
            default_varchar_length: Some(65535),
            unlimited_varchar_type: "VARCHAR(65535)".to_owned(),
        };

        let mut configs: Vec<(String, DatabaseConfig)> = Vec::new();
        configs.push(("postgresql".to_owned(), pg));
        configs.push(("mysql".to_owned(), mysql));
        configs.push(("netezza".to_owned(), netezza));
        proof {
            assert(configs@[1].1.features.deep_view() =~= Seq::<(Seq<char>, bool)>::empty());
            assert(configs@[2].1.features.deep_view() =~= Seq::<(Seq<char>, bool)>::empty());
        }
        configs
    }
}

/// The text with every `{}` replaced by `rep`, leftmost first.
pub open spec fn spec_replace_braces(s: Seq<char>, rep: Seq<char>) -> Seq<char>
    decreases s.len(),
{
    if s.len() >= 2 && s[0] == '{' && s[1] == '}' {
        rep + spec_replace_braces(s.skip(2), rep)
    } else if s.len() > 0 {
        seq![s[0]] + spec_replace_braces(s.drop_first(), rep)
    } else {
        Seq::empty()
    }
}

/// Substitutes `rep` for every `{}` in the template.
fn replace_braces(template: &str, rep: &str) -> (r: String)
    ensures
        r@ == spec_replace_braces(template@, rep@),
{
    let n = template.unicode_len();
    let mut out = String::new();
    let mut i: usize = 0;
    proof {
        assert(template@.skip(0) =~= template@);
        assert(out@ + spec_replace_braces(template@, rep@) =~= spec_replace_braces(
            template@,
            rep@,
        ));
    }
    while i < n
        invariant
            n == template@.len(),
            i <= n,
            spec_replace_braces(template@, rep@) == out@ + spec_replace_braces(
                template@.skip(i as int),
                rep@,
            ),
        decreases n - i,
    {
        if i + 1 < n && template.get_char(i) == '{' && template.get_char(i + 1) == '}' {
            out.append(rep);
            proof {
                assert(template@.skip(i as int)[0] == template@[i as int]);
                assert(template@.skip(i as int)[1] == template@[i as int + 1]);
                assert(template@.skip(i as int).skip(2) =~= template@.skip(i as int + 2));
                assert(spec_replace_braces(template@, rep@) =~= out@ + spec_replace_braces(
                    template@.skip(i as int + 2),
                    rep@,
                ));
            }
            i = i + 2;
        } else {
            let piece = template.substring_char(i, i + 1);
            proof {
                assert(piece@ =~= seq![template@[i as int]]);
            }
            out.append(piece);
            proof {
                assert(template@.skip(i as int)[0] == template@[i as int]);
                if i + 1 < n {
                    assert(template@.skip(i as int)[1] == template@[i as int + 1]);
                }
                assert(template@.skip(i as int).drop_first() =~= template@.skip(i as int + 1));
                assert(spec_replace_braces(template@, rep@) =~= out@ + spec_replace_braces(
                    template@.skip(i as int + 1),
                    rep@,
                ));
            }
            i = i + 1;
        }
    }
    proof {
        assert(out@ + spec_replace_braces(template@.skip(n as int), rep@) =~= out@);
    }
    out
}

/// The rendering a configurable dialect gives to one column type: the bound
/// substituted into the bounded character template, the configured unbounded
/// rendering, or the mapped keyword, with a marked fallback when a key is
/// absent.
pub open spec fn spec_config_map_type(
    m: Seq<(Seq<char>, Seq<char>)>,
    t: SqlType,
) -> Seq<char> {
    match t {
        SqlType::Varchar(Some(n)) => {
            let template = match spec_assoc_get(m, "Varchar"@) {
                Some(v) => v,
                None => "VARCHAR({})"@,
            };
            spec_replace_braces(template, spec_nat_digits(n as int))
        },
        _ => {
            let key = spec_config_type_key(t);
            match spec_assoc_get(m, key) {
                Some(v) => v,
                None => "UNKNOWN_"@ + key,
            }
        },
    }
}

/// The mapping-table key for a column type.
pub open spec fn spec_config_type_key(t: SqlType) -> Seq<char> {
    match t {
        SqlType::Boolean => "Boolean"@,
        SqlType::SmallInt => "SmallInt"@,
        SqlType::Integer => "Integer"@,
        SqlType::BigInt => "BigInt"@,
        SqlType::DoublePrecision => "DoublePrecision"@,
        SqlType::Date => "Date"@,
        SqlType::Time => "Time"@,
        SqlType::DateTime => "DateTime"@,
        SqlType::Varchar(Some(_)) => "Varchar"@,
        SqlType::Varchar(None) => "VarcharUnlimited"@,
    }
}

/// A dialect driven by a configuration's mapping table.
#[derive(Debug)]
pub struct ConfigurableDialect {
    config: DatabaseConfig,
}

impl ConfigurableDialect {
    /// A dialect rendering types through the given configuration.
    pub fn new(config: DatabaseConfig) -> (r: Self)
        ensures
            r.spec_mappings() == config.type_mappings.deep_view(),
            r.spec_features() == config.features.deep_view(),
    {
        ConfigurableDialect { config }
    }

    /// The mapping table this dialect renders types through.
    pub closed spec fn spec_mappings(&self) -> Seq<(Seq<char>, Seq<char>)> {
        self.config.type_mappings.deep_view()
    }

    /// The capability flags this dialect answers from.
    pub closed spec fn spec_features(&self) -> Seq<(Seq<char>, bool)> {
        self.config.features.deep_view()
    }
}

/// The mapping-table key for a capability.
pub open spec fn spec_feature_key(f: DatabaseFeature) -> Seq<char> {
    match f {
        DatabaseFeature::UnlimitedVarchar => "unlimited_varchar"@,
        DatabaseFeature::BooleanType => "boolean_type"@,
        DatabaseFeature::DoublePrecision => "double_precision"@,
        DatabaseFeature::TimestampType => "timestamp_type"@,
    }
}

impl DatabaseDialect for ConfigurableDialect {
    open spec fn spec_name(&self) -> Seq<char> {
        "custom"@
    }

    open spec fn spec_map_type(&self, t: SqlType) -> Seq<char> {
        spec_config_map_type(self.spec_mappings(), t)
    }

    open spec fn spec_supports(&self, f: DatabaseFeature) -> bool {
        match spec_assoc_get_bool(self.spec_features(), spec_feature_key(f)) {
            Some(b) => b,
            None => false,
        }
    }

    fn name(&self) -> (r: &'static str) {
        "custom"
    }

    fn map_type(&self, sql_type: &SqlType) -> (r: String) {
        match sql_type {
            SqlType::Varchar(Some(n)) => {
                let template = match assoc_get(&self.config.type_mappings, "Varchar") {
                    Some(v) => v,
                    None => "VARCHAR({})".to_owned(),
                };
                replace_braces(template.as_str(), usize_to_string(*n).as_str())
            },
            other => {
                let key = match other {
                    SqlType::Boolean => "Boolean",
                    SqlType::SmallInt => "SmallInt",
                    SqlType::Integer => "Integer",
                    SqlType::BigInt => "BigInt",
                    SqlType::DoublePrecision => "DoublePrecision",
                    SqlType::Date => "Date",
                    SqlType::Time => "Time",
                    SqlType::DateTime => "DateTime",
                    SqlType::Varchar(Some(_)) => "Varchar",
                    SqlType::Varchar(None) => "VarcharUnlimited",
                };
                match assoc_get(&self.config.type_mappings, key) {
                    Some(v) => v,
                    None => {
                        let mut f = "UNKNOWN_".to_owned();
                        f.append(key);
                        f
                    },
                }
            },
        }
    }

    fn supports_feature(&self, feature: DatabaseFeature) -> (r: bool) {
        let key = match feature {
            DatabaseFeature::UnlimitedVarchar => "unlimited_varchar",
            DatabaseFeature::BooleanType => "boolean_type",
            DatabaseFeature::DoublePrecision => "double_precision",
            DatabaseFeature::TimestampType => "timestamp_type",
        };
        match assoc_get_bool(&self.config.features, key) {
            Some(b) => b,
            None => false,
        }
    }
}

/// One of the dialects the library can hand out by name.
#[derive(Debug)]
pub enum Dialect {
    Postgres(PostgreSQL),
    MySql(MySQL),
    Netezza(Netezza),
    Custom(ConfigurableDialect),
}

impl DatabaseDialect for Dialect {
    open spec fn spec_name(&self) -> Seq<char> {
        match self {
            Dialect::Postgres(d) => d.spec_name(),
            Dialect::MySql(d) => d.spec_name(),
            Dialect::Netezza(d) => d.spec_name(),
            Dialect::Custom(d) => d.spec_name(),
        }
    }

    open spec fn spec_map_type(&self, t: SqlType) -> Seq<char> {
        match self {
            Dialect::Postgres(d) => d.spec_map_type(t),
            Dialect::MySql(d) => d.spec_map_type(t),
            Dialect::Netezza(d) => d.spec_map_type(t),
            Dialect::Custom(d) => d.spec_map_type(t),
        }
    }

    open spec fn spec_supports(&self, f: DatabaseFeature) -> bool {
        match self {
            Dialect::Postgres(d) => d.spec_supports(f),
            Dialect::MySql(d) => d.spec_supports(f),
            Dialect::Netezza(d) => d.spec_supports(f),
            Dialect::Custom(d) => d.spec_supports(f),
        }
    }

    fn name(&self) -> (r: &'static str) {
        match self {
            Dialect::Postgres(d) => d.name(),
            Dialect::MySql(d) => d.name(),
            Dialect::Netezza(d) => d.name(),
            Dialect::Custom(d) => d.name(),
        }
    }

    fn map_type(&self, sql_type: &SqlType) -> (r: String) {
        match self {
            Dialect::Postgres(d) => d.map_type(sql_type),
            Dialect::MySql(d) => d.map_type(sql_type),
            Dialect::Netezza(d) => d.map_type(sql_type),
            Dialect::Custom(d) => d.map_type(sql_type),
        }
    }

    fn supports_feature(&self, feature: DatabaseFeature) -> (r: bool) {
        match self {
            Dialect::Postgres(d) => d.supports_feature(feature),
            Dialect::MySql(d) => d.supports_feature(feature),
            Dialect::Netezza(d) => d.supports_feature(feature),
            Dialect::Custom(d) => d.supports_feature(feature),
        }
    }
}

/// The built-in dialect for a database name, compared without regard to
/// ASCII case; an unknown name is rejected with an error naming it.
pub fn get_database_dialect(name: &str) -> (r: Result<Dialect, DatabaseError>)
    ensures
        (spec_eq_ignore_ascii_case(name@, "postgresql"@) || spec_eq_ignore_ascii_case(
            name@,
            "postgres"@,
        )) ==> r == Ok::<Dialect, DatabaseError>(Dialect::Postgres(PostgreSQL)),
        spec_eq_ignore_ascii_case(name@, "mysql"@) ==> r == Ok::<Dialect, DatabaseError>(
            Dialect::MySql(MySQL),
        ),
        spec_eq_ignore_ascii_case(name@, "netezza"@) ==> r == Ok::<Dialect, DatabaseError>(
            Dialect::Netezza(Netezza),
        ),
        (!spec_eq_ignore_ascii_case(name@, "postgresql"@) && !spec_eq_ignore_ascii_case(
            name@,
            "postgres"@,
        ) && !spec_eq_ignore_ascii_case(name@, "mysql"@) && !spec_eq_ignore_ascii_case(
            name@,
            "netezza"@,
        )) ==> (r matches Err(e) && (match e {
            DatabaseError::UnsupportedDatabase(n) => n@ == name@,
            _ => false,
        })),
{
    proof {
        reveal_strlit("postgresql");
        reveal_strlit("postgres");
        reveal_strlit("mysql");
        reveal_strlit("netezza");
    }
    if eq_ignore_ascii_case(name, "postgresql") || eq_ignore_ascii_case(name, "postgres") {
        Ok(Dialect::Postgres(PostgreSQL))
    } else if eq_ignore_ascii_case(name, "mysql") {
        Ok(Dialect::MySql(MySQL))
    } else if eq_ignore_ascii_case(name, "netezza") {
        Ok(Dialect::Netezza(Netezza))
    } else {
        Err(DatabaseError::UnsupportedDatabase(name.to_owned()))
    }
}

} // verus!
