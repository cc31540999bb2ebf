//! The closed set of SQL column types and the widening lattice over it.

use vstd::prelude::*;

use crate::strutil::{spec_nat_digits, usize_to_string};

verus! {

/// The closed, totally ranked set of representable column types.
/// `Varchar(None)` is the unbounded string type and is maximal;
/// `Varchar(Some(n))` is a bounded string type of capacity `n`.
#[derive(Debug, Clone, Copy, PartialEq, Eq, Hash, Structural)]
pub enum SqlType {
    Boolean,
    SmallInt,
    Integer,
    BigInt,
    DoublePrecision,
    Date,
    Time,
    DateTime,
    Varchar(Option<usize>),
}

/// Rank of a type in the fixed promotion order.
pub open spec fn spec_promotion_order(t: SqlType) -> int {
    match t {
        SqlType::Boolean => 0,
        SqlType::SmallInt => 1,
        SqlType::Integer => 2,
        SqlType::BigInt => 3,
        SqlType::DoublePrecision => 4,
        SqlType::Date => 5,
        SqlType::Time => 6,
        SqlType::DateTime => 7,
        SqlType::Varchar(_) => 8,
    }
}

/// The directed widenings: true when every value of `a` is losslessly
/// representable as a value of `b`.
pub open spec fn spec_can_promote_to(a: SqlType, b: SqlType) -> bool {
    match (a, b) {
        (SqlType::Boolean, SqlType::SmallInt) => true,
        (SqlType::Boolean, SqlType::Integer) => true,
        (SqlType::Boolean, SqlType::BigInt) => true,
        (SqlType::Boolean, SqlType::DoublePrecision) => true,
        (SqlType::Boolean, SqlType::Varchar(_)) => true,
        (SqlType::SmallInt, SqlType::Integer) => true,
        (SqlType::SmallInt, SqlType::BigInt) => true,
        (SqlType::SmallInt, SqlType::DoublePrecision) => true,
        (SqlType::SmallInt, SqlType::Varchar(_)) => true,
        (SqlType::Integer, SqlType::BigInt) => true,
        (SqlType::Integer, SqlType::DoublePrecision) => true,
        (SqlType::Integer, SqlType::Varchar(_)) => true,
        (SqlType::BigInt, SqlType::DoublePrecision) => true,
        (SqlType::BigInt, SqlType::Varchar(_)) => true,
        (SqlType::DoublePrecision, SqlType::Varchar(_)) => true,
        (SqlType::Date, SqlType::Varchar(_)) => true,
        (SqlType::Time, SqlType::Varchar(_)) => true,
        (SqlType::DateTime, SqlType::Varchar(_)) => true,
        (SqlType::Varchar(Some(m)), SqlType::Varchar(Some(n))) => m <= n,
        (SqlType::Varchar(Some(_)), SqlType::Varchar(None)) => true,
        (SqlType::Varchar(None), SqlType::Varchar(_)) => false,
        _ => a == b,
    }
}

/// The narrowest type that losslessly represents values of both arguments.
/// Total: when neither direction of widening is defined, the result is the
/// universal fallback `Varchar(None)`.
pub open spec fn spec_promote(a: SqlType, b: SqlType) -> SqlType {
    if a == b {
        a
    } else if spec_promotion_order(a) < spec_promotion_order(b) {
        if spec_can_promote_to(a, b) {
            b
        } else {
            SqlType::Varchar(None)
        }
    } else if spec_promotion_order(a) > spec_promotion_order(b) {
        if spec_can_promote_to(b, a) {
            a
        } else {
            SqlType::Varchar(None)
        }
    } else {
        match (a, b) {
            (SqlType::Varchar(Some(m)), SqlType::Varchar(Some(n))) => {
                SqlType::Varchar(Some(if m >= n { m } else { n }))
            },
            _ => SqlType::Varchar(None),
        }
    }
}

impl SqlType {
    /// Rank of this type in the fixed promotion order.
    pub fn promotion_order(&self) -> (r: u8)
        ensures
            r as int == spec_promotion_order(*self),
    {
        match self {
            SqlType::Boolean => 0,
            SqlType::SmallInt => 1,
            SqlType::Integer => 2,
            SqlType::BigInt => 3,
            SqlType::DoublePrecision => 4,
            SqlType::Date => 5,
            SqlType::Time => 6,
            SqlType::DateTime => 7,
            SqlType::Varchar(_) => 8,
        }
    }

    /// True when every value of `self` is losslessly representable in `other`.
    pub fn can_promote_to(&self, other: &SqlType) -> (r: bool)
        ensures
            r == spec_can_promote_to(*self, *other),
    {
        match (self, other) {
            (SqlType::Boolean, SqlType::SmallInt) => true,
            (SqlType::Boolean, SqlType::Integer) => true,
            (SqlType::Boolean, SqlType::BigInt) => true,
            (SqlType::Boolean, SqlType::DoublePrecision) => true,
            (SqlType::Boolean, SqlType::Varchar(_)) => true,
            (SqlType::SmallInt, SqlType::Integer) => true,
            (SqlType::SmallInt, SqlType::BigInt) => true,
            (SqlType::SmallInt, SqlType::DoublePrecision) => true,
            (SqlType::SmallInt, SqlType::Varchar(_)) => true,
            (SqlType::Integer, SqlType::BigInt) => true,
            (SqlType::Integer, SqlType::DoublePrecision) => true,
            (SqlType::Integer, SqlType::Varchar(_)) => true,
            (SqlType::BigInt, SqlType::DoublePrecision) => true,
            (SqlType::BigInt, SqlType::Varchar(_)) => true,
            (SqlType::DoublePrecision, SqlType::Varchar(_)) => true,
            (SqlType::Date, SqlType::Varchar(_)) => true,
            (SqlType::Time, SqlType::Varchar(_)) => true,
            (SqlType::DateTime, SqlType::Varchar(_)) => true,
            (SqlType::Varchar(Some(m)), SqlType::Varchar(Some(n))) => m <= n,
            (SqlType::Varchar(Some(_)), SqlType::Varchar(None)) => true,
            (SqlType::Varchar(None), SqlType::Varchar(_)) => false,
            (a, b) => a == b,
        }
    }

    /// The narrowest type losslessly representing values of both `self` and
    /// `other`. Total over every pair of types: a pair with no directed
    /// widening in either direction falls back to `Varchar(None)`.
    pub fn promote(&self, other: &SqlType) -> (r: SqlType)
        ensures
            r == spec_promote(*self, *other),
    {
        if self == other {
            return *self;
        }
        let self_order = self.promotion_order();
        let other_order = other.promotion_order();
        if self_order < other_order {
            if self.can_promote_to(other) {
                *other
            } else {
                SqlType::Varchar(None)
            }
        } else if self_order > other_order {
            if other.can_promote_to(self) {
                *self
            } else {
                SqlType::Varchar(None)
            }
        } else {
            match (self, other) {
                (SqlType::Varchar(Some(m)), SqlType::Varchar(Some(n))) => {
                    SqlType::Varchar(Some(if *m >= *n { *m } else { *n }))
                },
                _ => SqlType::Varchar(None),
            }
        }
    }
}

/// The display name of a type: the SQL keyword, with the bound of bounded
/// character data in parentheses.
pub open spec fn spec_display_name(t: SqlType) -> Seq<char> {
    match t {
        SqlType::Boolean => "BOOLEAN"@,
        SqlType::SmallInt => "SMALLINT"@,
        SqlType::Integer => "INTEGER"@,
        SqlType::BigInt => "BIGINT"@,
        SqlType::DoublePrecision => "DOUBLE PRECISION"@,
        SqlType::Date => "DATE"@,
        SqlType::Time => "TIME"@,
        SqlType::DateTime => "DATETIME"@,
        SqlType::Varchar(Some(n)) => "VARCHAR("@ + spec_nat_digits(n as int) + ")"@,
        SqlType::Varchar(None) => "VARCHAR"@,
    }
}

/// The column type rendered for PostgreSQL.
pub open spec fn spec_postgres_ddl(t: SqlType) -> Seq<char> {
    match t {
        SqlType::Boolean => "BOOLEAN"@,
        SqlType::SmallInt => "SMALLINT"@,
        SqlType::Integer => "INTEGER"@,
        SqlType::BigInt => "BIGINT"@,
        SqlType::DoublePrecision => "DOUBLE PRECISION"@,
        SqlType::Date => "DATE"@,
        SqlType::Time => "TIME"@,
        SqlType::DateTime => "TIMESTAMP"@,
        SqlType::Varchar(Some(n)) => "VARCHAR("@ + spec_nat_digits(n as int) + ")"@,
        SqlType::Varchar(None) => "TEXT"@,
    }
}

/// The column type rendered for MySQL.
pub open spec fn spec_mysql_ddl(t: SqlType) -> Seq<char> {
    match t {
        SqlType::Boolean => "BOOLEAN"@,
        SqlType::SmallInt => "SMALLINT"@,
        SqlType::Integer => "INTEGER"@,
        SqlType::BigInt => "BIGINT"@,
        SqlType::DoublePrecision => "DOUBLE"@,
        SqlType::Date => "DATE"@,
        SqlType::Time => "TIME"@,
        SqlType::DateTime => "DATETIME"@,
        SqlType::Varchar(Some(n)) => "VARCHAR("@ + spec_nat_digits(n as int) + ")"@,
        SqlType::Varchar(None) => "TEXT"@,
    }
}

/// The column type rendered for Netezza, which has no unbounded character
/// type and renders it at its widest bound.
pub open spec fn spec_netezza_ddl(t: SqlType) -> Seq<char> {
    match t {
        SqlType::Boolean => "BOOLEAN"@,
        SqlType::SmallInt => "SMALLINT"@,
        SqlType::Integer => "INTEGER"@,
        SqlType::BigInt => "BIGINT"@,
        SqlType::DoublePrecision => "DOUBLE PRECISION"@,
        SqlType::Date => "DATE"@,
        SqlType::Time => "TIME"@,
        SqlType::DateTime => "TIMESTAMP"@,
        SqlType::Varchar(Some(n)) => "VARCHAR("@ + spec_nat_digits(n as int) + ")"@,
        SqlType::Varchar(None) => "VARCHAR(65535)"@,
    }
}

impl SqlType {
    fn varchar_render(n: usize) -> (r: String)
        ensures
            r@ == "VARCHAR("@ + spec_nat_digits(n as int) + ")"@,
    {
        let mut s = "VARCHAR(".to_owned();
        s.append(usize_to_string(n).as_str());
        s.append(")");
        s
    }

    /// The display name of this type.
    pub fn display_name(&self) -> (r: String)
        ensures
            r@ == spec_display_name(*self),
    {
        match self {
            SqlType::Boolean => "BOOLEAN".to_owned(),
            SqlType::SmallInt => "SMALLINT".to_owned(),
            SqlType::Integer => "INTEGER".to_owned(),
            SqlType::BigInt => "BIGINT".to_owned(),
            SqlType::DoublePrecision => "DOUBLE PRECISION".to_owned(),
            SqlType::Date => "DATE".to_owned(),
            SqlType::Time => "TIME".to_owned(),
            SqlType::DateTime => "DATETIME".to_owned(),
            SqlType::Varchar(Some(n)) => Self::varchar_render(*n),
            SqlType::Varchar(None) => "VARCHAR".to_owned(),
        }
    }

    /// This type as a PostgreSQL column type.
    pub fn to_postgres_ddl(&self) -> (r: String)
        ensures
            r@ == spec_postgres_ddl(*self),
    {
        match self {
            SqlType::Boolean => "BOOLEAN".to_owned(),
            SqlType::SmallInt => "SMALLINT".to_owned(),
            SqlType::Integer => "INTEGER".to_owned(),
            SqlType::BigInt => "BIGINT".to_owned(),
            SqlType::DoublePrecision => "DOUBLE PRECISION".to_owned(),
            SqlType::Date => "DATE".to_owned(),
            SqlType::Time => "TIME".to_owned(),
            SqlType::DateTime => "TIMESTAMP".to_owned(),
            SqlType::Varchar(Some(n)) => Self::varchar_render(*n),
            SqlType::Varchar(None) => "TEXT".to_owned(),
        }
    }

    /// This type as a MySQL column type.
    pub fn to_mysql_ddl(&self) -> (r: String)
        ensures
            r@ == spec_mysql_ddl(*self),
    {
        match self {
            SqlType::Boolean => "BOOLEAN".to_owned(),
            SqlType::SmallInt => "SMALLINT".to_owned(),
            SqlType::Integer => "INTEGER".to_owned(),
            SqlType::BigInt => "BIGINT".to_owned(),
            SqlType::DoublePrecision => "DOUBLE".to_owned(),
            SqlType::Date => "DATE".to_owned(),
            SqlType::Time => "TIME".to_owned(),
            SqlType::DateTime => "DATETIME".to_owned(),
            SqlType::Varchar(Some(n)) => Self::varchar_render(*n),
            SqlType::Varchar(None) => "TEXT".to_owned(),
        }
    }

    /// This type as a Netezza column type.
    pub fn to_netezza_ddl(&self) -> (r: String)
        ensures
            r@ == spec_netezza_ddl(*self),
    {
        match self {
            SqlType::Boolean => "BOOLEAN".to_owned(),
            SqlType::SmallInt => "SMALLINT".to_owned(),
            SqlType::Integer => "INTEGER".to_owned(),
            SqlType::BigInt => "BIGINT".to_owned(),
            SqlType::DoublePrecision => "DOUBLE PRECISION".to_owned(),
            SqlType::Date => "DATE".to_owned(),
            SqlType::Time => "TIME".to_owned(),
            SqlType::DateTime => "TIMESTAMP".to_owned(),
            SqlType::Varchar(Some(n)) => Self::varchar_render(*n),
            SqlType::Varchar(None) => "VARCHAR(65535)".to_owned(),
        }
    }
}

/// Law: widening is commutative. For every pair of types the result of
/// `promote` does not depend on the order of its arguments.
pub proof fn lemma_promote_commutative(a: SqlType, b: SqlType)
    ensures
        spec_promote(a, b) == spec_promote(b, a),
{
}

/// Law: widening is idempotent. Promoting a type with itself leaves it
/// unchanged.
pub proof fn lemma_promote_idempotent(a: SqlType)
    ensures
        spec_promote(a, a) == a,
{
}

/// Law: the result of widening represents both arguments. Each argument
/// either is the result or has a directed widening into it.
pub proof fn lemma_promote_widens(a: SqlType, b: SqlType)
    ensures
        a == spec_promote(a, b) || spec_can_promote_to(a, spec_promote(a, b)),
        b == spec_promote(a, b) || spec_can_promote_to(b, spec_promote(a, b)),
{
}

/// Law: the unbounded string type is maximal. Widening it with any type
/// leaves it unchanged.
pub proof fn lemma_varchar_unbounded_maximal(b: SqlType)
    ensures
        spec_promote(SqlType::Varchar(None), b) == SqlType::Varchar(None),
{
}

} // verus!
