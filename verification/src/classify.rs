//! The per-value classifier: maps one trimmed, non-null string to the most
//! specific leaf SQL type, testing a fixed sequence of value grammars.

use vstd::prelude::*;
use vstd::utf8::encode_utf8;

use crate::strutil::{
    clone_strings, eq_ignore_ascii_case, spec_eq_ignore_ascii_case, spec_trim, str_eq_str, trim,
};
use crate::types::SqlType;

verus! {

/// ASCII decimal digit.
pub open spec fn spec_is_digit(c: char) -> bool {
    48 <= c as u32 <= 57
}

/// The numeric value of an ASCII digit character.
pub open spec fn spec_digit_value(c: char) -> int {
    c as u32 - 48
}

/// Every character of the sequence is an ASCII digit.
pub open spec fn spec_all_digits(s: Seq<char>) -> bool {
    forall|i: int| 0 <= i < s.len() ==> spec_is_digit(#[trigger] s[i])
}

/// The sequence with one leading sign character removed, if present.
pub open spec fn spec_strip_sign(s: Seq<char>) -> Seq<char> {
    if s.len() > 0 && (s[0] == '+' || s[0] == '-') {
        s.drop_first()
    } else {
        s
    }
}

/// An integer literal: an optional sign followed by one or more digits.
pub open spec fn spec_is_integer_literal(s: Seq<char>) -> bool {
    spec_strip_sign(s).len() > 0 && spec_all_digits(spec_strip_sign(s))
}

/// The value of an all-digit sequence read as a decimal number.
pub open spec fn spec_digits_value(s: Seq<char>) -> int
    decreases s.len(),
{
    if s.len() == 0 {
        0
    } else {
        spec_digits_value(s.drop_last()) * 10 + spec_digit_value(s.last())
    }
}

/// The signed value of an integer literal.
pub open spec fn spec_int_value(s: Seq<char>) -> int {
    if s.len() > 0 && s[0] == '-' {
        -spec_digits_value(s.drop_first())
    } else {
        spec_digits_value(spec_strip_sign(s))
    }
}

/// Checks one character for being an ASCII digit.
fn is_digit_char(c: char) -> (r: bool)
    ensures
        r == spec_is_digit(c),
{
    let x = c as u32;
    48 <= x && x <= 57
}

/// Checks that every character in `s` is an ASCII digit.
fn all_digits(s: &str) -> (r: bool)
    ensures
        r == spec_all_digits(s@),
{
    let n = s.unicode_len();
    let mut i: usize = 0;
    while i < n
        invariant
            n == s@.len(),
            i <= n,
            forall|j: int| 0 <= j < i ==> spec_is_digit(#[trigger] s@[j]),
        decreases n - i,
    {
        if !is_digit_char(s.get_char(i)) {
            return false;
        }
        i = i + 1;
    }
    true
}

/// Borrowed slice of `s` with one leading `+` or `-` removed, if present.
fn strip_sign(s: &str) -> (r: &str)
    ensures
        r@ == spec_strip_sign(s@),
{
    let n = s.unicode_len();
    if n > 0 {
        let c = s.get_char(0);
        if c == '+' || c == '-' {
            let r = s.substring_char(1, n);
            proof {
                assert(r@ =~= s@.drop_first());
            }
            return r;
        }
    }
    s
}

/// Tests `s` against the integer-literal grammar: an optional sign followed
/// by one or more decimal digits.
pub fn is_integer_literal(s: &str) -> (r: bool)
    ensures
        r == spec_is_integer_literal(s@),
{
    let body = strip_sign(s);
    !body.is_empty() && all_digits(body)
}

/// Length of the longest all-digit prefix of the sequence.
pub open spec fn spec_digits_prefix_len(s: Seq<char>) -> int
    decreases s.len(),
{
    if s.len() > 0 && spec_is_digit(s[0]) {
        1 + spec_digits_prefix_len(s.drop_first())
    } else {
        0
    }
}

proof fn lemma_digits_prefix_len(s: Seq<char>)
    ensures
        0 <= spec_digits_prefix_len(s) <= s.len(),
        forall|i: int| 0 <= i < spec_digits_prefix_len(s) ==> spec_is_digit(#[trigger] s[i]),
        spec_digits_prefix_len(s) < s.len() ==> !spec_is_digit(s[spec_digits_prefix_len(s)]),
    decreases s.len(),
{
    if s.len() > 0 && spec_is_digit(s[0]) {
        lemma_digits_prefix_len(s.drop_first());
        assert forall|i: int| 0 <= i < spec_digits_prefix_len(s) implies spec_is_digit(
            #[trigger] s[i],
        ) by {
            if i > 0 {
                assert(s.drop_first()[i - 1] == s[i]);
            }
        }
    }
}

/// The mantissa grammar `\d+\.?\d*|\.\d+`: one or more digits with an
/// optional point and optional further digits, or a point followed by one or
/// more digits.
pub open spec fn spec_is_mantissa(s: Seq<char>) -> bool {
    ||| (exists|k: int|
        1 <= k <= s.len() && spec_all_digits(#[trigger] s.take(k)) && (k == s.len() || (s[k] == '.'
            && spec_all_digits(s.skip(k + 1)))))
    ||| (s.len() >= 2 && s[0] == '.' && spec_all_digits(s.drop_first()))
}

/// A decimal or scientific literal: an optional sign, a mantissa, and an
/// optional exponent marker with a signed all-digit exponent.
pub open spec fn spec_is_double_literal(s: Seq<char>) -> bool {
    let b = spec_strip_sign(s);
    ||| spec_is_mantissa(b)
    ||| (exists|j: int|
        0 <= j < b.len() && (b[j] == 'e' || b[j] == 'E') && spec_is_mantissa(#[trigger] b.take(j))
            && spec_is_integer_literal(b.skip(j + 1)))
}

proof fn lemma_mantissa_chars(m: Seq<char>)
    requires
        spec_is_mantissa(m),
    ensures
        forall|i: int| 0 <= i < m.len() ==> spec_is_digit(#[trigger] m[i]) || m[i] == '.',
{
    if exists|k: int|
        1 <= k <= m.len() && spec_all_digits(#[trigger] m.take(k)) && (k == m.len() || (m[k] == '.'
            && spec_all_digits(m.skip(k + 1)))) {
        let k = choose|k: int|
            1 <= k <= m.len() && spec_all_digits(#[trigger] m.take(k)) && (k == m.len() || (m[k]
                == '.' && spec_all_digits(m.skip(k + 1))));
        assert forall|i: int| 0 <= i < m.len() implies spec_is_digit(#[trigger] m[i]) || m[i]
            == '.' by {
            if i < k {
                assert(m.take(k)[i] == m[i]);
                assert(spec_is_digit(m.take(k)[i]));
            } else if i > k {
                assert(m.skip(k + 1)[i - k - 1] == m[i]);
                assert(spec_is_digit(m.skip(k + 1)[i - k - 1]));
            }
        }
    } else {
        assert forall|i: int| 0 <= i < m.len() implies spec_is_digit(#[trigger] m[i]) || m[i]
            == '.' by {
            if i > 0 {
                assert(m.drop_first()[i - 1] == m[i]);
                assert(spec_is_digit(m.drop_first()[i - 1]));
            }
        }
    }
}

/// Length of the longest all-digit prefix of `s`.
fn digits_prefix_len(s: &str) -> (r: usize)
    ensures
        r as int == spec_digits_prefix_len(s@),
{
    let n = s.unicode_len();
    let mut i: usize = 0;
    while i < n && is_digit_char(s.get_char(i))
        invariant
            n == s@.len(),
            i <= n,
            forall|j: int| 0 <= j < i ==> spec_is_digit(#[trigger] s@[j]),
        decreases n - i,
    {
        i = i + 1;
    }
    proof {
        lemma_digits_prefix_len_char(s@, i as int);
    }
    i
}

proof fn lemma_digits_prefix_len_char(s: Seq<char>, i: int)
    requires
        0 <= i <= s.len(),
        forall|j: int| 0 <= j < i ==> spec_is_digit(#[trigger] s[j]),
        i < s.len() ==> !spec_is_digit(s[i]),
    ensures
        spec_digits_prefix_len(s) == i,
    decreases s.len(),
{
    if i == 0 {
    } else {
        assert(spec_is_digit(s[0]));
        assert forall|j: int| 0 <= j < i - 1 implies spec_is_digit(#[trigger] s.drop_first()[j]) by {
            assert(s.drop_first()[j] == s[j + 1]);
        }
        assert(i - 1 < s.drop_first().len() ==> !spec_is_digit(s.drop_first()[i - 1]));
        lemma_digits_prefix_len_char(s.drop_first(), i - 1);
    }
}

/// Tests `s` against the mantissa grammar.
fn is_mantissa(s: &str) -> (r: bool)
    ensures
        r == spec_is_mantissa(s@),
{
    let n = s.unicode_len();
    if n == 0 {
        return false;
    }
    if s.get_char(0) == '.' {
        let rest = s.substring_char(1, n);
        proof {
            assert(rest@ =~= s@.drop_first());
            assert forall|k: int|
                1 <= k <= s@.len() implies !spec_all_digits(#[trigger] s@.take(k)) by {
                assert(s@.take(k)[0] == '.');
                assert(!spec_is_digit(s@.take(k)[0]));
            }
        }
        return n >= 2 && all_digits(rest);
    }
    let k = digits_prefix_len(s);
    proof {
        lemma_digits_prefix_len(s@);
    }
    if k == 0 {
        proof {
            assert forall|kk: int|
                1 <= kk <= s@.len() implies !spec_all_digits(#[trigger] s@.take(kk)) by {
                assert(s@.take(kk)[0] == s@[0]);
                assert(!spec_is_digit(s@[0]));
            }
        }
        return false;
    }
    if k == n {
        proof {
            assert(s@.take(n as int) =~= s@);
            assert(spec_all_digits(s@.take(k as int)));
        }
        return true;
    }
    if s.get_char(k) == '.' {
        let rest = s.substring_char(k + 1, n);
        proof {
            assert(rest@ =~= s@.skip(k as int + 1));
        }
        if all_digits(rest) {
            proof {
                assert(spec_all_digits(s@.take(k as int)));
            }
            true
        } else {
            proof {
                assert forall|kk: int|
                    1 <= kk <= s@.len() && spec_all_digits(#[trigger] s@.take(kk)) && (kk
                        == s@.len() || (s@[kk] == '.' && spec_all_digits(
                        s@.skip(kk + 1),
                    ))) implies false by {
                    if kk > k as int {
                        assert(spec_is_digit(s@.take(kk)[k as int]));
                    } else if kk < k as int {
                        assert(spec_is_digit(s@[kk]));
                    }
                }
            }
            false
        }
    } else {
        proof {
            assert forall|kk: int|
                1 <= kk <= s@.len() && spec_all_digits(#[trigger] s@.take(kk)) && (kk == s@.len()
                    || (s@[kk] == '.' && spec_all_digits(s@.skip(kk + 1)))) implies false by {
                if kk > k as int {
                    assert(spec_is_digit(s@.take(kk)[k as int]));
                } else if kk < k as int {
                    assert(spec_is_digit(s@[kk]));
                }
            }
        }
        false
    }
}

/// Tests `s` against the decimal/scientific literal grammar.
pub fn is_double_literal(s: &str) -> (r: bool)
    ensures
        r == spec_is_double_literal(s@),
{
    let body = strip_sign(s);
    let n = body.unicode_len();
    let mut j: usize = 0;
    while j < n && body.get_char(j) != 'e' && body.get_char(j) != 'E'
        invariant
            n == body@.len(),
            j <= n,
            forall|t: int| 0 <= t < j ==> body@[t] != 'e' && body@[t] != 'E',
        decreases n - j,
    {
        j = j + 1;
    }
    if j == n {
        let r = is_mantissa(body);
        proof {
            assert forall|jj: int|
                0 <= jj < body@.len() implies !(body@[jj] == 'e' || body@[jj] == 'E') by {}
        }
        r
    } else {
        let mant = body.substring_char(0, j);
        let exp = body.substring_char(j + 1, n);
        proof {
            assert(mant@ =~= body@.take(j as int));
            assert(exp@ =~= body@.skip(j as int + 1));
        }
        let r = is_mantissa(mant) && is_integer_literal(exp);
        proof {
            if !r {
                assert forall|jj: int|
                    0 <= jj < body@.len() && (body@[jj] == 'e' || body@[jj] == 'E')
                        && spec_is_mantissa(#[trigger] body@.take(jj)) && spec_is_integer_literal(
                        body@.skip(jj + 1),
                    ) implies false by {
                    if jj > j as int {
                        lemma_mantissa_chars(body@.take(jj));
                        assert(body@.take(jj)[j as int] == body@[j as int]);
                    }
                }
                if spec_is_mantissa(body@) {
                    lemma_mantissa_chars(body@);
                    assert(spec_is_digit(body@[j as int]) || body@[j as int] == '.');
                    assert(false);
                }
            }
        }
        r
    }
}

/// Highest decimal magnitude tracked when reading an integer literal: one
/// more than the largest positive 64-bit value, the magnitude of the most
/// negative one.
pub const INT64_MAG_BOUND: u128 = 9223372036854775808;

proof fn lemma_digits_value_nonneg(s: Seq<char>)
    requires
        spec_all_digits(s),
    ensures
        spec_digits_value(s) >= 0,
    decreases s.len(),
{
    if s.len() > 0 {
        assert forall|j: int|
            0 <= j < s.drop_last().len() implies spec_is_digit(#[trigger] s.drop_last()[j]) by {
            assert(s.drop_last()[j] == s[j]);
        }
        lemma_digits_value_nonneg(s.drop_last());
        assert(spec_digits_value(s.drop_last()) * 10 >= 0) by (nonlinear_arith)
            requires
                spec_digits_value(s.drop_last()) >= 0,
        ;
    }
}

proof fn lemma_digits_value_extend(s: Seq<char>, i: int)
    requires
        spec_all_digits(s),
        0 <= i <= s.len(),
    ensures
        spec_digits_value(s) >= spec_digits_value(s.take(i)),
    decreases s.len() - i,
{
    if i == s.len() {
        assert(s.take(i) =~= s);
    } else {
        assert(s.take(i + 1).drop_last() =~= s.take(i));
        assert forall|j: int|
            0 <= j < s.take(i).len() implies spec_is_digit(#[trigger] s.take(i)[j]) by {
            assert(s.take(i)[j] == s[j]);
        }
        lemma_digits_value_nonneg(s.take(i));
        let v = spec_digits_value(s.take(i));
        let d = spec_digit_value(s[i]);
        assert(v * 10 + d >= v) by (nonlinear_arith)
            requires
                v >= 0,
                d >= 0,
        ;
        lemma_digits_value_extend(s, i + 1);
    }
}

/// Reads an all-digit sequence as a decimal magnitude, giving up once the
/// value passes the 64-bit boundary.
fn digits_magnitude(s: &str) -> (r: Option<u128>)
    requires
        spec_all_digits(s@),
    ensures
        match r {
            Some(v) => v as int == spec_digits_value(s@) && v <= INT64_MAG_BOUND,
            None => spec_digits_value(s@) > INT64_MAG_BOUND,
        },
{
    let n = s.unicode_len();
    let mut acc: u128 = 0;
    let mut i: usize = 0;
    proof {
        assert(s@.take(0) =~= Seq::<char>::empty());
    }
    while i < n
        invariant
            n == s@.len(),
            i <= n,
            spec_all_digits(s@),
            acc as int == spec_digits_value(s@.take(i as int)),
            acc <= INT64_MAG_BOUND,
        decreases n - i,
    {
        let c = s.get_char(i);
        proof {
            assert(spec_is_digit(s@[i as int]));
        }
        let d = (c as u32) - 48;
        let newacc = acc * 10 + (d as u128);
        proof {
            assert(s@.take(i as int + 1).drop_last() =~= s@.take(i as int));
            assert(s@.take(i as int + 1).last() == s@[i as int]);
        }
        if newacc > INT64_MAG_BOUND {
            proof {
                lemma_digits_value_extend(s@, i as int + 1);
            }
            return None;
        }
        acc = newacc;
        i = i + 1;
    }
    proof {
        assert(s@.take(n as int) =~= s@);
    }
    Some(acc)
}

/// The SQL integer type for a mathematical value: the narrowest signed
/// 16-, 32- or 64-bit type whose range holds it, and double precision when
/// even the 64-bit range does not.
pub open spec fn spec_integer_class(v: int) -> SqlType {
    if -32768 <= v <= 32767 {
        SqlType::SmallInt
    } else if -2147483648 <= v <= 2147483647 {
        SqlType::Integer
    } else if -9223372036854775808 <= v <= 9223372036854775807 {
        SqlType::BigInt
    } else {
        SqlType::DoublePrecision
    }
}

/// Classifies an integer literal by the signed range its value falls in.
/// A literal past the 64-bit range reads as double precision, which its
/// grammar also matches.
pub fn classify_integer(s: &str) -> (t: SqlType)
    requires
        spec_is_integer_literal(s@),
    ensures
        t == spec_integer_class(spec_int_value(s@)),
{
    let neg = s.get_char(0) == '-';
    let body = strip_sign(s);
    match digits_magnitude(body) {
        None => SqlType::DoublePrecision,
        Some(mag) => {
            if neg {
                if mag <= 32768 {
                    SqlType::SmallInt
                } else if mag <= 2147483648 {
                    SqlType::Integer
                } else {
                    SqlType::BigInt
                }
            } else {
                if mag <= 32767 {
                    SqlType::SmallInt
                } else if mag <= 2147483647 {
                    SqlType::Integer
                } else if mag <= 9223372036854775807 {
                    SqlType::BigInt
                } else {
                    SqlType::DoublePrecision
                }
            }
        },
    }
}

/// The calendar-date shape `\d{4}-\d{2}-\d{2}`.
pub open spec fn spec_date_shape(s: Seq<char>) -> bool {
    &&& s.len() == 10
    &&& spec_all_digits(s.subrange(0, 4))
    &&& s[4] == '-'
    &&& spec_all_digits(s.subrange(5, 7))
    &&& s[7] == '-'
    &&& spec_all_digits(s.subrange(8, 10))
}

/// The clock-time shape `\d{1,2}:\d{2}:\d{2}`.
pub open spec fn spec_time_shape(s: Seq<char>) -> bool {
    let h = s.len() - 6;
    &&& (s.len() == 7 || s.len() == 8)
    &&& spec_all_digits(s.subrange(0, h))
    &&& s[h] == ':'
    &&& spec_all_digits(s.subrange(h + 1, h + 3))
    &&& s[h + 3] == ':'
    &&& spec_all_digits(s.subrange(h + 4, h + 6))
}

/// The timestamp shape: a date shape, one space, then a time shape.
pub open spec fn spec_datetime_shape(s: Seq<char>) -> bool {
    &&& s.len() >= 11
    &&& spec_date_shape(s.subrange(0, 10))
    &&& s[10] == ' '
    &&& spec_time_shape(s.subrange(11, s.len() as int))
}

/// Tests `s` against the fixed calendar-date shape.
pub fn date_shape(s: &str) -> (r: bool)
    ensures
        r == spec_date_shape(s@),
{
    let n = s.unicode_len();
    if n != 10 {
        return false;
    }
    let y = s.substring_char(0, 4);
    let m = s.substring_char(5, 7);
    let d = s.substring_char(8, 10);
    all_digits(y) && s.get_char(4) == '-' && all_digits(m) && s.get_char(7) == '-' && all_digits(d)
}

/// Tests `s` against the fixed clock-time shape.
pub fn time_shape(s: &str) -> (r: bool)
    ensures
        r == spec_time_shape(s@),
{
    let n = s.unicode_len();
    if n != 7 && n != 8 {
        return false;
    }
    let h = n - 6;
    let hh = s.substring_char(0, h);
    let mm = s.substring_char(h + 1, h + 3);
    let ss = s.substring_char(h + 4, h + 6);
    all_digits(hh) && s.get_char(h) == ':' && all_digits(mm) && s.get_char(h + 3) == ':'
        && all_digits(ss)
}

/// Tests `s` against the fixed timestamp shape.
pub fn datetime_shape(s: &str) -> (r: bool)
    ensures
        r == spec_datetime_shape(s@),
{
    let n = s.unicode_len();
    if n < 11 {
        return false;
    }
    let date_part = s.substring_char(0, 10);
    let time_part = s.substring_char(11, n);
    date_shape(date_part) && s.get_char(10) == ' ' && time_shape(time_part)
}

/// Whether `chrono::NaiveDate::parse_from_str` accepts the text under the
/// given format string; a function of the two arguments alone.
pub uninterp spec fn chrono_date_ok(s: Seq<char>, fmt: Seq<char>) -> bool;

/// Whether `chrono::NaiveTime::parse_from_str` accepts the text under the
/// given format string; a function of the two arguments alone.
pub uninterp spec fn chrono_time_ok(s: Seq<char>, fmt: Seq<char>) -> bool;

/// Whether `chrono::NaiveDateTime::parse_from_str` accepts the text under
/// the given format string; a function of the two arguments alone.
pub uninterp spec fn chrono_datetime_ok(s: Seq<char>, fmt: Seq<char>) -> bool;

/// Relies on `chrono::NaiveDate::parse_from_str`: whether the text is a
/// calendar date under the format, which depends on the two strings alone.
#[verifier::external_body]
fn parse_date_ok(value: &str, fmt: &str) -> (r: bool)
    ensures
        r == chrono_date_ok(value@, fmt@),
{
    chrono::NaiveDate::parse_from_str(value, fmt).is_ok()
}

/// Relies on `chrono::NaiveTime::parse_from_str`: whether the text is a
/// clock time under the format, which depends on the two strings alone.
#[verifier::external_body]
fn parse_time_ok(value: &str, fmt: &str) -> (r: bool)
    ensures
        r == chrono_time_ok(value@, fmt@),
{
    chrono::NaiveTime::parse_from_str(value, fmt).is_ok()
}

/// Relies on `chrono::NaiveDateTime::parse_from_str`: whether the text is a
/// timestamp under the format, which depends on the two strings alone.
#[verifier::external_body]
fn parse_datetime_ok(value: &str, fmt: &str) -> (r: bool)
    ensures
        r == chrono_datetime_ok(value@, fmt@),
{
    chrono::NaiveDateTime::parse_from_str(value, fmt).is_ok()
}

/// The classifier's configuration as mathematical values: the three format
/// strings and the two boolean token sets.
#[verifier::ext_equal]
pub ghost struct ClassifierView {
    pub date_format: Seq<char>,
    pub time_format: Seq<char>,
    pub datetime_format: Seq<char>,
    pub true_tokens: Seq<Seq<char>>,
    pub false_tokens: Seq<Seq<char>>,
}

/// Whether some token of the set equals the text up to ASCII case.
pub open spec fn spec_matches_any_token(tokens: Seq<Seq<char>>, s: Seq<char>) -> bool {
    exists|i: int| 0 <= i < tokens.len() && spec_eq_ignore_ascii_case(#[trigger] tokens[i], s)
}

/// Whether the text reads as a calendar date: it has the fixed ISO shape and
/// chrono accepts it under the ISO format, or a custom date format is set and
/// chrono accepts it under that.
pub open spec fn spec_is_date_value(cfg: ClassifierView, s: Seq<char>) -> bool {
    ||| (spec_date_shape(s) && chrono_date_ok(s, "%Y-%m-%d"@))
    ||| (cfg.date_format != "%Y-%m-%d"@ && chrono_date_ok(s, cfg.date_format))
}

/// Whether the text reads as a clock time, under the fixed ISO shape and
/// format or a custom time format.
pub open spec fn spec_is_time_value(cfg: ClassifierView, s: Seq<char>) -> bool {
    ||| (spec_time_shape(s) && chrono_time_ok(s, "%H:%M:%S"@))
    ||| (cfg.time_format != "%H:%M:%S"@ && chrono_time_ok(s, cfg.time_format))
}

/// Whether the text reads as a timestamp, under the fixed ISO shape and
/// format or a custom datetime format.
pub open spec fn spec_is_datetime_value(cfg: ClassifierView, s: Seq<char>) -> bool {
    ||| (spec_datetime_shape(s) && chrono_datetime_ok(s, "%Y-%m-%d %H:%M:%S"@))
    ||| (cfg.datetime_format != "%Y-%m-%d %H:%M:%S"@ && chrono_datetime_ok(s, cfg.datetime_format))
}

/// Number of bytes in the UTF-8 encoding of the character sequence.
pub open spec fn spec_byte_len(s: Seq<char>) -> nat {
    encode_utf8(s).len()
}

/// The leaf type of one trimmed value, tested in the fixed, significant
/// order: boolean token, integer literal, decimal/scientific literal, date,
/// time, datetime, and character data as the fallback. An empty text (never
/// handed in by the aggregator, which filters nulls first) degenerates to
/// bounded character data of length one.
pub open spec fn spec_classify(cfg: ClassifierView, s: Seq<char>) -> SqlType {
    if s.len() == 0 {
        SqlType::Varchar(Some(1usize))
    } else if spec_matches_any_token(cfg.true_tokens, s) || spec_matches_any_token(
        cfg.false_tokens,
        s,
    ) {
        SqlType::Boolean
    } else if spec_is_integer_literal(s) {
        spec_integer_class(spec_int_value(s))
    } else if spec_is_double_literal(s) {
        SqlType::DoublePrecision
    } else if spec_is_date_value(cfg, s) {
        SqlType::Date
    } else if spec_is_time_value(cfg, s) {
        SqlType::Time
    } else if spec_is_datetime_value(cfg, s) {
        SqlType::DateTime
    } else {
        SqlType::Varchar(Some(spec_byte_len(s) as usize))
    }
}

/// Default token sets for boolean detection.
pub open spec fn spec_default_true_tokens() -> Seq<Seq<char>> {
    seq!["true"@, "t"@, "yes"@, "y"@, "1"@]
}

/// Default token sets for boolean detection.
pub open spec fn spec_default_false_tokens() -> Seq<Seq<char>> {
    seq!["false"@, "f"@, "no"@, "n"@, "0"@]
}

/// The configuration the classifier starts from: ISO formats and the common
/// boolean token sets.
pub open spec fn spec_default_classifier() -> ClassifierView {
    ClassifierView {
        date_format: "%Y-%m-%d"@,
        time_format: "%H:%M:%S"@,
        datetime_format: "%Y-%m-%d %H:%M:%S"@,
        true_tokens: spec_default_true_tokens(),
        false_tokens: spec_default_false_tokens(),
    }
}

/// The per-value classifier: holds the configured date, time and datetime
/// format strings and the boolean token sets, and maps one string to the
/// most specific leaf type.
#[derive(Debug)]
pub struct TypeInferencer {
    date_format: String,
    time_format: String,
    datetime_format: String,
    true_values: Vec<String>,
    false_values: Vec<String>,
}

impl View for TypeInferencer {
    type V = ClassifierView;

    closed spec fn view(&self) -> ClassifierView {
        ClassifierView {
            date_format: self.date_format@,
            time_format: self.time_format@,
            datetime_format: self.datetime_format@,
            true_tokens: self.true_values.deep_view(),
            false_tokens: self.false_values.deep_view(),
        }
    }
}

/// Checks the text against every token of the set, up to ASCII case.
fn matches_any_token(tokens: &Vec<String>, s: &str) -> (r: bool)
    ensures
        r == spec_matches_any_token(tokens.deep_view(), s@),
{
    let n = tokens.len();
    let mut i: usize = 0;
    while i < n
        invariant
            n == tokens@.len(),
            i <= n,
            forall|j: int|
                0 <= j < i ==> !spec_eq_ignore_ascii_case(#[trigger] tokens.deep_view()[j], s@),
        decreases n - i,
    {
        if eq_ignore_ascii_case(tokens[i].as_str(), s) {
            proof {
                assert(tokens.deep_view()[i as int] == tokens@[i as int]@);
            }
            return true;
        }
        i = i + 1;
    }
    false
}

impl Clone for TypeInferencer {
    /// A copy with the same configuration.
    fn clone(&self) -> (r: Self)
        ensures
            r@ == self@,
    {
        let r = TypeInferencer {
            date_format: self.date_format.clone(),
            time_format: self.time_format.clone(),
            datetime_format: self.datetime_format.clone(),
            true_values: clone_strings(&self.true_values),
            false_values: clone_strings(&self.false_values),
        };
        proof {
            assert(r@ =~= self@);
        }
        r
    }
}

impl TypeInferencer {
    /// A classifier with the ISO format strings and the common boolean token
    /// sets.
    pub fn new() -> (r: Self)
        ensures
            r@ == spec_default_classifier(),
    {
        let mut true_values: Vec<String> = Vec::new();
        true_values.push("true".to_owned());
        true_values.push("t".to_owned());
        true_values.push("yes".to_owned());
        true_values.push("y".to_owned());
        true_values.push("1".to_owned());
        let mut false_values: Vec<String> = Vec::new();
        false_values.push("false".to_owned());
        false_values.push("f".to_owned());
        false_values.push("no".to_owned());
        false_values.push("n".to_owned());
        false_values.push("0".to_owned());
        let r = TypeInferencer {
            date_format: "%Y-%m-%d".to_owned(),
            time_format: "%H:%M:%S".to_owned(),
            datetime_format: "%Y-%m-%d %H:%M:%S".to_owned(),
            true_values,
            false_values,
        };
        proof {
            assert(r.true_values.deep_view() =~= spec_default_true_tokens());
            assert(r.false_values.deep_view() =~= spec_default_false_tokens());
            assert(r@ =~= spec_default_classifier());
        }
        r
    }

    /// A classifier with the given format strings where supplied, and the
    /// ISO defaults elsewhere.
    pub fn with_formats(
        date_fmt: Option<String>,
        time_fmt: Option<String>,
        datetime_fmt: Option<String>,
    ) -> (r: Self)
        ensures
            r@.date_format == (match date_fmt {
                Some(f) => f@,
                None => "%Y-%m-%d"@,
            }),
            r@.time_format == (match time_fmt {
                Some(f) => f@,
                None => "%H:%M:%S"@,
            }),
            r@.datetime_format == (match datetime_fmt {
                Some(f) => f@,
                None => "%Y-%m-%d %H:%M:%S"@,
            }),
            r@.true_tokens == spec_default_true_tokens(),
            r@.false_tokens == spec_default_false_tokens(),
    {
        let mut inferencer = Self::new();
        if let Some(fmt) = date_fmt {
            inferencer.date_format = fmt;
        }
        if let Some(fmt) = time_fmt {
            inferencer.time_format = fmt;
        }
        if let Some(fmt) = datetime_fmt {
            inferencer.datetime_format = fmt;
        }
        inferencer
    }

    /// This classifier with the boolean token sets replaced.
    pub fn with_boolean_values(self, true_vals: Vec<String>, false_vals: Vec<String>) -> (r: Self)
        ensures
            r@.true_tokens == true_vals.deep_view(),
            r@.false_tokens == false_vals.deep_view(),
            r@.date_format == self@.date_format,
            r@.time_format == self@.time_format,
            r@.datetime_format == self@.datetime_format,
    {
        TypeInferencer {
            date_format: self.date_format,
            time_format: self.time_format,
            datetime_format: self.datetime_format,
            true_values: true_vals,
            false_values: false_vals,
        }
    }

    fn is_boolean_true(&self, value: &str) -> (r: bool)
        ensures
            r == spec_matches_any_token(self@.true_tokens, value@),
    {
        matches_any_token(&self.true_values, value)
    }

    fn is_boolean_false(&self, value: &str) -> (r: bool)
        ensures
            r == spec_matches_any_token(self@.false_tokens, value@),
    {
        matches_any_token(&self.false_values, value)
    }

    fn is_date(&self, value: &str) -> (r: bool)
        ensures
            r == spec_is_date_value(self@, value@),
    {
        if date_shape(value) && parse_date_ok(value, "%Y-%m-%d") {
            return true;
        }
        if !str_eq_str(self.date_format.as_str(), "%Y-%m-%d") && parse_date_ok(
            value,
            self.date_format.as_str(),
        ) {
            return true;
        }
        false
    }

    fn is_time(&self, value: &str) -> (r: bool)
        ensures
            r == spec_is_time_value(self@, value@),
    {
        if time_shape(value) && parse_time_ok(value, "%H:%M:%S") {
            return true;
        }
        if !str_eq_str(self.time_format.as_str(), "%H:%M:%S") && parse_time_ok(
            value,
            self.time_format.as_str(),
        ) {
            return true;
        }
        false
    }

    fn is_datetime(&self, value: &str) -> (r: bool)
        ensures
            r == spec_is_datetime_value(self@, value@),
    {
        if datetime_shape(value) && parse_datetime_ok(value, "%Y-%m-%d %H:%M:%S") {
            return true;
        }
        if !str_eq_str(self.datetime_format.as_str(), "%Y-%m-%d %H:%M:%S") && parse_datetime_ok(
            value,
            self.datetime_format.as_str(),
        ) {
            return true;
        }
        false
    }

    /// The most specific leaf type of the value after trimming, testing the
    /// grammars in the fixed order: boolean token, integer, decimal, date,
    /// time, datetime, and bounded character data of the trimmed byte length
    /// as the fallback.
    pub fn infer_type(&self, value: &str) -> (t: SqlType)
        ensures
            t == spec_classify(self@, spec_trim(value@)),
    {
        let trimmed = trim(value);
        if trimmed.is_empty() {
            return SqlType::Varchar(Some(1));
        }
        if self.is_boolean_true(trimmed) || self.is_boolean_false(trimmed) {
            return SqlType::Boolean;
        }
        if is_integer_literal(trimmed) {
            return classify_integer(trimmed);
        }
        if is_double_literal(trimmed) {
            return SqlType::DoublePrecision;
        }
        if self.is_date(trimmed) {
            return SqlType::Date;
        }
        if self.is_time(trimmed) {
            return SqlType::Time;
        }
        if self.is_datetime(trimmed) {
            return SqlType::DateTime;
        }
        SqlType::Varchar(Some(trimmed.len()))
    }
}

} // verus!
