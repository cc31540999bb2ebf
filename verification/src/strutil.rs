//! Verified string primitives: trimming, comparison, case folding and
//! decimal rendering, stated over character-sequence views.

use vstd::prelude::*;
use vstd::string::StringSliceAdditionalSpecFns;

verus! {

/// Whether a character has the Unicode `White_Space` property, a function of
/// the character alone.
pub uninterp spec fn is_unicode_whitespace(c: char) -> bool;

/// Relies on `char::is_whitespace` from std: true exactly for characters with
/// the Unicode `White_Space` property, which includes space, tab, line feed
/// and carriage return.
#[verifier::external_body]
fn char_is_whitespace(c: char) -> (r: bool)
    ensures
        r == is_unicode_whitespace(c),
        (c == ' ' || c == '\t' || c == '\n' || c == '\r') ==> r,
        (33 <= c as u32 <= 126) ==> !r,
{
    c.is_whitespace()
}

/// The sequence with its longest all-whitespace prefix removed.
pub open spec fn spec_trim_start(s: Seq<char>) -> Seq<char>
    decreases s.len(),
{
    if s.len() > 0 && is_unicode_whitespace(s[0]) {
        spec_trim_start(s.drop_first())
    } else {
        s
    }
}

/// The sequence with its longest all-whitespace suffix removed.
pub open spec fn spec_trim_end(s: Seq<char>) -> Seq<char>
    decreases s.len(),
{
    if s.len() > 0 && is_unicode_whitespace(s.last()) {
        spec_trim_end(s.drop_last())
    } else {
        s
    }
}

/// The sequence with leading and trailing whitespace removed.
pub open spec fn spec_trim(s: Seq<char>) -> Seq<char> {
    spec_trim_end(spec_trim_start(s))
}

/// Borrowed slice of `s` with leading and trailing whitespace removed.
pub fn trim(s: &str) -> (r: &str)
    ensures
        r@ == spec_trim(s@),
{
    let n = s.unicode_len();
    let mut start: usize = 0;
    proof {
        assert(s@.subrange(0, n as int) =~= s@);
    }
    while start < n && char_is_whitespace(s.get_char(start))
        invariant
            n == s@.len(),
            start <= n,
            spec_trim_start(s@) == spec_trim_start(s@.subrange(start as int, n as int)),
        decreases n - start,
    {
        proof {
            assert(s@.subrange(start as int, n as int).drop_first() =~= s@.subrange(
                start as int + 1,
                n as int,
            ));
        }
        start = start + 1;
    }
    proof {
        assert(spec_trim_start(s@) == s@.subrange(start as int, n as int));
    }
    let mut end: usize = n;
    while end > start && char_is_whitespace(s.get_char(end - 1))
        invariant
            n == s@.len(),
            start <= end <= n,
            spec_trim_end(s@.subrange(start as int, n as int)) == spec_trim_end(
                s@.subrange(start as int, end as int),
            ),
        decreases end,
    {
        proof {
            assert(s@.subrange(start as int, end as int).drop_last() =~= s@.subrange(
                start as int,
                end as int - 1,
            ));
        }
        end = end - 1;
    }
    proof {
        assert(spec_trim_end(s@.subrange(start as int, end as int)) == s@.subrange(
            start as int,
            end as int,
        ));
    }
    s.substring_char(start, end)
}

proof fn lemma_trim_start_head(s: Seq<char>)
    ensures
        spec_trim_start(s).len() > 0 ==> !is_unicode_whitespace(spec_trim_start(s)[0]),
    decreases s.len(),
{
    if s.len() > 0 && is_unicode_whitespace(s[0]) {
        lemma_trim_start_head(s.drop_first());
    }
}

proof fn lemma_trim_end_last(s: Seq<char>)
    ensures
        spec_trim_end(s).len() > 0 ==> !is_unicode_whitespace(spec_trim_end(s).last()),
    decreases s.len(),
{
    if s.len() > 0 && is_unicode_whitespace(s.last()) {
        lemma_trim_end_last(s.drop_last());
    }
}

proof fn lemma_trim_end_prefix(s: Seq<char>)
    ensures
        spec_trim_end(s).len() <= s.len(),
        spec_trim_end(s) == s.take(spec_trim_end(s).len() as int),
    decreases s.len(),
{
    if s.len() > 0 && is_unicode_whitespace(s.last()) {
        lemma_trim_end_prefix(s.drop_last());
        let t = spec_trim_end(s);
        assert(s.drop_last() =~= s.take(s.len() - 1));
        assert(s.take(s.len() - 1).take(t.len() as int) =~= s.take(t.len() as int));
    } else {
        assert(s.take(s.len() as int) =~= s);
    }
}

/// Law: trimming is idempotent; a trimmed text trims to itself.
pub proof fn lemma_trim_idempotent(s: Seq<char>)
    ensures
        spec_trim(spec_trim(s)) == spec_trim(s),
{
    let a = spec_trim_start(s);
    let t = spec_trim_end(a);
    lemma_trim_start_head(s);
    lemma_trim_end_last(a);
    lemma_trim_end_prefix(a);
    if t.len() > 0 {
        assert(t[0] == a.take(t.len() as int)[0]);
        assert(t[0] == a[0]);
        assert(!is_unicode_whitespace(t[0]));
        assert(spec_trim_start(t) == t);
        assert(!is_unicode_whitespace(t.last()));
        assert(spec_trim_end(t) == t);
    }
}

/// Character-wise equality of two string slices.
pub fn str_eq_str(a: &str, b: &str) -> (r: bool)
    ensures
        r == (a@ == b@),
{
    let na = a.unicode_len();
    let nb = b.unicode_len();
    if na != nb {
        return false;
    }
    let mut i: usize = 0;
    while i < na
        invariant
            na == a@.len(),
            na == b@.len(),
            i <= na,
            forall|j: int| 0 <= j < i ==> a@[j] == b@[j],
        decreases na - i,
    {
        if a.get_char(i) != b.get_char(i) {
            return false;
        }
        i = i + 1;
    }
    proof {
        assert(a@ =~= b@);
    }
    true
}

/// Strict lexicographic order over byte sequences.
pub open spec fn spec_bytes_lt(a: Seq<u8>, b: Seq<u8>) -> bool
    decreases a.len(),
{
    if b.len() == 0 {
        false
    } else if a.len() == 0 {
        true
    } else if a[0] < b[0] {
        true
    } else if a[0] > b[0] {
        false
    } else {
        spec_bytes_lt(a.drop_first(), b.drop_first())
    }
}

/// True when `a` orders strictly before `b` byte-wise, the order `str`
/// comparison uses.
pub fn str_lt(a: &str, b: &str) -> (r: bool)
    ensures
        r == spec_bytes_lt(a.spec_bytes(), b.spec_bytes()),
{
    let ab = a.as_bytes();
    let bb = b.as_bytes();
    let na = ab.len();
    let nb = bb.len();
    let mut i: usize = 0;
    proof {
        assert(ab@.skip(0) =~= ab@);
        assert(bb@.skip(0) =~= bb@);
    }
    while i < na && i < nb
        invariant
            ab@ == a.spec_bytes(),
            bb@ == b.spec_bytes(),
            na == ab@.len(),
            nb == bb@.len(),
            i <= na,
            i <= nb,
            spec_bytes_lt(ab@, bb@) == spec_bytes_lt(
                ab@.skip(i as int),
                bb@.skip(i as int),
            ),
        decreases na - i,
    {
        let x = ab[i];
        let y = bb[i];
        if x < y {
            return true;
        }
        if x > y {
            return false;
        }
        proof {
            assert(ab@.skip(i as int).drop_first() =~= ab@.skip(i as int + 1));
            assert(bb@.skip(i as int).drop_first() =~= bb@.skip(i as int + 1));
        }
        i = i + 1;
    }
    na < nb
}

/// Strict lexicographic byte order between two texts, the order `str`
/// comparison uses.
pub open spec fn spec_str_lt(a: Seq<char>, b: Seq<char>) -> bool {
    spec_bytes_lt(vstd::utf8::encode_utf8(a), vstd::utf8::encode_utf8(b))
}

/// Whether some element of the vector holds exactly the text `s`.
pub fn contains_str(v: &Vec<String>, s: &str) -> (r: bool)
    ensures
        r == v.deep_view().contains(s@),
{
    let n = v.len();
    let mut i: usize = 0;
    while i < n
        invariant
            n == v@.len(),
            i <= n,
            forall|j: int| 0 <= j < i ==> v.deep_view()[j] != s@,
        decreases n - i,
    {
        if str_eq_str(v[i].as_str(), s) {
            proof {
                assert(v.deep_view()[i as int] == s@);
            }
            return true;
        }
        i = i + 1;
    }
    proof {
        assert(forall|j: int| 0 <= j < v.deep_view().len() ==> v.deep_view()[j] != s@);
    }
    false
}

/// A copy of a vector of strings holding the same texts.
pub fn clone_strings(v: &Vec<String>) -> (r: Vec<String>)
    ensures
        r.deep_view() == v.deep_view(),
{
    let mut r: Vec<String> = Vec::new();
    let n = v.len();
    let mut i: usize = 0;
    while i < n
        invariant
            n == v@.len(),
            i <= n,
            r@.len() == i,
            forall|j: int| 0 <= j < i ==> r.deep_view()[j] == v.deep_view()[j],
        decreases n - i,
    {
        r.push(v[i].clone());
        i = i + 1;
    }
    proof {
        assert(r.deep_view() =~= v.deep_view());
    }
    r
}

/// ASCII lower-case folding of a character's scalar value.
pub open spec fn spec_ascii_lower(x: u32) -> u32 {
    if 65 <= x <= 90 {
        (x + 32) as u32
    } else {
        x
    }
}

/// Equality of two character sequences up to ASCII case.
pub open spec fn spec_eq_ignore_ascii_case(a: Seq<char>, b: Seq<char>) -> bool {
    a.len() == b.len() && forall|i: int|
        0 <= i < a.len() ==> spec_ascii_lower(a[i] as u32) == spec_ascii_lower(b[i] as u32)
}

/// Character-wise comparison of two string slices up to ASCII case.
pub fn eq_ignore_ascii_case(a: &str, b: &str) -> (r: bool)
    ensures
        r == spec_eq_ignore_ascii_case(a@, b@),
{
    let na = a.unicode_len();
    let nb = b.unicode_len();
    if na != nb {
        return false;
    }
    let mut i: usize = 0;
    while i < na
        invariant
            na == a@.len(),
            na == b@.len(),
            i <= na,
            forall|j: int|
                0 <= j < i ==> spec_ascii_lower(a@[j] as u32) == spec_ascii_lower(b@[j] as u32),
        decreases na - i,
    {
        let x = a.get_char(i) as u32;
        let y = b.get_char(i) as u32;
        let xl = if 65 <= x && x <= 90 {
            x + 32
        } else {
            x
        };
        let yl = if 65 <= y && y <= 90 {
            y + 32
        } else {
            y
        };
        if xl != yl {
            return false;
        }
        i = i + 1;
    }
    true
}

/// The decimal digit character for a value below ten.
pub open spec fn spec_digit_char(d: int) -> char {
    if d == 0 {
        '0'
    } else if d == 1 {
        '1'
    } else if d == 2 {
        '2'
    } else if d == 3 {
        '3'
    } else if d == 4 {
        '4'
    } else if d == 5 {
        '5'
    } else if d == 6 {
        '6'
    } else if d == 7 {
        '7'
    } else if d == 8 {
        '8'
    } else {
        '9'
    }
}

/// The decimal rendering of a non-negative integer, most significant digit
/// first, with no leading zeros except for zero itself.
pub open spec fn spec_nat_digits(n: int) -> Seq<char>
    decreases n,
{
    if n < 10 {
        seq![spec_digit_char(n)]
    } else {
        spec_nat_digits(n / 10).push(spec_digit_char(n % 10))
    }
}

fn digit_str(d: usize) -> (r: &'static str)
    requires
        d < 10,
    ensures
        r@ == seq![spec_digit_char(d as int)],
{
    let r: &'static str = if d == 0 {
        "0"
    } else if d == 1 {
        "1"
    } else if d == 2 {
        "2"
    } else if d == 3 {
        "3"
    } else if d == 4 {
        "4"
    } else if d == 5 {
        "5"
    } else if d == 6 {
        "6"
    } else if d == 7 {
        "7"
    } else if d == 8 {
        "8"
    } else {
        "9"
    };
    proof {
        reveal_strlit("0");
        reveal_strlit("1");
        reveal_strlit("2");
        reveal_strlit("3");
        reveal_strlit("4");
        reveal_strlit("5");
        reveal_strlit("6");
        reveal_strlit("7");
        reveal_strlit("8");
        reveal_strlit("9");
        assert(r@ =~= seq![spec_digit_char(d as int)]);
    }
    r
}

/// Decimal rendering of `n`.
pub fn usize_to_string(n: usize) -> (r: String)
    ensures
        r@ == spec_nat_digits(n as int),
    decreases n,
{
    if n < 10 {
        digit_str(n).to_owned()
    } else {
        let mut s = usize_to_string(n / 10);
        s.append(digit_str(n % 10));
        proof {
            assert(s@ =~= spec_nat_digits(n as int));
        }
        s
    }
}

/// The text with every carriage return removed.
pub open spec fn spec_strip_cr(s: Seq<char>) -> Seq<char> {
    s.flat_map(
        |c: char|
            if c == '\r' {
                Seq::<char>::empty()
            } else {
                seq![c]
            },
    )
}

/// Removes every carriage return from the text.
fn strip_cr(s: &str) -> (r: String)
    ensures
        r@ == spec_strip_cr(s@),
{
    let ghost f = |c: char|
        if c == '\r' {
            Seq::<char>::empty()
        } else {
            seq![c]
        };
    let n = s.unicode_len();
    let mut out = String::new();
    let mut i: usize = 0;
    proof {
        assert(out@ =~= s@.take(0).flat_map(f));
    }
    while i < n
        invariant
            n == s@.len(),
            i <= n,
            out@ == s@.take(i as int).flat_map(f),
            f == (|c: char|
                if c == '\r' {
                    Seq::<char>::empty()
                } else {
                    seq![c]
                }),
        decreases n - i,
    {
        let c = s.get_char(i);
        if c != '\r' {
            let piece = s.substring_char(i, i + 1);
            proof {
                assert(piece@ =~= seq![s@[i as int]]);
            }
            out.append(piece);
        }
        proof {
            s@.lemma_flat_map_take_append(f, i as int);
        }
        i = i + 1;
    }
    proof {
        assert(s@.take(n as int) =~= s@);
    }
    out
}

/// What one character contributes after newline substitution: a line feed
/// becomes the replacement text (itself cleared of carriage returns, since
/// the removal pass runs over the substituted text), a carriage return is
/// dropped, anything else stands unchanged.
pub open spec fn spec_newline_subst_char(c: char, sub: Seq<char>) -> Seq<char> {
    if c == '\n' {
        spec_strip_cr(sub)
    } else if c == '\r' {
        Seq::empty()
    } else {
        seq![c]
    }
}

/// The text with every line feed replaced by `sub` and every carriage return
/// removed, carriage returns inside the replacement included.
pub open spec fn spec_substitute_newlines(s: Seq<char>, sub: Seq<char>) -> Seq<char> {
    s.flat_map(|c| spec_newline_subst_char(c, sub))
}

/// Collapses embedded line breaks: every `\n` in `s` becomes `sub` and every
/// `\r` is removed (also from the inserted replacement), so multi-line cell
/// content becomes one logical line.
pub fn substitute_newlines(s: &str, sub: &str) -> (r: String)
    ensures
        r@ == spec_substitute_newlines(s@, sub@),
{
    let ghost f = |c: char| spec_newline_subst_char(c, sub@);
    let sub_clean = strip_cr(sub);
    let n = s.unicode_len();
    let mut out = String::new();
    let mut i: usize = 0;
    proof {
        assert(s@.take(0).map_values(f) =~= Seq::<Seq<char>>::empty());
        assert(s@.take(0).flat_map(f) =~= Seq::<char>::empty());
    }
    while i < n
        invariant
            n == s@.len(),
            i <= n,
            sub_clean@ == spec_strip_cr(sub@),
            out@ == s@.take(i as int).flat_map(f),
            f == (|c: char| spec_newline_subst_char(c, sub@)),
        decreases n - i,
    {
        let c = s.get_char(i);
        if c == '\n' {
            out.append(sub_clean.as_str());
        } else if c == '\r' {
        } else {
            let piece = s.substring_char(i, i + 1);
            proof {
                assert(piece@ =~= seq![s@[i as int]]);
            }
            out.append(piece);
        }
        proof {
            s@.lemma_flat_map_take_append(f, i as int);
        }
        i = i + 1;
    }
    proof {
        assert(s@.take(n as int) =~= s@);
    }
    out
}

/// Whether a character is alphanumeric in the Unicode sense, a function of
/// the character alone.
pub uninterp spec fn is_unicode_alphanumeric(c: char) -> bool;

/// Relies on `char::is_alphanumeric` from std: true exactly for characters in
/// the Unicode categories letter and number.
#[verifier::external_body]
fn char_is_alphanumeric(c: char) -> (r: bool)
    ensures
        r == is_unicode_alphanumeric(c),
{
    c.is_alphanumeric()
}

/// One character of an identifier after sanitizing: alphanumeric characters
/// and underscores stand, everything else becomes an underscore.
pub open spec fn spec_sanitize_char(c: char) -> char {
    if is_unicode_alphanumeric(c) || c == '_' {
        c
    } else {
        '_'
    }
}

/// A name made safe for use as a SQL identifier: every character outside
/// letters, digits and underscore becomes an underscore, and a leading ASCII
/// digit gets an underscore prefixed.
pub open spec fn spec_sanitize_column_name(s: Seq<char>) -> Seq<char> {
    let m = s.map_values(|c: char| spec_sanitize_char(c));
    if m.len() > 0 && 48 <= m[0] as u32 <= 57 {
        seq!['_'] + m
    } else {
        m
    }
}

/// Replaces every character that is not alphanumeric or underscore with an
/// underscore, and prefixes an underscore when the result would start with a
/// digit.
pub fn sanitize_column_name(name: &str) -> (r: String)
    ensures
        r@ == spec_sanitize_column_name(name@),
{
    let ghost f = |c: char| spec_sanitize_char(c);
    let n = name.unicode_len();
    let mut out = String::new();
    let mut i: usize = 0;
    proof {
        assert(name@.take(0).map_values(f) =~= Seq::<char>::empty());
    }
    while i < n
        invariant
            n == name@.len(),
            i <= n,
            out@ == name@.take(i as int).map_values(f),
            f == (|c: char| spec_sanitize_char(c)),
        decreases n - i,
    {
        let c = name.get_char(i);
        if char_is_alphanumeric(c) || c == '_' {
            let piece = name.substring_char(i, i + 1);
            proof {
                assert(piece@ =~= seq![name@[i as int]]);
            }
            out.append(piece);
        } else {
            out.append("_");
            proof {
                reveal_strlit("_");
            }
        }
        proof {
            assert(name@.take(i as int + 1).map_values(f) =~= name@.take(i as int).map_values(
                f,
            ).push(f(name@[i as int])));
            assert(out@ =~= name@.take(i as int + 1).map_values(f));
        }
        i = i + 1;
    }
    proof {
        assert(name@.take(n as int) =~= name@);
    }
    if out.as_str().unicode_len() > 0 {
        let c0 = out.as_str().get_char(0) as u32;
        if 48 <= c0 && c0 <= 57 {
            let mut prefixed = "_".to_owned();
            proof {
                reveal_strlit("_");
            }
            prefixed.append(out.as_str());
            proof {
                assert(prefixed@ =~= spec_sanitize_column_name(name@));
            }
            return prefixed;
        }
    }
    out
}

/// The text shortened to at most `max_len` characters: longer text keeps its
/// first `max_len - 3` characters (none when `max_len` is below three) and
/// ends in an ellipsis.
pub open spec fn spec_truncate(s: Seq<char>, max_len: int) -> Seq<char> {
    if s.len() <= max_len {
        s
    } else {
        let keep = if max_len >= 3 {
            max_len - 3
        } else {
            0
        };
        s.subrange(0, keep) + "..."@
    }
}

/// Shortens text for display to at most `max_len` characters, ending in an
/// ellipsis when anything was cut.
pub fn truncate_string(s: &str, max_len: usize) -> (r: String)
    ensures
        r@ == spec_truncate(s@, max_len as int),
{
    let n = s.unicode_len();
    if n <= max_len {
        s.to_owned()
    } else {
        let keep = if max_len >= 3 {
            max_len - 3
        } else {
            0
        };
        let head = s.substring_char(0, keep);
        let r = head.to_owned().concat("...");
        proof {
            assert(r@ =~= spec_truncate(s@, max_len as int));
        }
        r
    }
}

} // verus!
