//! Per-record cleaning used when rewriting delimited data: null-sentinel
//! substitution and newline collapsing, field by field.

use vstd::prelude::*;

use crate::strutil::{contains_str, spec_substitute_newlines, substitute_newlines};

verus! {

/// How fields are quoted in delimited input: with double quotes, with
/// single quotes, or not at all.
#[derive(Clone, Copy, Debug, PartialEq, Eq, Structural)]
pub enum QuoteStyle {
    Double,
    Single,
    Unquoted,
}

impl QuoteStyle {
    /// The quote byte of this style, if it has one.
    pub fn as_byte(&self) -> (r: Option<u8>)
        ensures
            (match *self {
                QuoteStyle::Double => r == Some(34u8),
                QuoteStyle::Single => r == Some(39u8),
                QuoteStyle::Unquoted => r is None,
            }),
    {
        match self {
            QuoteStyle::Double => Some(34),
            QuoteStyle::Single => Some(39),
            QuoteStyle::Unquoted => None,
        }
    }
}

/// The record with every field that matches a null sentinel replaced by the
/// configured null representation.
pub fn transform_nulls(record: &Vec<String>, fnull: &Vec<String>, tnull: &str) -> (r: Vec<String>)
    ensures
        r@.len() == record@.len(),
        forall|i: int|
            0 <= i < record@.len() ==> (#[trigger] r@[i])@ == (if fnull.deep_view().contains(
                record@[i]@,
            ) {
                tnull@
            } else {
                record@[i]@
            }),
{
    let n = record.len();
    let mut out: Vec<String> = Vec::new();
    let mut i: usize = 0;
    while i < n
        invariant
            n == record@.len(),
            i <= n,
            out@.len() == i,
            forall|j: int|
                0 <= j < i ==> (#[trigger] out@[j])@ == (if fnull.deep_view().contains(
                    record@[j]@,
                ) {
                    tnull@
                } else {
                    record@[j]@
                }),
        decreases n - i,
    {
        if contains_str(fnull, record[i].as_str()) {
            out.push(tnull.to_owned());
        } else {
            out.push(record[i].clone());
        }
        i = i + 1;
    }
    out
}

/// The record with every field's embedded line breaks collapsed: each `\n`
/// becomes the replacement text and each `\r` is removed.
pub fn substitute_record_newlines(record: &Vec<String>, sub: &str) -> (r: Vec<String>)
    ensures
        r@.len() == record@.len(),
        forall|i: int|
            0 <= i < record@.len() ==> (#[trigger] r@[i])@ == spec_substitute_newlines(
                record@[i]@,
                sub@,
            ),
{
    let n = record.len();
    let mut out: Vec<String> = Vec::new();
    let mut i: usize = 0;
    while i < n
        invariant
            n == record@.len(),
            i <= n,
            out@.len() == i,
            forall|j: int|
                0 <= j < i ==> (#[trigger] out@[j])@ == spec_substitute_newlines(
                    record@[j]@,
                    sub@,
                ),
        decreases n - i,
    {
        out.push(substitute_newlines(record[i].as_str(), sub));
        i = i + 1;
    }
    out
}

} // verus!
