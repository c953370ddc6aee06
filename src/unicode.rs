//! Parsers of Unicode character classes, as std's `char` methods define them.

use crate::token::{Cond, Predicate};
use vstd::prelude::*;

verus! {

/// Whether std counts `c` as alphabetic.
pub uninterp spec fn unicode_alphabetic(c: char) -> bool;

/// Whether std counts `c` as numeric.
pub uninterp spec fn unicode_numeric(c: char) -> bool;

/// Whether std counts `c` as whitespace.
pub uninterp spec fn unicode_whitespace(c: char) -> bool;

/// Relies on `char::is_alphabetic`: the answer depends on the character alone.
#[verifier::external_body]
fn is_alphabetic(c: char) -> (r: bool)
    ensures
        r == unicode_alphabetic(c),
{
    c.is_alphabetic()
}

/// Relies on `char::is_numeric`: the answer depends on the character alone.
#[verifier::external_body]
fn is_numeric(c: char) -> (r: bool)
    ensures
        r == unicode_numeric(c),
{
    c.is_numeric()
}

/// Relies on `char::is_whitespace`: the answer depends on the character alone.
#[verifier::external_body]
fn is_whitespace(c: char) -> (r: bool)
    ensures
        r == unicode_whitespace(c),
{
    c.is_whitespace()
}

/// The Unicode character classes.
#[derive(Clone, Copy, Debug, PartialEq, Eq, Structural)]
pub enum UnicodeClass {
    Letter,
    Numeric,
    AlphaNum,
    Whitespace,
}

impl Predicate<char> for UnicodeClass {
    open spec fn spec_test(&self, c: char) -> bool {
        match self {
            UnicodeClass::Letter => unicode_alphabetic(c),
            UnicodeClass::Numeric => unicode_numeric(c),
            UnicodeClass::AlphaNum => unicode_alphabetic(c) || unicode_numeric(c),
            UnicodeClass::Whitespace => unicode_whitespace(c),
        }
    }

    fn test(&self, c: &char) -> (r: bool) {
        match self {
            UnicodeClass::Letter => is_alphabetic(*c),
            UnicodeClass::Numeric => is_numeric(*c),
            UnicodeClass::AlphaNum => is_alphabetic(*c) || is_numeric(*c),
            UnicodeClass::Whitespace => is_whitespace(*c),
        }
    }
}

/// Parses a Unicode alphabetic character.
pub fn letter() -> (r: Cond<UnicodeClass>)
    ensures
        r.predicate == UnicodeClass::Letter,
        r.description@ == "a unicode letter"@,
{
    Cond { predicate: UnicodeClass::Letter, description: "a unicode letter" }
}

/// Parses a Unicode numeric character.
pub fn numeric() -> (r: Cond<UnicodeClass>)
    ensures
        r.predicate == UnicodeClass::Numeric,
        r.description@ == "a unicode numeric character"@,
{
    Cond { predicate: UnicodeClass::Numeric, description: "a unicode numeric character" }
}

/// Parses a Unicode alphabetic or numeric character.
pub fn alpha_num() -> (r: Cond<UnicodeClass>)
    ensures
        r.predicate == UnicodeClass::AlphaNum,
        r.description@ == "a unicode letter or numeric character"@,
{
    Cond { predicate: UnicodeClass::AlphaNum, description: "a unicode letter or numeric character" }
}

/// Parses a Unicode whitespace character.
pub fn whitespace() -> (r: Cond<UnicodeClass>)
    ensures
        r.predicate == UnicodeClass::Whitespace,
        r.description@ == "a unicode whitespace character"@,
{
    Cond { predicate: UnicodeClass::Whitespace, description: "a unicode whitespace character" }
}

} // verus!
