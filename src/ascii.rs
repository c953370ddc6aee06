//! Parsers of ASCII character classes.

use crate::item::AsciiClass;
use crate::token::Cond;
use vstd::prelude::*;

verus! {

/// Parses one item of `class`, described by the class's name in errors.
pub fn class(c: AsciiClass) -> (r: Cond<AsciiClass>)
    ensures
        r.predicate == c,
        r.description@ == c.spec_description(),
{
    Cond { predicate: c, description: c.description() }
}

/// Parses an ASCII letter.
pub fn letter() -> (r: Cond<AsciiClass>)
    ensures
        r.predicate == AsciiClass::Letter,
        r.description@ == AsciiClass::Letter.spec_description(),
{
    class(AsciiClass::Letter)
}

/// Parses an ASCII digit.
pub fn digit() -> (r: Cond<AsciiClass>)
    ensures
        r.predicate == AsciiClass::Digit,
        r.description@ == AsciiClass::Digit.spec_description(),
{
    class(AsciiClass::Digit)
}

/// Parses an ASCII letter or digit.
pub fn alpha_num() -> (r: Cond<AsciiClass>)
    ensures
        r.predicate == AsciiClass::AlphaNum,
        r.description@ == AsciiClass::AlphaNum.spec_description(),
{
    class(AsciiClass::AlphaNum)
}

/// Parses an ASCII whitespace character.
pub fn whitespace() -> (r: Cond<AsciiClass>)
    ensures
        r.predicate == AsciiClass::Whitespace,
        r.description@ == AsciiClass::Whitespace.spec_description(),
{
    class(AsciiClass::Whitespace)
}

/// Parses an ASCII punctuation character.
pub fn punctuation() -> (r: Cond<AsciiClass>)
    ensures
        r.predicate == AsciiClass::Punctuation,
        r.description@ == AsciiClass::Punctuation.spec_description(),
{
    class(AsciiClass::Punctuation)
}

/// Parses an ASCII hexadecimal digit.
pub fn hex_digit() -> (r: Cond<AsciiClass>)
    ensures
        r.predicate == AsciiClass::HexDigit,
        r.description@ == AsciiClass::HexDigit.spec_description(),
{
    class(AsciiClass::HexDigit)
}

} // verus!
