//! The items a stream is made of, and the ASCII character classes over them.

use vstd::prelude::*;

verus! {

/// An item of an input stream (a `char` or a byte).
///
/// Every item has a numeric code (its Unicode scalar value, or its byte value);
/// newlines and the ASCII classes are decided on that code.
pub trait StreamItem: Copy + DeepView<V = Self> {
    spec fn spec_code(self) -> u32;

    /// An item is its own deep view.
    proof fn lemma_deep_view(self)
        ensures
            self.deep_view() == self,
    ;

    /// The numeric code of the item.
    fn code(&self) -> (r: u32)
        ensures
            r == self.spec_code(),
    ;

    /// Whether two items are the same item.
    fn same(&self, other: &Self) -> (r: bool)
        ensures
            r == (*self == *other),
    ;
}

impl StreamItem for char {
    open spec fn spec_code(self) -> u32 {
        self as u32
    }

    proof fn lemma_deep_view(self) {
    }

    fn code(&self) -> (r: u32) {
        *self as u32
    }

    fn same(&self, other: &Self) -> (r: bool) {
        *self == *other
    }
}

impl StreamItem for u8 {
    open spec fn spec_code(self) -> u32 {
        self as u32
    }

    proof fn lemma_deep_view(self) {
    }

    fn code(&self) -> (r: u32) {
        *self as u32
    }

    fn same(&self, other: &Self) -> (r: bool) {
        *self == *other
    }
}

/// A sequence of items is its own deep view.
pub proof fn lemma_items_deep_view<T: StreamItem>(v: Seq<T>)
    ensures
        Seq::new(v.len(), |i: int| v[i].deep_view()) == v,
{
    assert forall|i: int| 0 <= i < v.len() implies v[i].deep_view() == v[i] by {
        v[i].lemma_deep_view();
    }
    assert(Seq::new(v.len(), |i: int| v[i].deep_view()) =~= v);
}

/// The code of a line feed.
pub const NEWLINE_CODE: u32 = 10;

pub open spec fn is_newline<T: StreamItem>(t: T) -> bool {
    t.spec_code() == NEWLINE_CODE
}

/// Whether an item is a line feed.
pub fn item_is_newline<T: StreamItem>(t: &T) -> (r: bool)
    ensures
        r == is_newline(*t),
{
    t.code() == NEWLINE_CODE
}

/// The ASCII character classes that `cond` parsers commonly test for.
#[derive(Clone, Copy, Debug, PartialEq, Eq, Structural)]
pub enum AsciiClass {
    Letter,
    Digit,
    AlphaNum,
    Whitespace,
    Punctuation,
    HexDigit,
}

pub open spec fn code_is_digit(c: u32) -> bool {
    48 <= c <= 57
}

pub open spec fn code_is_letter(c: u32) -> bool {
    (65 <= c <= 90) || (97 <= c <= 122)
}

pub open spec fn code_is_whitespace(c: u32) -> bool {
    c == 32 || c == 9 || c == 10 || c == 12 || c == 13
}

pub open spec fn code_is_punctuation(c: u32) -> bool {
    (33 <= c <= 47) || (58 <= c <= 64) || (91 <= c <= 96) || (123 <= c <= 126)
}

pub open spec fn code_is_hexdigit(c: u32) -> bool {
    code_is_digit(c) || (65 <= c <= 70) || (97 <= c <= 102)
}

impl AsciiClass {
    /// Whether a code belongs to the class.
    pub open spec fn contains(self, c: u32) -> bool {
        match self {
            AsciiClass::Letter => code_is_letter(c),
            AsciiClass::Digit => code_is_digit(c),
            AsciiClass::AlphaNum => code_is_letter(c) || code_is_digit(c),
            AsciiClass::Whitespace => code_is_whitespace(c),
            AsciiClass::Punctuation => code_is_punctuation(c),
            AsciiClass::HexDigit => code_is_hexdigit(c),
        }
    }

    /// Tests an item's code against the class.
    pub fn test_code(&self, c: u32) -> (r: bool)
        ensures
            r == self.contains(c),
    {
        match self {
            AsciiClass::Letter => (65 <= c && c <= 90) || (97 <= c && c <= 122),
            AsciiClass::Digit => 48 <= c && c <= 57,
            AsciiClass::AlphaNum => (65 <= c && c <= 90) || (97 <= c && c <= 122) || (48 <= c
                && c <= 57),
            AsciiClass::Whitespace => c == 32 || c == 9 || c == 10 || c == 12 || c == 13,
            AsciiClass::Punctuation => (33 <= c && c <= 47) || (58 <= c && c <= 64) || (91 <= c
                && c <= 96) || (123 <= c && c <= 126),
            AsciiClass::HexDigit => (48 <= c && c <= 57) || (65 <= c && c <= 70) || (97 <= c
                && c <= 102),
        }
    }

    /// The human-readable name of the class.
    pub open spec fn spec_description(self) -> Seq<char> {
        match self {
            AsciiClass::Letter => "an ascii letter"@,
            AsciiClass::Digit => "an ascii digit"@,
            AsciiClass::AlphaNum => "an ascii letter or digit"@,
            AsciiClass::Whitespace => "an ascii whitespace character"@,
            AsciiClass::Punctuation => "an ascii punctuation character"@,
            AsciiClass::HexDigit => "an ascii hexadecimal digit"@,
        }
    }

    /// The human-readable name of the class, used as an expectation in errors.
    pub fn description(&self) -> (r: &'static str)
        ensures
            r@ == self.spec_description(),
    {
        match self {
            AsciiClass::Letter => "an ascii letter",
            AsciiClass::Digit => "an ascii digit",
            AsciiClass::AlphaNum => "an ascii letter or digit",
            AsciiClass::Whitespace => "an ascii whitespace character",
            AsciiClass::Punctuation => "an ascii punctuation character",
            AsciiClass::HexDigit => "an ascii hexadecimal digit",
        }
    }
}

} // verus!
