//! Text outputs and the conversion of decimal text to numbers.

use crate::item::lemma_items_deep_view;
use vstd::prelude::*;

verus! {

/// An output that is a run of characters.
pub trait Text: DeepView<V = Seq<char>> {
    /// The characters.
    fn chars(&self) -> (r: &[char])
        ensures
            r@ == self.deep_view(),
    ;
}

impl Text for Vec<char> {
    fn chars(&self) -> (r: &[char]) {
        proof {
            lemma_items_deep_view(self@);
        }
        self.as_slice()
    }
}

impl<'a> Text for &'a [char] {
    fn chars(&self) -> (r: &[char]) {
        proof {
            lemma_items_deep_view(self@);
        }
        *self
    }
}

/// Whether a character is an ASCII decimal digit.
pub open spec fn is_decimal_digit(c: char) -> bool {
    '0' <= c <= '9'
}

/// The value of a run of decimal digits.
pub open spec fn digits_value(s: Seq<char>) -> nat
    decreases s.len(),
{
    if s.len() == 0 {
        0
    } else {
        digits_value(s.drop_last()) * 10 + ((s.last() as u32) - 48) as nat
    }
}

/// The digits of unsigned decimal text: the text without a leading `+`, if it has one and
/// more after it.
pub open spec fn decimal_digits(s: Seq<char>) -> Seq<char> {
    if s.len() > 1 && s[0] == '+' {
        s.drop_first()
    } else {
        s
    }
}

/// Whether `s` is unsigned decimal text: an optional `+` and one or more digits.
pub open spec fn is_decimal(s: Seq<char>) -> bool {
    let d = decimal_digits(s);
    &&& d.len() > 0
    &&& forall|i: int| 0 <= i < d.len() ==> is_decimal_digit(#[trigger] d[i])
}

/// The number that `s` stands for as unsigned decimal text, if it is such text and the
/// number fits in a `u64`.
pub open spec fn decimal_u64(s: Seq<char>) -> Option<u64> {
    if is_decimal(s) && digits_value(decimal_digits(s)) <= u64::MAX {
        Some(digits_value(decimal_digits(s)) as u64)
    } else {
        None
    }
}

/// The message that std's `u64` parser gives for text it refuses.
pub uninterp spec fn u64_parse_error_text(s: Seq<char>) -> Seq<char>;

/// Relies on `<u64 as core::str::FromStr>::from_str`: it accepts exactly an optional `+`
/// followed by one or more ASCII digits whose value fits, and on refusal its error's
/// `Display` text depends on the text alone.
#[verifier::external_body]
pub(crate) fn parse_u64(text: &str) -> (r: Result<u64, String>)
    ensures
        r matches Ok(n) ==> decimal_u64(text@) == Some(n),
        r matches Err(m) ==> decimal_u64(text@) is None && m@ == u64_parse_error_text(text@),
{
    match text.parse::<u64>() {
        Ok(n) => Ok(n),
        Err(e) => Err(e.to_string()),
    }
}

/// Relies on `String::push`: the character is added at the end.
#[verifier::external_body]
pub(crate) fn push_char(s: &mut String, c: char)
    ensures
        final(s)@ == old(s)@.push(c),
{
    s.push(c)
}

/// The string of the given characters, in order.
pub fn string_of(chars: &[char]) -> (r: String)
    ensures
        r@ == chars@,
{
    let mut r = String::new();
    let mut i: usize = 0;
    while i < chars.len()
        invariant
            i <= chars@.len(),
            r@ == chars@.take(i as int),
        decreases chars@.len() - i,
    {
        push_char(&mut r, chars[i]);
        i = i + 1;
        assert(r@ =~= chars@.take(i as int));
    }
    assert(chars@.take(i as int) =~= chars@);
    r
}

} // verus!
