//! How positions and messages read to a person.

use crate::error::{Error, Expected, ExpectedView, Unexpected, UnexpectedView};
use crate::position::{IndexPosition, LinePosition, Location, NullPosition};
use crate::text::{push_char, string_of};
use vstd::prelude::*;

verus! {

/// The ten decimal digits, in order.
pub open spec fn digit_chars() -> Seq<char> {
    seq!['0', '1', '2', '3', '4', '5', '6', '7', '8', '9']
}

/// The decimal digits of `n`, without sign or leading zeros.
pub open spec fn decimal_text(n: nat) -> Seq<char>
    decreases n,
{
    if n < 10 {
        seq![digit_chars()[n as int]]
    } else {
        decimal_text(n / 10).push(digit_chars()[(n % 10) as int])
    }
}

/// Relies on `<u64 as ToString>::to_string` (through `Display`): the decimal digits of the
/// number, without sign or leading zeros.
#[verifier::external_body]
fn decimal_string(n: u64) -> (r: String)
    ensures
        r@ == decimal_text(n as nat),
{
    n.to_string()
}

/// A position that can be shown to a person.
pub trait Describe {
    /// The text of the position; empty for a position that tracks nothing.
    spec fn spec_text(&self) -> Seq<char>;

    fn text(&self) -> (r: String)
        ensures
            r@ == self.spec_text(),
    ;
}

impl Describe for NullPosition {
    open spec fn spec_text(&self) -> Seq<char> {
        Seq::empty()
    }

    fn text(&self) -> (r: String) {
        String::new()
    }
}

impl Describe for IndexPosition {
    open spec fn spec_text(&self) -> Seq<char> {
        "index "@ + decimal_text(self.0 as nat)
    }

    fn text(&self) -> (r: String) {
        let mut r = String::from_str("index ");
        let n = decimal_string(self.0 as u64);
        r.append(n.as_str());
        r
    }
}

impl Describe for LinePosition {
    open spec fn spec_text(&self) -> Seq<char> {
        "line "@ + decimal_text(self.line as nat) + ", col "@ + decimal_text(self.column as nat)
    }

    fn text(&self) -> (r: String) {
        let mut r = String::from_str("line ");
        let line = decimal_string(self.line as u64);
        r.append(line.as_str());
        r.append(", col ");
        let column = decimal_string(self.column as u64);
        r.append(column.as_str());
        r
    }
}

/// `msg` placed at position `p`: "`msg` at `p`", or `msg` alone where `p` has no text.
pub open spec fn spec_message_at(msg: Seq<char>, p: Seq<char>) -> Seq<char> {
    if p.len() == 0 {
        msg
    } else {
        msg + " at "@ + p
    }
}

/// Places a message at a position, for a person to read.
pub fn fmt_msg<X: Describe>(msg: &str, p: &X) -> (r: String)
    ensures
        r@ == spec_message_at(msg@, p.spec_text()),
{
    let text = p.text();
    if text.as_str().is_empty() {
        String::from_str(msg)
    } else {
        let mut r = String::from_str(msg);
        r.append(" at ");
        r.append(text.as_str());
        r
    }
}

/// A character between single quotes.
pub open spec fn quoted_char(c: char) -> Seq<char> {
    seq!['\'', c, '\'']
}

/// Characters between double quotes.
pub open spec fn quoted_text(t: Seq<char>) -> Seq<char> {
    seq!['"'] + t + seq!['"']
}

/// How an unexpected fact reads.
pub open spec fn unexpected_text(u: UnexpectedView<char>) -> Seq<char> {
    match u {
        UnexpectedView::EndOfInput => "unexpected end of input"@,
        UnexpectedView::Item(c) => "unexpected "@ + quoted_char(c),
        UnexpectedView::Range(r) => "unexpected "@ + quoted_text(r),
        UnexpectedView::Message(m) => m,
    }
}

/// How an expected fact reads.
pub open spec fn expected_text(e: ExpectedView<char>) -> Seq<char> {
    match e {
        ExpectedView::Item(c) => quoted_char(c),
        ExpectedView::Range(r) => quoted_text(r),
        ExpectedView::Description(d) => d,
    }
}

/// The expected facts, separated by " or ".
pub open spec fn alternatives_text(es: Seq<ExpectedView<char>>) -> Seq<char>
    decreases es.len(),
{
    if es.len() == 0 {
        Seq::empty()
    } else if es.len() == 1 {
        expected_text(es[0])
    } else {
        alternatives_text(es.drop_last()) + " or "@ + expected_text(es.last())
    }
}

/// How an error reads: what was found, what was expected, if anything, and where.
pub open spec fn error_text<X: Describe>(
    u: UnexpectedView<char>,
    es: Seq<ExpectedView<char>>,
    p: X,
) -> Seq<char> {
    let found = if es.len() == 0 {
        unexpected_text(u)
    } else {
        unexpected_text(u) + ", expected "@ + alternatives_text(es)
    };
    spec_message_at(found, p.spec_text())
}

fn append_quoted_char(s: &mut String, c: char)
    ensures
        final(s)@ == old(s)@ + quoted_char(c),
{
    push_char(s, '\'');
    push_char(s, c);
    push_char(s, '\'');
    assert(s@ =~= old(s)@ + quoted_char(c));
}

fn append_quoted_text(s: &mut String, t: &[char])
    ensures
        final(s)@ == old(s)@ + quoted_text(t@),
{
    push_char(s, '"');
    let inner = string_of(t);
    s.append(inner.as_str());
    push_char(s, '"');
    assert(s@ =~= old(s)@ + quoted_text(t@));
}

fn append_expected(s: &mut String, e: &Expected<char>)
    ensures
        final(s)@ == old(s)@ + expected_text(e@),
{
    match e {
        Expected::Item(c) => append_quoted_char(s, *c),
        Expected::Range(r) => append_quoted_text(s, r.as_slice()),
        Expected::Description(d) => s.append(d),
    }
}

impl<X: Describe + Location> Error<char, X> {
    /// The error as a person reads it, such as
    /// "unexpected 'd', expected 'a' or 'b' at index 0".
    pub fn describe(&self) -> (r: String)
        ensures
            r@ == error_text(self@.unexpected, self@.expected, self.position),
    {
        let mut found = String::new();
        match &self.unexpected {
            Unexpected::EndOfInput => found.append("unexpected end of input"),
            Unexpected::Item(c) => {
                found.append("unexpected ");
                append_quoted_char(&mut found, *c);
            },
            Unexpected::Range(r) => {
                found.append("unexpected ");
                append_quoted_text(&mut found, r.as_slice());
            },
            Unexpected::Message(m) => found.append(m.as_str()),
        }
        assert(found@ =~= unexpected_text(self@.unexpected));
        let ghost es = self@.expected;
        let n = self.expected.len();
        if n > 0 {
            found.append(", expected ");
            let ghost head = found@;
            let mut i: usize = 0;
            while i < n
                invariant
                    n == self.expected@.len(),
                    es == self@.expected,
                    i <= n,
                    found@ == head + alternatives_text(es.take(i as int)),
                decreases n - i,
            {
                let ghost before = found@;
                if i > 0 {
                    found.append(" or ");
                }
                append_expected(&mut found, &self.expected[i]);
                proof {
                    let t = es.take(i + 1);
                    assert(t.drop_last() =~= es.take(i as int));
                    assert(t.last() == self.expected@[i as int]@);
                    if i == 0 {
                        assert(es.take(0) =~= Seq::<ExpectedView<char>>::empty());
                        assert(found@ =~= head + alternatives_text(t));
                    } else {
                        assert(found@ =~= head + alternatives_text(t));
                    }
                }
                i = i + 1;
            }
            assert(es.take(n as int) =~= es);
        }
        fmt_msg(found.as_str(), &self.position)
    }
}

} // verus!
