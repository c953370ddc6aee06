use rparse::ascii::{digit, letter};
use rparse::choice::optional;
use rparse::combinator::{bind, flatten, Decimal};
use rparse::display::{fmt_msg, Describe};
use rparse::error::{Error, Expected, Unexpected};
use rparse::item::AsciiClass;
use rparse::many::many1;
use rparse::parser::{ParseResult, Parser};
use rparse::position::{IndexPosition, LinePosition, NullPosition};
use rparse::seq::then;
use rparse::state::State;

fn chars(s: &str) -> Vec<char> {
    s.chars().collect()
}

fn rest<X>(s: &State<char, X>) -> String {
    s.items[s.offset..].iter().collect()
}

#[test]
fn test_flatten() {
    let p = flatten(then(many1(digit()), many1(letter())));
    for (input, out, left, pos) in [("1a", "1a", "", 2), ("0bb3", "0bb", "3", 3)] {
        let v = chars(input);
        let (r, s) = p.parse(State::<char, IndexPosition>::from(&v[..]));
        assert_eq!(r, ParseResult::Matched(chars(out)));
        assert_eq!((rest(&s), s.position), (left.to_string(), IndexPosition(pos)));
    }
    let v = chars("");
    let (r, _) = p.parse(State::<char, IndexPosition>::from(&v[..]));
    assert_eq!(
        r,
        ParseResult::Failed(Error {
            unexpected: Unexpected::EndOfInput,
            expected: vec![Expected::Description("an ascii digit")],
            position: IndexPosition(0),
        })
    );
    let v = chars("3\t");
    let (r, _) = p.parse(State::<char, IndexPosition>::from(&v[..]));
    assert_eq!(
        r,
        ParseResult::Failed(Error {
            unexpected: Unexpected::Item('\t'),
            expected: vec![Expected::Description("an ascii letter")],
            position: IndexPosition(1),
        })
    );
}

#[test]
fn test_bind() {
    let p = bind(optional(many1(digit())), Decimal);
    let v = chars("324 dogs");
    let (r, s) = p.parse(State::<char, IndexPosition>::from(&v[..]));
    assert_eq!(r, ParseResult::Matched(324));
    assert_eq!((rest(&s), s.position), (" dogs".to_string(), IndexPosition(3)));
    let v = chars("dogs");
    let (r, s) = p.parse(State::<char, IndexPosition>::from(&v[..]));
    assert_eq!(r, ParseResult::NoMatch);
    assert_eq!(s.offset, 0);
}

#[test]
fn nth_position_looks_ahead() {
    let v = chars("ab\ncd");
    let s = State::<char, LinePosition>::from(&v[..]);
    assert_eq!(s.nth_position(0), LinePosition { line: 1, column: 1 });
    assert_eq!(s.nth_position(3), LinePosition { line: 2, column: 1 });
    assert_eq!(s.nth_position(5), LinePosition { line: 2, column: 3 });
    assert_eq!(s.offset, 0);
}

#[test]
fn positions_read_as_text() {
    assert_eq!(IndexPosition(42).text(), "index 42");
    assert_eq!(IndexPosition(0).text(), "index 0");
    assert_eq!(LinePosition { line: 3, column: 17 }.text(), "line 3, col 17");
    assert_eq!(NullPosition.text(), "");
    assert_eq!(fmt_msg("unexpected 'x'", &LinePosition { line: 1, column: 2 }), "unexpected 'x' at line 1, col 2");
    assert_eq!(fmt_msg("unexpected 'x'", &NullPosition), "unexpected 'x'");
}

#[test]
fn ascii_class_boundaries() {
    let cases: [(AsciiClass, u32, bool); 10] = [
        (AsciiClass::Digit, '0' as u32, true),
        (AsciiClass::Digit, '/' as u32, false),
        (AsciiClass::Letter, 'Z' as u32, true),
        (AsciiClass::Letter, '[' as u32, false),
        (AsciiClass::Whitespace, '\r' as u32, true),
        (AsciiClass::Whitespace, 11, false),
        (AsciiClass::Punctuation, '~' as u32, true),
        (AsciiClass::Punctuation, '0' as u32, false),
        (AsciiClass::HexDigit, 'f' as u32, true),
        (AsciiClass::HexDigit, 'g' as u32, false),
    ];
    for (class, code, want) in cases {
        assert_eq!(class.test_code(code), want, "{:?} {}", class, code);
    }
}

#[test]
fn stream_of_bytes_tracks_lines() {
    let v: Vec<u8> = b"a\nb".to_vec();
    let mut s = State::<u8, LinePosition>::from(&v[..]);
    assert_eq!(s.peek(), Some(b'a'));
    assert_eq!(s.pop(), Some(b'a'));
    assert_eq!(s.pop(), Some(b'\n'));
    assert_eq!(s.position, LinePosition { line: 2, column: 1 });
    assert_eq!(s.len(), 1);
    assert_eq!(s.remaining(), b"b");
    assert_eq!(s.pop(), Some(b'b'));
    assert_eq!(s.pop(), None);
    assert_eq!(s.position, LinePosition { line: 2, column: 2 });
}

#[test]
fn owned_source_lends_streams() {
    let src = rparse::source::Source::from_text("héllo\nw");
    assert_eq!(src.items, chars("héllo\nw"));
    let s: State<char, LinePosition> = src.stream();
    let (r, s) = many1(letter()).parse(s);
    assert_eq!(r, ParseResult::Matched(vec!['h']));
    assert_eq!(s.position, LinePosition { line: 1, column: 2 });
    let bytes = rparse::source::Source::from_bytes(b"12x");
    let (r, s) = many1(digit()).parse(bytes.stream::<IndexPosition>());
    assert_eq!(r, ParseResult::Matched(vec![b'1', b'2']));
    assert_eq!(s.offset, 2);
}

#[test]
fn errors_read_as_text() {
    let e = Error {
        unexpected: Unexpected::Item('d'),
        expected: vec![Expected::Item('a'), Expected::Range(chars("bc")), Expected::Description("a digit")],
        position: IndexPosition(0),
    };
    assert_eq!(e.describe(), "unexpected 'd', expected 'a' or \"bc\" or a digit at index 0");
    let e: Error<char, LinePosition> = Error::eof(LinePosition { line: 2, column: 5 });
    assert_eq!(e.describe(), "unexpected end of input at line 2, col 5");
    let e: Error<char, NullPosition> = Error::message("invalid digit found in string".to_string(), NullPosition);
    assert_eq!(e.describe(), "invalid digit found in string");
    let e = Error {
        unexpected: Unexpected::Range(chars("xy")),
        expected: vec![Expected::Description("a word")],
        position: NullPosition,
    };
    assert_eq!(e.describe(), "unexpected \"xy\", expected a word");
}
